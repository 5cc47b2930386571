//! The decisions of the long polling loop: which offset to ask for, what
//! each update is dispatched to, who may talk to the bot, and how long to
//! wait between cycles.

use vstd::prelude::*;
use vstd::string::*;
use crate::config::{TelegramConfig, chat_blocked};
use crate::handler::HandlerCall;
use crate::protocol::{CallbackQuery, Message, SendMessageRequest, Update, User, clone_opt_user};

verus! {

broadcast use vstd::string::group_string_axioms;

/// Seconds a `getUpdates` call may wait for updates.
pub const POLL_TIMEOUT_SECS: i32 = 10;

/// Updates fetched per `getUpdates` call.
pub const POLL_LIMIT: i32 = 1;

/// Pause after a failed poll, in milliseconds.
pub const ERROR_BACKOFF_MS: u64 = 5000;

/// Pause between polling cycles, in milliseconds.
pub const CYCLE_DELAY_MS: u64 = 500;

/// The largest of `offset` and the ids of `updates`.
pub open spec fn max_update_id(offset: i64, updates: Seq<Update>) -> i64
    decreases updates.len(),
{
    if updates.len() == 0 {
        offset
    } else {
        let m = max_update_id(offset, updates.drop_last());
        if updates.last().update_id > m {
            updates.last().update_id
        } else {
            m
        }
    }
}

/// The offset after a batch: the last update id seen (the largest one),
/// or the old offset when there is none larger.
pub fn next_offset(offset: i64, updates: &Vec<Update>) -> (r: i64)
    ensures
        r == max_update_id(offset, updates@),
{
    let mut m = offset;
    let mut i: usize = 0;
    while i < updates.len()
        invariant
            i <= updates@.len(),
            m == max_update_id(offset, updates@.take(i as int)),
        decreases updates@.len() - i,
    {
        proof {
            assert(updates@.take(i + 1).drop_last() =~= updates@.take(i as int));
        }
        if updates[i].update_id > m {
            m = updates[i].update_id;
        }
        i = i + 1;
    }
    proof {
        assert(updates@.take(i as int) =~= updates@);
    }
    m
}

/// The state the polling loop keeps between cycles.
#[derive(Debug, Clone)]
pub struct PollingState {
    /// Id of the last update seen.
    pub offset: i64,
}

/// The outcome of one polling cycle: the updates to dispatch, in order, and
/// the pauses to take afterwards, in milliseconds.
#[derive(Debug, Clone)]
pub struct PollCycle {
    pub updates: Vec<Update>,
    pub pauses_ms: Vec<u64>,
}

impl PollingState {
    /// A loop that has seen no update.
    pub fn new() -> (r: Self)
        ensures
            r.offset == 0,
    {
        PollingState { offset: 0 }
    }

    /// The `offset` parameter of the next `getUpdates`: one past the last
    /// update seen, so no update is fetched twice.
    pub fn request_offset(&self) -> (r: i64)
        requires
            self.offset < i64::MAX,
        ensures
            r == self.offset + 1,
    {
        self.offset + 1
    }

    /// Take in the result of a `getUpdates` call. On success the offset
    /// moves to the largest update id seen and the updates are dispatched,
    /// then the loop pauses briefly; on failure the offset stays and the
    /// loop backs off before the pause.
    pub fn on_poll_result(&mut self, result: Result<Vec<Update>, String>) -> (cycle: PollCycle)
        ensures
            match result {
                Ok(updates) => {
                    &&& final(self).offset == max_update_id(old(self).offset, updates@)
                    &&& cycle.updates@ == updates@
                    &&& cycle.pauses_ms@ == seq![CYCLE_DELAY_MS]
                },
                Err(_) => {
                    &&& final(self).offset == old(self).offset
                    &&& cycle.updates@.len() == 0
                    &&& cycle.pauses_ms@ == seq![ERROR_BACKOFF_MS, CYCLE_DELAY_MS]
                },
            },
    {
        match result {
            Ok(updates) => {
                self.offset = next_offset(self.offset, &updates);
                let mut pauses = Vec::new();
                pauses.push(CYCLE_DELAY_MS);
                proof {
                    assert(pauses@ =~= seq![CYCLE_DELAY_MS]);
                }
                PollCycle { updates, pauses_ms: pauses }
            },
            Err(_) => {
                let mut pauses = Vec::new();
                pauses.push(ERROR_BACKOFF_MS);
                pauses.push(CYCLE_DELAY_MS);
                proof {
                    assert(pauses@ =~= seq![ERROR_BACKOFF_MS, CYCLE_DELAY_MS]);
                }
                PollCycle { updates: Vec::new(), pauses_ms: pauses }
            },
        }
    }
}

/// What an update is dispatched as.
#[derive(Debug, Clone)]
pub enum UpdateDispatch {
    /// A new message.
    NewMessage(Message),
    /// An inline button press.
    Callback(CallbackQuery),
    /// An edited message.
    Edited(Message),
    /// Nothing the bridge handles (a channel post, or an empty update).
    Ignored,
}

/// What an update is dispatched as: a new message first, then a callback
/// query, then an edited message; anything else is ignored.
pub open spec fn dispatch_of(update: Update) -> UpdateDispatch {
    match update.message {
        Some(m) => UpdateDispatch::NewMessage(m),
        None => match update.callback_query {
            Some(c) => UpdateDispatch::Callback(c),
            None => match update.edited_message {
                Some(m) => UpdateDispatch::Edited(m),
                None => UpdateDispatch::Ignored,
            },
        },
    }
}

/// Route an update.
pub fn route_update(update: Update) -> (r: UpdateDispatch)
    ensures
        r == dispatch_of(update),
{
    if let Some(m) = update.message {
        UpdateDispatch::NewMessage(m)
    } else if let Some(c) = update.callback_query {
        UpdateDispatch::Callback(c)
    } else if let Some(m) = update.edited_message {
        UpdateDispatch::Edited(m)
    } else {
        UpdateDispatch::Ignored
    }
}

/// The text of a message, empty when it has none.
pub open spec fn message_text(msg: Message) -> Seq<char> {
    match msg.text {
        Some(t) => t@,
        None => Seq::<char>::empty(),
    }
}

fn text_or_empty(text: &Option<String>) -> (r: String)
    ensures
        r@ == match text {
            Some(t) => t@,
            None => Seq::<char>::empty(),
        },
{
    match text {
        Some(t) => t.clone(),
        None => String::new(),
    }
}

/// The handler call for an edited message.
pub fn edit_call(msg: &Message) -> (r: HandlerCall)
    ensures
        r matches HandlerCall::MessageEdited { chat_id, text, from } && chat_id == msg.chat.id && text@
            == message_text(*msg) && from == msg.from,
{
    HandlerCall::MessageEdited { chat_id: msg.chat.id, text: text_or_empty(&msg.text), from: clone_opt_user(&msg.from) }
}

/// Decide on an edited message against the config as loaded (none when it
/// could not be loaded): an edit from a chat off a non-empty allowlist
/// reaches no handler; any other edit goes to `on_message_edited`.
pub fn plan_edit(config: &Option<TelegramConfig>, msg: &Message) -> (r: Option<HandlerCall>)
    ensures
        match config {
            Some(c) if chat_blocked(c.allowed_chat_ids@, msg.chat.id) => r.is_none(),
            _ => r matches Some(HandlerCall::MessageEdited { chat_id, text, from }) && chat_id == msg.chat.id
                && text@ == message_text(*msg) && from == msg.from,
        },
{
    let blocked = match config {
        Some(c) => c.blocks_chat(msg.chat.id),
        None => false,
    };
    if blocked {
        None
    } else {
        Some(edit_call(msg))
    }
}

/// The handler call for an inline button press: the chat is the presser's
/// own chat (their user id).
pub fn callback_call(cb: &CallbackQuery) -> (r: HandlerCall)
    ensures
        r matches HandlerCall::CallbackQuery { chat_id, data, from } && chat_id == cb.from.id && data@
            == cb.data@ && from == Some(cb.from),
{
    HandlerCall::CallbackQuery { chat_id: cb.from.id, data: cb.data.clone(), from: Some(cb.from.clone()) }
}

/// Decide on an inline button press against the config as loaded (none
/// when it could not be loaded): a press by a user whose chat is off a
/// non-empty allowlist reaches no handler, so it can resolve no approval;
/// any other press goes to `on_callback_query`.
pub fn plan_callback(config: &Option<TelegramConfig>, cb: &CallbackQuery) -> (r: Option<HandlerCall>)
    ensures
        match config {
            Some(c) if chat_blocked(c.allowed_chat_ids@, cb.from.id) => r.is_none(),
            _ => r matches Some(HandlerCall::CallbackQuery { chat_id, data, from }) && chat_id == cb.from.id
                && data@ == cb.data@ && from == Some(cb.from),
        },
{
    let blocked = match config {
        Some(c) => c.blocks_chat(cb.from.id),
        None => false,
    };
    if blocked {
        None
    } else {
        Some(callback_call(cb))
    }
}

/// The callback data of a keyboard's buttons, row by row, skipping buttons
/// that carry none.
pub open spec fn keyboard_data(rows: Seq<Vec<crate::protocol::InlineKeyboardButton>>) -> Seq<Seq<char>>
    decreases rows.len(),
{
    if rows.len() == 0 {
        Seq::empty()
    } else {
        keyboard_data(rows.drop_last()) + row_data(rows.last()@)
    }
}

/// The callback data of one row's buttons, skipping buttons without any.
pub open spec fn row_data(row: Seq<crate::protocol::InlineKeyboardButton>) -> Seq<Seq<char>>
    decreases row.len(),
{
    if row.len() == 0 {
        Seq::empty()
    } else {
        row_data(row.drop_last()) + match row.last().callback_data {
            Some(d) => seq![d@],
            None => Seq::<Seq<char>>::empty(),
        }
    }
}

/// The callback data of a message's inline keyboard, if it has one.
pub open spec fn message_callback_data(msg: Message) -> Seq<Seq<char>> {
    match msg.reply_markup {
        Some(k) => keyboard_data(k.inline_keyboard@),
        None => Seq::empty(),
    }
}

/// `calls` hands each piece of callback data in `data` to
/// `on_callback_query` for `chat_id` and `from`, in order, and then the
/// message text to `on_message`.
pub open spec fn is_message_dispatch(
    calls: Seq<HandlerCall>,
    chat_id: i64,
    from: Option<User>,
    data: Seq<Seq<char>>,
    text: Seq<char>,
) -> bool {
    &&& calls.len() == data.len() + 1
    &&& forall|i: int|
        0 <= i < data.len() ==> (#[trigger] calls[i] matches HandlerCall::CallbackQuery { chat_id: c, data: d, from: f }
            && c == chat_id && d@ == data[i] && f == from)
    &&& calls.last() matches HandlerCall::Message { chat_id: c, text: t, from: f } && c == chat_id && t@ == text && f
        == from
}

/// The handler calls for an authorized new message: every callback button
/// on its keyboard, then the message itself.
pub fn message_calls(msg: &Message) -> (r: Vec<HandlerCall>)
    ensures
        is_message_dispatch(r@, msg.chat.id, msg.from, message_callback_data(*msg), message_text(*msg)),
{
    let chat_id = msg.chat.id;
    let mut calls: Vec<HandlerCall> = Vec::new();
    let ghost from = msg.from;
    if let Some(markup) = &msg.reply_markup {
        let rows = &markup.inline_keyboard;
        let mut i: usize = 0;
        while i < rows.len()
            invariant
                i <= rows@.len(),
                from == msg.from,
                msg.reply_markup == Some(*markup),
                calls@.len() == keyboard_data(rows@.take(i as int)).len(),
                forall|k: int|
                    0 <= k < calls@.len() ==> (#[trigger] calls@[k] matches HandlerCall::CallbackQuery {
                        chat_id: c,
                        data: d,
                        from: f,
                    } && c == chat_id && d@ == keyboard_data(rows@.take(i as int))[k] && f == from),
            decreases rows@.len() - i,
        {
            let row = &rows[i];
            let ghost before = keyboard_data(rows@.take(i as int));
            let ghost start = calls@.len();
            proof {
                assert(rows@.take(i + 1).drop_last() =~= rows@.take(i as int));
            }
            let mut j: usize = 0;
            while j < row.len()
                invariant
                    j <= row@.len(),
                    from == msg.from,
                    start == before.len(),
                    calls@.len() == start + row_data(row@.take(j as int)).len(),
                    forall|k: int|
                        0 <= k < calls@.len() ==> (#[trigger] calls@[k] matches HandlerCall::CallbackQuery {
                            chat_id: c,
                            data: d,
                            from: f,
                        } && c == chat_id && d@ == (before + row_data(row@.take(j as int)))[k] && f == from),
                decreases row@.len() - j,
            {
                proof {
                    assert(row@.take(j + 1).drop_last() =~= row@.take(j as int));
                }
                let ghost prev = before + row_data(row@.take(j as int));
                if let Some(data) = &row[j].callback_data {
                    calls.push(HandlerCall::CallbackQuery { chat_id, data: data.clone(), from: clone_opt_user(&msg.from) });
                    proof {
                        assert(before + row_data(row@.take(j + 1)) =~= prev.push(data@));
                    }
                } else {
                    proof {
                        assert(before + row_data(row@.take(j + 1)) =~= prev);
                    }
                }
                j = j + 1;
            }
            proof {
                assert(row@.take(j as int) =~= row@);
                assert(keyboard_data(rows@.take(i + 1)) =~= before + row_data(row@));
            }
            i = i + 1;
        }
        proof {
            assert(rows@.take(i as int) =~= rows@);
        }
    }
    let ghost data_calls = calls@;
    calls.push(HandlerCall::Message { chat_id, text: text_or_empty(&msg.text), from: clone_opt_user(&msg.from) });
    proof {
        assert forall|k: int| 0 <= k < message_callback_data(*msg).len() implies (#[trigger] calls@[k] matches HandlerCall::CallbackQuery {
            chat_id: c,
            data: d,
            from: f,
        } && c == chat_id && d@ == message_callback_data(*msg)[k] && f == msg.from) by {
            assert(calls@[k] == data_calls[k]);
        }
    }
    calls
}

/// The reply a blocked chat gets.
pub open spec fn unauthorized_text() -> Seq<char> {
    "\u{26A0}\u{FE0F} You are not authorized to use this bot."@
}

/// The `sendMessage` request refusing a chat that is not on the allowlist.
pub fn unauthorized_notice(chat_id: i64) -> (r: SendMessageRequest)
    ensures
        r.chat_id == chat_id,
        r.text@ == unauthorized_text(),
        r.parse_mode.is_none(),
        r.reply_markup.is_none(),
{
    SendMessageRequest {
        chat_id,
        text: String::from_str("\u{26A0}\u{FE0F} You are not authorized to use this bot."),
        parse_mode: None,
        reply_markup: None,
    }
}

/// What to do with a new message.
#[derive(Debug, Clone)]
pub enum MessageVerdict {
    /// The chat is not allowed: send this refusal; the handler hears
    /// nothing of the message.
    Refuse(SendMessageRequest),
    /// The chat may talk to the bot: make these handler calls, in order.
    Deliver(Vec<HandlerCall>),
}

/// Decide on a new message against the config as loaded (none when it
/// could not be loaded, in which case every chat is accepted): a chat off
/// a non-empty allowlist is refused, any other message is delivered.
pub fn plan_message(config: &Option<TelegramConfig>, msg: &Message) -> (r: MessageVerdict)
    ensures
        match config {
            Some(c) if chat_blocked(c.allowed_chat_ids@, msg.chat.id) => r matches MessageVerdict::Refuse(m)
                && m.chat_id == msg.chat.id && m.text@ == unauthorized_text() && m.parse_mode.is_none()
                && m.reply_markup.is_none(),
            _ => r matches MessageVerdict::Deliver(calls) && is_message_dispatch(
                calls@,
                msg.chat.id,
                msg.from,
                message_callback_data(*msg),
                message_text(*msg),
            ),
        },
{
    let blocked = match config {
        Some(c) => c.blocks_chat(msg.chat.id),
        None => false,
    };
    if blocked {
        MessageVerdict::Refuse(unauthorized_notice(msg.chat.id))
    } else {
        MessageVerdict::Deliver(message_calls(msg))
    }
}

/// How the sender of a message is named in the log: the username, or
/// `unknown` when there is no sender or no username.
pub open spec fn sender_name(from: Option<User>) -> Seq<char> {
    match from {
        Some(u) => if u.username@.len() > 0 {
            u.username@
        } else {
            "unknown"@
        },
        None => "unknown"@,
    }
}

/// The sender's name for the log.
pub fn sender_label(from: &Option<User>) -> (r: String)
    ensures
        r@ == sender_name(*from),
{
    match from {
        Some(u) => if !u.username.as_str().is_empty() {
            u.username.clone()
        } else {
            String::from_str("unknown")
        },
        None => String::from_str("unknown"),
    }
}


/// Law: the offset never moves back, and the next `getUpdates` asks only
/// for updates past every update of the batch just taken in, so no update
/// is dispatched twice. The new offset is the old one or an id of the batch.
pub proof fn law_offset_advances(offset: i64, updates: Seq<Update>)
    ensures
        max_update_id(offset, updates) >= offset,
        forall|i: int| 0 <= i < updates.len() ==> #[trigger] updates[i].update_id < max_update_id(offset, updates) + 1,
        max_update_id(offset, updates) == offset || exists|i: int|
            0 <= i < updates.len() && updates[i].update_id == max_update_id(offset, updates),
    decreases updates.len(),
{
    if updates.len() > 0 {
        let d = updates.drop_last();
        law_offset_advances(offset, d);
        assert forall|i: int| 0 <= i < updates.len() implies #[trigger] updates[i].update_id < max_update_id(offset, updates) + 1 by {
            if i < updates.len() - 1 {
                assert(d[i] == updates[i]);
            }
        }
        if max_update_id(offset, updates) != offset {
            if updates.last().update_id > max_update_id(offset, d) {
                assert(updates[updates.len() - 1].update_id == max_update_id(offset, updates));
            } else {
                let i = choose|i: int| 0 <= i < d.len() && d[i].update_id == max_update_id(offset, d);
                assert(updates[i] == d[i]);
            }
        }
    }
}

/// Law: the handler hears a new message's text unchanged. When delivering a
/// message makes calls as `plan_message` and `message_calls` state, the
/// last call is `on_message` for the message's chat and sender, and its
/// text is the message's text character for character (empty when the
/// message has none).
pub proof fn law_delivered_text_is_unchanged(msg: Message, calls: Seq<HandlerCall>)
    requires
        is_message_dispatch(calls, msg.chat.id, msg.from, message_callback_data(msg), message_text(msg)),
    ensures
        calls.len() >= 1,
        calls.last() matches HandlerCall::Message { chat_id: c, text: t, from: f } && c == msg.chat.id && f
            == msg.from && match msg.text {
            Some(original) => t@ == original@,
            None => t@.len() == 0,
        },
{
}

/// Law: an update is routed by what it holds, whatever else its parts
/// carry: a new message goes to the new-message path; failing that, a
/// callback query (on any message, or on none) goes to the callback path;
/// failing that, an edited message to the edit path; anything else is
/// ignored.
pub proof fn law_routing_by_content(u: Update)
    ensures
        u.message matches Some(m) ==> dispatch_of(u) == UpdateDispatch::NewMessage(m),
        (u.message is None && u.callback_query is Some) ==> dispatch_of(u) == UpdateDispatch::Callback(
            u.callback_query->0,
        ),
        (u.message is None && u.callback_query is None && u.edited_message is Some) ==> dispatch_of(u)
            == UpdateDispatch::Edited(u.edited_message->0),
        (u.message is None && u.callback_query is None && u.edited_message is None) ==> dispatch_of(u)
            == UpdateDispatch::Ignored,
{
}

/// Law: a keyboard's callback data is collected in reading order, none
/// lost and none added: no rows give none; adding a row adds exactly that
/// row's data at the end; within a row, adding a button adds its data at
/// the end when it has some, and nothing when it has none.
pub proof fn law_keyboard_data_in_order(
    rows: Seq<Vec<crate::protocol::InlineKeyboardButton>>,
    row: Vec<crate::protocol::InlineKeyboardButton>,
    buttons: Seq<crate::protocol::InlineKeyboardButton>,
    b: crate::protocol::InlineKeyboardButton,
)
    ensures
        keyboard_data(Seq::empty()).len() == 0,
        keyboard_data(rows.push(row)) == keyboard_data(rows) + row_data(row@),
        row_data(Seq::empty()).len() == 0,
        row_data(buttons.push(b)) == row_data(buttons) + match b.callback_data {
            Some(d) => seq![d@],
            None => Seq::<Seq<char>>::empty(),
        },
{
    assert(rows.push(row).drop_last() =~= rows);
    assert(buttons.push(b).drop_last() =~= buttons);
}

} // verus!
