use telegram_bridge::config::TelegramConfig;
use telegram_bridge::handler::{format_user, HandlerCall};
use telegram_bridge::polling::{
    callback_call, edit_call, plan_callback, plan_edit, plan_message, message_calls, next_offset, route_update, sender_label,
    MessageVerdict, PollingState, UpdateDispatch, CYCLE_DELAY_MS, ERROR_BACKOFF_MS, POLL_LIMIT,
    POLL_TIMEOUT_SECS,
};
use telegram_bridge::protocol::{
    CallbackQuery, Chat, InlineKeyboardButton, InlineKeyboardMarkup, Message, Update, User,
};

fn user(id: i64, first: &str, last: Option<&str>, username: &str) -> User {
    User {
        id,
        is_bot: false,
        first_name: first.to_string(),
        last_name: last.map(|s| s.to_string()),
        username: username.to_string(),
        language_code: None,
    }
}

fn message(chat_id: i64, text: Option<&str>, from: Option<User>) -> Message {
    Message {
        message_id: 1,
        from,
        chat: Chat { id: chat_id, chat_type: "private".to_string(), first_name: None, username: None },
        date: 0,
        text: text.map(|s| s.to_string()),
        entities: None,
        photo: None,
        document: None,
        caption: None,
        reply_markup: None,
    }
}

fn update(id: i64) -> Update {
    Update { update_id: id, message: None, edited_message: None, channel_post: None, callback_query: None }
}

fn button(text: &str, data: Option<&str>) -> InlineKeyboardButton {
    InlineKeyboardButton { text: text.to_string(), callback_data: data.map(|s| s.to_string()), url: None }
}

#[test]
fn format_user_prefers_username() {
    assert_eq!(format_user(&user(1, "Ada", Some("Lovelace"), "ada")), "@ada");
    assert_eq!(format_user(&user(1, "Ada", Some("Lovelace"), "")), "Ada Lovelace");
    assert_eq!(format_user(&user(1, "Ada", None, "")), "Ada");
}

#[test]
fn offsets_follow_the_largest_update_id() {
    assert_eq!(next_offset(5, &vec![]), 5);
    assert_eq!(next_offset(5, &vec![update(9), update(7)]), 9);
    assert_eq!(next_offset(10, &vec![update(3)]), 10);

    let mut state = PollingState::new();
    assert_eq!(state.request_offset(), 1);
    let cycle = state.on_poll_result(Ok(vec![update(41), update(42)]));
    assert_eq!(state.offset, 42);
    assert_eq!(state.request_offset(), 43);
    assert_eq!(cycle.updates.len(), 2);
    assert_eq!(cycle.pauses_ms, vec![CYCLE_DELAY_MS]);

    let cycle = state.on_poll_result(Err("network".to_string()));
    assert_eq!(state.offset, 42);
    assert!(cycle.updates.is_empty());
    assert_eq!(cycle.pauses_ms, vec![ERROR_BACKOFF_MS, CYCLE_DELAY_MS]);
    assert_eq!((POLL_TIMEOUT_SECS, POLL_LIMIT), (10, 1));
    assert_eq!((ERROR_BACKOFF_MS, CYCLE_DELAY_MS), (5000, 500));
}

#[test]
fn routing_prefers_message_then_callback_then_edit() {
    let mut u = update(1);
    u.edited_message = Some(message(3, Some("edited"), None));
    u.callback_query = Some(CallbackQuery {
        id: "cb".to_string(),
        from: user(9, "B", None, "b"),
        message: None,
        inline_message_id: None,
        data: "tool:allow:x".to_string(),
    });
    assert!(matches!(route_update(u.clone()), UpdateDispatch::Callback(c) if c.data == "tool:allow:x"));
    u.message = Some(message(2, Some("hi"), None));
    assert!(matches!(route_update(u.clone()), UpdateDispatch::NewMessage(m) if m.chat.id == 2));
    u.message = None;
    u.callback_query = None;
    assert!(matches!(route_update(u.clone()), UpdateDispatch::Edited(m) if m.chat.id == 3));
    u.edited_message = None;
    u.channel_post = Some(message(4, Some("post"), None));
    assert!(matches!(route_update(u), UpdateDispatch::Ignored));
}

#[test]
fn message_calls_buttons_then_text() {
    let mut msg = message(7, Some("hello"), Some(user(1, "A", None, "a")));
    msg.reply_markup = Some(InlineKeyboardMarkup {
        inline_keyboard: vec![
            vec![button("x", Some("d1")), button("link", None)],
            vec![],
            vec![button("y", Some("d2"))],
        ],
    });
    let calls = message_calls(&msg);
    assert_eq!(calls.len(), 3);
    match &calls[0] {
        HandlerCall::CallbackQuery { chat_id, data, from } => {
            assert_eq!((*chat_id, data.as_str()), (7, "d1"));
            assert_eq!(from.as_ref().unwrap().username, "a");
        }
        other => panic!("unexpected {:?}", other),
    }
    assert!(matches!(&calls[1], HandlerCall::CallbackQuery { data, .. } if data == "d2"));
    assert!(matches!(&calls[2], HandlerCall::Message { chat_id: 7, text, .. } if text == "hello"));

    let plain = message_calls(&message(8, None, None));
    assert_eq!(plain.len(), 1);
    assert!(matches!(&plain[0], HandlerCall::Message { chat_id: 8, text, from: None } if text.is_empty()));
}

#[test]
fn edit_and_callback_calls() {
    let e = edit_call(&message(5, Some("fixed"), None));
    assert!(matches!(e, HandlerCall::MessageEdited { chat_id: 5, ref text, from: None } if text == "fixed"));
    let cb = CallbackQuery {
        id: "q".to_string(),
        from: user(99, "C", None, "c"),
        message: Some(message(1234, None, None)),
        inline_message_id: None,
        data: "tool:deny:r".to_string(),
    };
    match callback_call(&cb) {
        HandlerCall::CallbackQuery { chat_id, data, from } => {
            assert_eq!(chat_id, 99);
            assert_eq!(data, "tool:deny:r");
            assert_eq!(from.unwrap().id, 99);
        }
        other => panic!("unexpected {:?}", other),
    }
}

#[test]
fn unauthorized_chats_are_refused() {
    let mut cfg = TelegramConfig::with_timestamp("t".to_string(), "now".to_string());
    cfg.allowed_chat_ids = vec![10, 20];
    match plan_message(&Some(cfg.clone()), &message(30, Some("hi"), None)) {
        MessageVerdict::Refuse(m) => {
            assert_eq!(m.chat_id, 30);
            assert_eq!(m.text, "\u{26A0}\u{FE0F} You are not authorized to use this bot.");
            assert!(m.parse_mode.is_none());
            assert!(m.reply_markup.is_none());
        }
        MessageVerdict::Deliver(_) => panic!("chat 30 must be refused"),
    }
    match plan_message(&Some(cfg), &message(20, Some("hi"), None)) {
        MessageVerdict::Deliver(calls) => {
            assert_eq!(calls.len(), 1);
            assert!(matches!(&calls[0], HandlerCall::Message { chat_id: 20, text, .. } if text == "hi"));
        }
        MessageVerdict::Refuse(_) => panic!("chat 20 is allowed"),
    }
    assert!(matches!(plan_message(&None, &message(30, None, None)), MessageVerdict::Deliver(_)));
    let open = TelegramConfig::with_timestamp("t".to_string(), "now".to_string());
    assert!(matches!(plan_message(&Some(open), &message(30, None, None)), MessageVerdict::Deliver(_)));
}

#[test]
fn sender_labels() {
    assert_eq!(sender_label(&None), "unknown");
    assert_eq!(sender_label(&Some(user(1, "A", None, ""))), "unknown");
    assert_eq!(sender_label(&Some(user(1, "A", None, "ann"))), "ann");
}

#[test]
fn edits_and_presses_from_unauthorized_chats_reach_no_handler() {
    let mut cfg = TelegramConfig::with_timestamp("t".to_string(), "now".to_string());
    cfg.allowed_chat_ids = vec![10];
    let cfg = Some(cfg);
    assert!(plan_edit(&cfg, &message(11, Some("x"), None)).is_none());
    assert!(matches!(
        plan_edit(&cfg, &message(10, Some("x"), None)),
        Some(HandlerCall::MessageEdited { chat_id: 10, ref text, .. }) if text == "x"
    ));
    assert!(plan_edit(&None, &message(11, None, None)).is_some());

    let press = |user_id: i64| CallbackQuery {
        id: "q".to_string(),
        from: user(user_id, "P", None, "p"),
        message: None,
        inline_message_id: None,
        data: "tool:allow:r".to_string(),
    };
    assert!(plan_callback(&cfg, &press(11)).is_none());
    assert!(matches!(
        plan_callback(&cfg, &press(10)),
        Some(HandlerCall::CallbackQuery { chat_id: 10, ref data, .. }) if data == "tool:allow:r"
    ));
    let open = Some(TelegramConfig::with_timestamp("t".to_string(), "now".to_string()));
    assert!(plan_callback(&open, &press(11)).is_some());
}
