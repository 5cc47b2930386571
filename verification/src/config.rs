//! The bot's configuration and the chat allowlist it carries.

use vstd::prelude::*;

verus! {

/// Telegram bot configuration.
#[derive(Debug, Clone)]
pub struct TelegramConfig {
    /// Bot token from @BotFather.
    pub bot_token: String,
    /// When the config was last updated (RFC 3339).
    pub updated_at: String,
    /// Chat IDs that are allowed to interact with this bot.
    /// If empty, all users are allowed (not recommended for production).
    pub allowed_chat_ids: Vec<i64>,
}

/// A character of an RFC 3339 timestamp as chrono writes it: digits and
/// the separators `-`, `:`, `.`, `T`, `+`.
pub open spec fn is_timestamp_char(c: char) -> bool {
    ('0' <= c && c <= '9') || c == '-' || c == ':' || c == '.' || c == 'T' || c == '+'
}

/// The shape of a UTC RFC 3339 timestamp as chrono writes it, such as
/// `2026-05-16T12:34:56.789+00:00`: at least the 25 characters of
/// `YYYY-MM-DDTHH:MM:SS+00:00`, a `T` between date and time, timestamp
/// characters only, and the UTC offset `+00:00` at the end.
pub open spec fn is_utc_timestamp(s: Seq<char>) -> bool {
    &&& s.len() >= 25
    &&& s.contains('T')
    &&& forall|i: int| 0 <= i < s.len() ==> is_timestamp_char(#[trigger] s[i])
    &&& s.skip(s.len() - 6) == "+00:00"@
}

/// Calls `chrono::Utc::now()` and formats it with `to_rfc3339`. Which time
/// comes out depends on the clock; whatever it is, chrono writes the year
/// (four digits, or a sign and more digits outside 0..=9999), `-MM-DD`,
/// `T`, `HH:MM:SS`, an optional fraction `.` and digits, and the UTC offset
/// as `+00:00`.
#[verifier::external_body]
fn now_rfc3339() -> (r: String)
    ensures
        is_utc_timestamp(r@),
{
    chrono::Utc::now().to_rfc3339()
}

/// A chat is blocked when the allowlist is not empty and does not hold it.
pub open spec fn chat_blocked(allowed: Seq<i64>, chat_id: i64) -> bool {
    allowed.len() > 0 && !allowed.contains(chat_id)
}

impl TelegramConfig {
    /// A config for `bot_token`, stamped with `updated_at`, with an empty
    /// allowlist.
    pub fn with_timestamp(bot_token: String, updated_at: String) -> (r: Self)
        ensures
            r.bot_token == bot_token,
            r.updated_at == updated_at,
            r.allowed_chat_ids@ == Seq::<i64>::empty(),
    {
        TelegramConfig { bot_token, updated_at, allowed_chat_ids: Vec::new() }
    }

    /// Create a new config with the given bot token, stamped with the
    /// current time.
    pub fn new(bot_token: String) -> (r: Self)
        ensures
            r.bot_token == bot_token,
            is_utc_timestamp(r.updated_at@),
            r.allowed_chat_ids@ == Seq::<i64>::empty(),
    {
        let now = now_rfc3339();
        Self::with_timestamp(bot_token, now)
    }

    /// Whether a message from `chat_id` is refused.
    pub fn blocks_chat(&self, chat_id: i64) -> (r: bool)
        ensures
            r == chat_blocked(self.allowed_chat_ids@, chat_id),
    {
        if self.allowed_chat_ids.len() == 0 {
            return false;
        }
        let mut i: usize = 0;
        while i < self.allowed_chat_ids.len()
            invariant
                i <= self.allowed_chat_ids@.len(),
                forall|j: int| 0 <= j < i ==> self.allowed_chat_ids@[j] != chat_id,
            decreases self.allowed_chat_ids@.len() - i,
        {
            if self.allowed_chat_ids[i] == chat_id {
                proof {
                    assert(self.allowed_chat_ids@.contains(chat_id));
                }
                return false;
            }
            i = i + 1;
        }
        true
    }

    /// The first chat to write to a bot with an empty allowlist becomes its
    /// only allowed chat. Returns whether the allowlist changed (and the
    /// config needs saving).
    pub fn register_first_chat(&mut self, chat_id: i64) -> (changed: bool)
        ensures
            changed == (old(self).allowed_chat_ids@.len() == 0),
            changed ==> final(self).allowed_chat_ids@ == seq![chat_id],
            !changed ==> final(self).allowed_chat_ids@ == old(self).allowed_chat_ids@,
            final(self).bot_token == old(self).bot_token,
            final(self).updated_at == old(self).updated_at,
    {
        if self.allowed_chat_ids.len() == 0 {
            self.allowed_chat_ids.push(chat_id);
            proof {
                assert(self.allowed_chat_ids@ =~= seq![chat_id]);
            }
            true
        } else {
            false
        }
    }

    /// The chat that approval prompts go to: the first allowed one.
    pub fn primary_chat(&self) -> (r: Option<i64>)
        ensures
            self.allowed_chat_ids@.len() == 0 ==> r.is_none(),
            self.allowed_chat_ids@.len() > 0 ==> r == Some(self.allowed_chat_ids@[0]),
    {
        if self.allowed_chat_ids.len() == 0 {
            None
        } else {
            Some(self.allowed_chat_ids[0])
        }
    }
}


/// Law: with an empty allowlist every chat may talk to the bot; the first
/// one to do so is registered, after which that chat is allowed and every
/// other chat is refused.
pub proof fn law_first_chat_registration(allowed: Seq<i64>, first: i64, other: i64)
    requires
        allowed.len() == 0,
        other != first,
    ensures
        !chat_blocked(allowed, first),
        !chat_blocked(seq![first], first),
        chat_blocked(seq![first], other),
{
    assert(seq![first][0] == first);
    assert(!seq![first].contains(other)) by {
        if seq![first].contains(other) {
            let i = choose|i: int| 0 <= i < 1 && seq![first][i] == other;
        }
    }
}

/// Law: a non-empty allowlist admits exactly the chats it holds.
pub proof fn law_allowlist_admits_members(allowed: Seq<i64>, chat_id: i64)
    requires
        allowed.len() > 0,
    ensures
        !chat_blocked(allowed, chat_id) <==> allowed.contains(chat_id),
{
}

} // verus!
