//! The Bot API endpoint a client talks to, derived from the bot token.

use vstd::prelude::*;
use vstd::string::*;
use crate::text::{same_text, trim, trimmed};

verus! {

broadcast use vstd::string::group_string_axioms;

/// Every Bot API URL starts with this, followed by the token.
pub open spec fn api_prefix() -> Seq<char> {
    "https://api.telegram.org/bot"@
}

/// The token that a base URL carries: none when no token was set, the text
/// after the API prefix otherwise (empty when the prefix is missing).
pub open spec fn token_of(base: Seq<char>) -> Option<Seq<char>> {
    if base.len() == 0 {
        None
    } else if base.len() >= api_prefix().len() && base.take(api_prefix().len() as int) == api_prefix() {
        Some(base.skip(api_prefix().len() as int))
    } else {
        Some(Seq::<char>::empty())
    }
}

/// Telegram Bot API client state: the base URL of the bot's endpoint.
#[derive(Debug, Clone)]
pub struct TelegramClient {
    base_url: String,
}

impl TelegramClient {
    /// The base URL requests go to; empty until a token is set.
    pub closed spec fn base(&self) -> Seq<char> {
        self.base_url@
    }

    /// Create a new client (token set via `set_token`).
    pub fn new() -> (r: Self)
        ensures
            r.base() == Seq::<char>::empty(),
    {
        TelegramClient { base_url: String::new() }
    }

    /// Set the bot token; surrounding white space is dropped.
    pub fn set_token(&mut self, token: &str)
        ensures
            final(self).base() == api_prefix() + trimmed(token@),
    {
        let mut url = String::from_str("https://api.telegram.org/bot");
        url.append(trim(token));
        self.base_url = url;
    }

    /// Get the current bot token (for config save).
    pub fn bot_token(&self) -> (r: Option<String>)
        ensures
            match r {
                Some(t) => token_of(self.base()) == Some(t@),
                None => token_of(self.base()).is_none(),
            },
    {
        let base = self.base_url.as_str();
        if base.is_empty() {
            return None;
        }
        let prefix = "https://api.telegram.org/bot";
        let n = base.unicode_len();
        let p = prefix.unicode_len();
        if n >= p && same_text(base.substring_char(0, p), prefix) {
            proof {
                assert(base@.subrange(0, p as int) =~= base@.take(p as int));
                assert(base@.subrange(p as int, n as int) =~= base@.skip(p as int));
            }
            Some(String::from_str(base.substring_char(p, n)))
        } else {
            proof {
                assert(base@.subrange(0, p as int) =~= base@.take(p as int));
            }
            Some(String::new())
        }
    }

    /// The URL of Bot API method `method`: the base URL, `/`, the method.
    pub fn method_url(&self, method: &str) -> (r: String)
        ensures
            r@ == self.base() + "/"@ + method@,
    {
        let mut url = self.base_url.clone();
        url.append("/");
        url.append(method);
        url
    }
}


/// Law: the token read back after `set_token(t)` is `t` without its
/// surrounding white space.
pub proof fn law_token_round_trip(t: Seq<char>)
    ensures
        token_of(api_prefix() + trimmed(t)) == Some(trimmed(t)),
{
    reveal_strlit("https://api.telegram.org/bot");
    let base = api_prefix() + trimmed(t);
    assert(base.take(api_prefix().len() as int) =~= api_prefix());
    assert(base.skip(api_prefix().len() as int) =~= trimmed(t));
}

} // verus!
