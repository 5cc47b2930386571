//! Formatting of users and the calls handed to a message handler.

use vstd::prelude::*;
use vstd::string::*;
use crate::protocol::User;

verus! {

/// How a user is shown: `@username` when there is one, else the full name.
pub open spec fn user_label(user: User) -> Seq<char> {
    if user.username@.len() > 0 {
        "@"@ + user.username@
    } else {
        match user.last_name {
            Some(last) => user.first_name@ + " "@ + last@,
            None => user.first_name@,
        }
    }
}

/// Format a user for display.
pub fn format_user(user: &User) -> (r: String)
    ensures
        r@ == user_label(*user),
{
    if !user.username.as_str().is_empty() {
        let mut r = String::from_str("@");
        r.append(user.username.as_str());
        r
    } else {
        match &user.last_name {
            Some(last) => {
                let mut r = user.first_name.clone();
                r.append(" ");
                r.append(last.as_str());
                r
            }
            None => user.first_name.clone(),
        }
    }
}


/// One call to make on the message handler.
#[derive(Debug, Clone)]
pub enum HandlerCall {
    /// `on_message`: an incoming text message.
    Message { chat_id: i64, text: String, from: Option<User> },
    /// `on_message_edited`: an edited message.
    MessageEdited { chat_id: i64, text: String, from: Option<User> },
    /// `on_callback_query`: an inline button's callback data.
    CallbackQuery { chat_id: i64, data: String, from: Option<User> },
}

} // verus!
