//! Telegram Bot API wire types, as plain values.

use vstd::prelude::*;

verus! {

/// A Telegram user, as returned by `getMe` and carried in messages.
#[derive(Debug)]
pub struct User {
    pub id: i64,
    pub is_bot: bool,
    pub first_name: String,
    pub last_name: Option<String>,
    pub username: String,
    pub language_code: Option<String>,
}

/// Copies an optional string; the copy equals the original.
pub fn clone_opt_string(s: &Option<String>) -> (r: Option<String>)
    ensures
        r == *s,
{
    match s {
        Some(x) => Some(x.clone()),
        None => None,
    }
}

impl Clone for User {
    fn clone(&self) -> (r: Self)
        ensures
            r == *self,
    {
        User {
            id: self.id,
            is_bot: self.is_bot,
            first_name: self.first_name.clone(),
            last_name: clone_opt_string(&self.last_name),
            username: self.username.clone(),
            language_code: clone_opt_string(&self.language_code),
        }
    }
}


/// A single update from `getUpdates`.
#[derive(Debug, Clone)]
pub struct Update {
    pub update_id: i64,
    pub message: Option<Message>,
    pub edited_message: Option<Message>,
    pub channel_post: Option<Message>,
    pub callback_query: Option<CallbackQuery>,
}

/// A message from a user.
#[derive(Debug, Clone)]
pub struct Message {
    pub message_id: i64,
    pub from: Option<User>,
    pub chat: Chat,
    pub date: i64,
    pub text: Option<String>,
    pub entities: Option<Vec<MessageEntity>>,
    pub photo: Option<Vec<PhotoSize>>,
    pub document: Option<Document>,
    pub caption: Option<String>,
    pub reply_markup: Option<InlineKeyboardMarkup>,
}

/// Chat information. `chat_type` is the wire field `type`.
#[derive(Debug, Clone)]
pub struct Chat {
    pub id: i64,
    pub chat_type: String,
    pub first_name: Option<String>,
    pub username: Option<String>,
}

/// Message entity (link, mention, etc.). `entity_type` is the wire field
/// `type`.
#[derive(Debug, Clone)]
pub struct MessageEntity {
    pub entity_type: String,
    pub offset: i32,
    pub length: i32,
    pub url: Option<String>,
    pub user: Option<User>,
}

/// Photo size.
#[derive(Debug, Clone)]
pub struct PhotoSize {
    pub file_id: String,
    pub width: i32,
    pub height: i32,
}

/// Document.
#[derive(Debug, Clone)]
pub struct Document {
    pub file_id: String,
    pub file_name: String,
    pub mime_type: Option<String>,
    pub file_size: Option<i64>,
}

/// Inline keyboard markup: rows of buttons.
#[derive(Debug, Clone)]
pub struct InlineKeyboardMarkup {
    pub inline_keyboard: Vec<Vec<InlineKeyboardButton>>,
}

/// A button in an inline keyboard.
#[derive(Debug, Clone)]
pub struct InlineKeyboardButton {
    pub text: String,
    pub callback_data: Option<String>,
    pub url: Option<String>,
}

/// Callback query from an inline button press.
#[derive(Debug, Clone)]
pub struct CallbackQuery {
    pub id: String,
    pub from: User,
    pub message: Option<Message>,
    pub inline_message_id: Option<String>,
    pub data: String,
}

/// Request payload for `sendMessage`. The keyboard, when there is one, is
/// sent as its JSON form.
#[derive(Debug, Clone)]
pub struct SendMessageRequest {
    pub chat_id: i64,
    pub text: String,
    pub parse_mode: Option<String>,
    pub reply_markup: Option<InlineKeyboardMarkup>,
}

/// Bot command definition for `setMyCommands`.
#[derive(Debug, Clone)]
pub struct BotCommand {
    pub command: String,
    pub description: String,
}

/// Request payload for `setMyCommands`.
#[derive(Debug, Clone)]
pub struct SetMyCommandsRequest {
    pub commands: Option<Vec<BotCommand>>,
}

/// Request payload for sending a document.
#[derive(Debug, Clone)]
pub struct SendDocumentRequest {
    pub chat_id: i64,
    /// File id or path; not part of the JSON body.
    pub document: String,
    pub caption: Option<String>,
}

/// Request payload for `answerCallbackQuery`.
#[derive(Debug, Clone)]
pub struct AnswerCallbackQueryRequest {
    pub callback_query_id: String,
    pub text: String,
    pub show_alert: Option<bool>,
}

/// Copies an optional user; the copy equals the original.
pub fn clone_opt_user(u: &Option<User>) -> (r: Option<User>)
    ensures
        r == *u,
{
    match u {
        Some(x) => Some(x.clone()),
        None => None,
    }
}

} // verus!
