//! Verified core of a Telegram bot bridge: the Bot API wire types, the
//! callback data of approval buttons, the table of approvals waiting for a
//! reply, chat authorization and the decisions of the long polling loop.

pub mod text;
pub mod protocol;
pub mod config;
pub mod client;
pub mod handler;
pub mod approver;
pub mod polling;
pub mod bridge;

pub use approver::{ApprovalDecision, ApprovalFlow, ApprovalReply, ApprovalRequest, Pending};
pub use client::TelegramClient;
pub use config::TelegramConfig;
pub use handler::{format_user, HandlerCall};
pub use polling::PollingState;
