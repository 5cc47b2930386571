//! What the bridge decides around its connection: whether it can start,
//! how a validated bot is named, and the commands it registers.

use vstd::prelude::*;
use vstd::string::*;
use crate::config::TelegramConfig;
use crate::protocol::{BotCommand, SetMyCommandsRequest, User};

verus! {

broadcast use vstd::string::group_string_axioms;

/// The error when starting without a bot token.
pub open spec fn no_token_error() -> Seq<char> {
    "No bot token configured. Please pair via GUI or --telegram flag."@
}

/// Whether the polling loop may start with `config`: it needs a bot token.
pub fn check_startable(config: &TelegramConfig) -> (r: Result<(), String>)
    ensures
        config.bot_token@.len() == 0 <==> r.is_err(),
        r matches Err(e) ==> e@ == no_token_error(),
{
    if config.bot_token.as_str().is_empty() {
        Err(String::from_str("No bot token configured. Please pair via GUI or --telegram flag."))
    } else {
        Ok(())
    }
}

/// How a bot that `getMe` returned is named: `First (@username)`.
pub open spec fn bot_label(me: User) -> Seq<char> {
    me.first_name@ + " (@"@ + me.username@ + ")"@
}

/// The name of a validated bot, as `validate_token` reports it.
pub fn describe_bot(me: &User) -> (r: String)
    ensures
        r@ == bot_label(*me),
{
    let mut r = me.first_name.clone();
    r.append(" (@");
    r.append(me.username.as_str());
    r.append(")");
    r
}

/// The (command, description) pairs registered with Telegram, in order.
pub open spec fn command_table() -> Seq<(Seq<char>, Seq<char>)> {
    seq![
        ("help"@, "Show available commands"@),
        ("status"@, "Show session status"@),
        ("clear"@, "Clear conversation"@),
        ("permissions"@, "Show permission mode"@),
        ("sessions"@, "List sessions"@),
        ("models"@, "Show available models"@),
    ]
}

fn command(name: &str, description: &str) -> (r: BotCommand)
    ensures
        r.command@ == name@,
        r.description@ == description@,
{
    BotCommand { command: String::from_str(name), description: String::from_str(description) }
}

/// The bot commands shown in Telegram's command menu.
pub fn bot_commands() -> (r: Vec<BotCommand>)
    ensures
        r@.len() == command_table().len(),
        forall|i: int|
            0 <= i < r@.len() ==> (#[trigger] r@[i]).command@ == command_table()[i].0 && r@[i].description@
                == command_table()[i].1,
{
    let mut v = Vec::new();
    v.push(command("help", "Show available commands"));
    v.push(command("status", "Show session status"));
    v.push(command("clear", "Clear conversation"));
    v.push(command("permissions", "Show permission mode"));
    v.push(command("sessions", "List sessions"));
    v.push(command("models", "Show available models"));
    v
}

/// The `setMyCommands` request registering `bot_commands`.
pub fn commands_request() -> (r: SetMyCommandsRequest)
    ensures
        r.commands matches Some(v) && v@.len() == command_table().len() && forall|i: int|
            0 <= i < v@.len() ==> (#[trigger] v@[i]).command@ == command_table()[i].0 && v@[i].description@
                == command_table()[i].1,
{
    SetMyCommandsRequest { commands: Some(bot_commands()) }
}

} // verus!
