use telegram_bridge::bridge::{bot_commands, check_startable, commands_request, describe_bot};
use telegram_bridge::client::TelegramClient;
use telegram_bridge::config::TelegramConfig;
use telegram_bridge::protocol::User;
use telegram_bridge::text::{chars_of, piece_starts, same_text, trim};

#[test]
fn new_config_is_stamped_and_open() {
    let cfg = TelegramConfig::new("123:abc".to_string());
    assert_eq!(cfg.bot_token, "123:abc");
    assert!(cfg.allowed_chat_ids.is_empty());
    assert!(cfg.updated_at.len() >= 20);
    assert!(cfg.updated_at.contains('T'));
    assert!(cfg.updated_at.ends_with("+00:00"));
    assert!(cfg.updated_at.chars().all(|c| c.is_ascii_digit() || "-:.T+".contains(c)));
    assert!(cfg.updated_at.len() >= 25);
}

#[test]
fn first_chat_is_registered_once() {
    let mut cfg = TelegramConfig::with_timestamp("t".to_string(), "2026-01-01T00:00:00+00:00".to_string());
    assert!(!cfg.blocks_chat(5));
    assert_eq!(cfg.primary_chat(), None);
    assert!(cfg.register_first_chat(5));
    assert_eq!(cfg.allowed_chat_ids, vec![5]);
    assert!(!cfg.blocks_chat(5));
    assert!(cfg.blocks_chat(6));
    assert!(!cfg.register_first_chat(6));
    assert_eq!(cfg.allowed_chat_ids, vec![5]);
    assert_eq!(cfg.primary_chat(), Some(5));
}

#[test]
fn token_round_trips_through_the_client() {
    let mut client = TelegramClient::new();
    assert_eq!(client.bot_token(), None);
    client.set_token("  123:ABC \n");
    assert_eq!(client.bot_token(), Some("123:ABC".to_string()));
    assert_eq!(client.method_url("getMe"), "https://api.telegram.org/bot123:ABC/getMe");
    client.set_token("   ");
    assert_eq!(client.bot_token(), Some(String::new()));
}

#[test]
fn start_needs_a_token() {
    let empty = TelegramConfig::with_timestamp(String::new(), "x".to_string());
    assert_eq!(
        check_startable(&empty),
        Err("No bot token configured. Please pair via GUI or --telegram flag.".to_string())
    );
    let ok = TelegramConfig::with_timestamp("t".to_string(), "x".to_string());
    assert_eq!(check_startable(&ok), Ok(()));
}

#[test]
fn validated_bot_name() {
    let me = User {
        id: 1,
        is_bot: true,
        first_name: "Claw".to_string(),
        last_name: None,
        username: "claw_bot".to_string(),
        language_code: None,
    };
    assert_eq!(describe_bot(&me), "Claw (@claw_bot)");
}

#[test]
fn registered_commands() {
    let cmds = bot_commands();
    let names: Vec<&str> = cmds.iter().map(|c| c.command.as_str()).collect();
    assert_eq!(names, vec!["help", "status", "clear", "permissions", "sessions", "models"]);
    assert_eq!(cmds[0].description, "Show available commands");
    assert_eq!(cmds[3].description, "Show permission mode");
    assert_eq!(cmds[5].description, "Show available models");
    assert_eq!(commands_request().commands.unwrap().len(), 6);
}

#[test]
fn text_helpers() {
    assert_eq!(piece_starts("a:bc::d", ':'), vec![0, 2, 5, 6]);
    assert_eq!(piece_starts("", ':'), vec![0]);
    assert_eq!(piece_starts("\u{e9}:x", ':'), vec![0, 2]);
    assert!(same_text("abc", "abc"));
    assert!(!same_text("abc", "abd"));
}

#[test]
fn token_trim_uses_unicode_white_space() {
    let mut client = TelegramClient::new();
    client.set_token("\u{3000}\u{85}1:x\u{2009}\u{a0}\r\n");
    assert_eq!(client.bot_token(), Some("1:x".to_string()));
    client.set_token("a b");
    assert_eq!(client.bot_token(), Some("a b".to_string()));
    assert_eq!(trim("\u{200b}x"), "\u{200b}x");
    assert_eq!(trim(" \t "), "");
    assert_eq!(chars_of("h\u{e9}"), vec!['h', '\u{e9}']);
}
