use coral::protocol::packets::play::chat::builder::{ChatBuilder, ChatColor};
use coral::text::{push_decimal, replace_all_of, str_eq};
use coral::command::{CommandContext, CommandResult};

#[test]
fn chat_builder_json() {
    assert_eq!(ChatBuilder::plain_json("hi"), "{\"text\":\"hi\"}");
    assert_eq!(
        ChatBuilder::colored_json("a\"b\\c\nd", ChatColor::Red),
        "{\"text\":\"a\\\"b\\\\c\\nd\",\"color\":\"red\"}"
    );
    let json = ChatBuilder::new("x".to_string())
        .color(ChatColor::Gold)
        .bold()
        .italic()
        .underline()
        .strikethrough()
        .build();
    assert_eq!(
        json,
        "{\"text\":\"x\",\"color\":\"gold\",\"bold\":true,\"italic\":true,\"underlined\":true,\"strikethrough\":true}"
    );
    let p = ChatBuilder::new("y".to_string()).into_packet();
    assert_eq!(p.json, "{\"text\":\"y\"}");
    assert_eq!(ChatColor::LightPurple.name(), "light_purple");
    assert_eq!(ChatColor::Reset.name(), "reset");
}

#[test]
fn chat_message_format() {
    assert_eq!(
        ChatBuilder::chat_message("<{username}> {message}", "Steve", "hello"),
        "{\"text\":\"<Steve> hello\"}"
    );
    assert_eq!(
        ChatBuilder::chat_message("{username}: {message}", "{message}", "m"),
        "{\"text\":\"m: m\"}"
    );
}

#[test]
fn replace_and_compare() {
    assert_eq!(replace_all_of("aXbXc", "X", "--"), "a--b--c");
    assert_eq!(replace_all_of("aaa", "aa", "b"), "ba");
    assert_eq!(replace_all_of("abc", "zz", "y"), "abc");
    assert!(str_eq("abc", "abc"));
    assert!(!str_eq("abc", "abd"));
    let mut s = String::new();
    push_decimal(&mut s, -1234);
    push_decimal(&mut s, 0);
    push_decimal(&mut s, i64::MIN);
    assert_eq!(s, format!("-12340{}", i64::MIN));
}

#[test]
fn command_context() {
    let ctx = CommandContext {
        sender: "Steve".to_string(),
        args: vec!["say".to_string(), "hello".to_string(), "world".to_string()],
    };
    assert_eq!(ctx.arg(0), Some("say"));
    assert_eq!(ctx.arg(3), None);
    assert_eq!(ctx.args_from(1), "hello world");
    assert_eq!(ctx.args_from(3), "");
    assert!(matches!(CommandResult::Success("x".to_string()), CommandResult::Success(_)));
    assert!(matches!(CommandResult::Empty, CommandResult::Empty));
}
