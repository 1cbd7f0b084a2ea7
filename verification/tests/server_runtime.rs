use coral::command::{version_command, version_reply, Command, CommandContext, CommandDispatcher, CommandResult};
use coral::server::banlist::BanList;
use coral::server::join::join_refusal;
use coral::server::throttle::{ConnectionThrottle, IpAddress};
use coral::server::whitelist::WhitelistFile;

#[test]
fn throttle_refuses_quick_reconnects() {
    let mut t = ConnectionThrottle::new(4000);
    let ip = IpAddress::V4(0x0a00_0001);
    assert!(t.check(ip, 1000));
    assert!(!t.check(ip, 2000));
    assert!(!t.check(ip, 4999));
    assert!(t.check(ip, 5000));
    assert!(t.check(IpAddress::V4(0x0a00_0002), 5001));
}

#[test]
fn throttle_never_refuses_local_host() {
    let mut t = ConnectionThrottle::new(4000);
    assert!(t.check(IpAddress::V4(0x7f00_0001), 1));
    assert!(t.check(IpAddress::V4(0x7f00_0001), 2));
    assert!(t.check(IpAddress::V6(1), 3));
    assert!(t.check(IpAddress::V6(1), 4));
    assert!(IpAddress::V4(0x7f12_3456).is_loopback());
    assert!(!IpAddress::V6(2).is_loopback());
}

#[test]
fn throttle_forgets_old_entries_past_a_thousand() {
    let mut t = ConnectionThrottle::new(10);
    for i in 0..1000u32 {
        assert!(t.check(IpAddress::V4(0x0b00_0000 + i), 0));
    }
    assert!(t.check(IpAddress::V4(0x0c00_0000), 70_000));
    // The first address was forgotten and may come again at once.
    assert!(t.check(IpAddress::V4(0x0b00_0000), 70_001));
    assert!(!t.check(IpAddress::V4(0x0b00_0000), 70_002));
}

#[test]
fn banned_player_may_not_join() {
    let mut bans = BanList { players: Vec::new(), ips: Vec::new() };
    let wl = WhitelistFile { entries: Vec::new() };
    let uuid: u128 = 0x0123_4567_89ab_cdef_0123_4567_89ab_cdef;
    assert_eq!(join_refusal(&bans, &wl, false, uuid), None);
    bans.ban_player(uuid, "Steve", "griefing", "Server");
    assert_eq!(join_refusal(&bans, &wl, false, uuid).unwrap(), "§cYou are banned!\n§7Reason: §fgriefing");
}

#[test]
fn whitelist_decides_when_enabled() {
    let bans = BanList { players: Vec::new(), ips: Vec::new() };
    let mut wl = WhitelistFile { entries: Vec::new() };
    let uuid: u128 = 42;
    assert_eq!(join_refusal(&bans, &wl, true, uuid).unwrap(), "You're not whitelisted on this server!");
    wl.add(uuid, "Alex".to_string());
    assert_eq!(join_refusal(&bans, &wl, true, uuid), None);
    assert_eq!(join_refusal(&bans, &wl, false, 43), None);
}

fn ctx(words: &[&str]) -> CommandContext {
    CommandContext { sender: "tester".to_string(), args: words.iter().map(|w| w.to_string()).collect() }
}

#[test]
fn dispatcher_finds_commands_by_lowercase_name() {
    let mut d: CommandDispatcher<u32> = CommandDispatcher::new();
    d.register(version_command(1));
    d.register(Command {
        name: "help".to_string(),
        description: "List commands".to_string(),
        usage: "/help".to_string(),
        handler: 2,
    });
    assert_eq!(*d.dispatch(&ctx(&["VERSION"])).ok().unwrap(), 1);
    assert_eq!(*d.dispatch(&ctx(&["help", "x"])).ok().unwrap(), 2);
    match d.dispatch(&ctx(&["nope"])) {
        Err(CommandResult::Error(m)) => assert_eq!(m, "Unknown command!"),
        _ => panic!("expected an error"),
    }
    d.register(Command { name: "help".to_string(), description: String::new(), usage: String::new(), handler: 3 });
    assert_eq!(*d.dispatch(&ctx(&["help"])).ok().unwrap(), 3);
}

#[test]
fn dispatcher_completes_prefixes() {
    let mut d: CommandDispatcher<()> = CommandDispatcher::new();
    d.register(version_command(()));
    d.register(Command { name: "vanish".to_string(), description: String::new(), usage: String::new(), handler: () });
    d.register(Command { name: "help".to_string(), description: String::new(), usage: String::new(), handler: () });
    assert_eq!(d.completions("v"), vec!["/version".to_string(), "/vanish".to_string()]);
    assert_eq!(d.completions("ve"), vec!["/version".to_string()]);
    assert_eq!(d.completions("").len(), 3);
    assert!(d.completions("x").is_empty());
}

#[test]
fn version_command_text() {
    let c = version_command(());
    assert_eq!(c.name, "version");
    assert_eq!(c.description, "Show Coral version");
    assert_eq!(c.usage, "/verison");
    match version_reply() {
        CommandResult::Success(m) => assert_eq!(m, "§fThis server is running §d§lCoral§r for Minecraft 1.8.9"),
        _ => panic!("expected success"),
    }
}
