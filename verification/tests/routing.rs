use tashbot::command::{remove_command, upsert_command, Command, CommandTable};
use tashbot::dispatch::{find_match, message_format, route, stored_channel_name};
use tashbot::message::{Tag, TwitchMessage};
use tashbot::text::{replace_all, starts_with};

fn command(id: i32, prefix: &str, reply: &str) -> Command {
    Command {
        id,
        name: format!("command{}", id),
        prefix: prefix.to_string(),
        description: None,
        reply: reply.to_string(),
        user_cooldown: None,
        global_cooldown: None,
        permissionbits: None,
        enabled: None,
        channel: 1,
    }
}

fn message(text: &str, display_name: Option<&str>) -> TwitchMessage {
    let mut tags = vec![
        Tag("badge-info".to_string(), Some(String::new())),
        Tag("badges".to_string(), Some(String::new())),
        Tag("color".to_string(), Some(String::new())),
        Tag("id".to_string(), Some("1".to_string())),
        Tag("mod".to_string(), Some("0".to_string())),
        Tag("subscriber".to_string(), Some("0".to_string())),
        Tag("user-id".to_string(), Some("2".to_string())),
    ];
    if let Some(name) = display_name {
        tags.push(Tag("display-name".to_string(), Some(name.to_string())));
    }
    TwitchMessage::new(text.to_string(), tags).unwrap()
}

fn summary(cmds: &[Command]) -> Vec<(i32, String, String)> {
    cmds.iter().map(|c| (c.id, c.prefix.clone(), c.reply.clone())).collect()
}

fn row(id: i32, prefix: &str, reply: &str) -> (i32, String, String) {
    (id, prefix.to_string(), reply.to_string())
}

#[test]
fn new_table_is_empty() {
    let t = CommandTable::new();
    assert!(t.lookup("channel1").is_empty());
    assert!(t.lookup("").is_empty());
}

#[test]
fn upsert_is_idempotent() {
    let mut t = CommandTable::new();
    t.upsert("channel1".to_string(), command(1, "!a", "one"));
    t.upsert("channel1".to_string(), command(2, "!b", "two"));
    let before = summary(t.lookup("channel1"));
    t.upsert("channel1".to_string(), command(2, "!b", "two"));
    assert_eq!(summary(t.lookup("channel1")), before);
    assert_eq!(before, vec![row(1, "!a", "one"), row(2, "!b", "two")]);
}

#[test]
fn upsert_with_new_id_appends() {
    let mut t = CommandTable::new();
    t.upsert("channel1".to_string(), command(5, "!a", "one"));
    t.upsert("channel1".to_string(), command(3, "!a", "two"));
    t.upsert("channel1".to_string(), command(4, "!c", "three"));
    assert_eq!(
        summary(t.lookup("channel1")),
        vec![row(5, "!a", "one"), row(3, "!a", "two"), row(4, "!c", "three")]
    );
}

#[test]
fn upsert_with_known_id_replaces_in_place() {
    let mut t = CommandTable::new();
    t.upsert("channel1".to_string(), command(1, "!a", "one"));
    t.upsert("channel1".to_string(), command(2, "!b", "two"));
    t.upsert("channel1".to_string(), command(3, "!c", "three"));
    t.upsert("channel1".to_string(), command(2, "!z", "changed"));
    assert_eq!(
        summary(t.lookup("channel1")),
        vec![row(1, "!a", "one"), row(2, "!z", "changed"), row(3, "!c", "three")]
    );
}

#[test]
fn channels_are_kept_apart() {
    let mut t = CommandTable::new();
    t.upsert("one".to_string(), command(1, "!a", "first"));
    t.upsert("two".to_string(), command(1, "!b", "second"));
    t.upsert("one".to_string(), command(2, "!c", "third"));
    assert_eq!(summary(t.lookup("one")), vec![row(1, "!a", "first"), row(2, "!c", "third")]);
    assert_eq!(summary(t.lookup("two")), vec![row(1, "!b", "second")]);
    assert!(t.lookup("three").is_empty());
    t.remove("one", 1);
    assert_eq!(summary(t.lookup("one")), vec![row(2, "!c", "third")]);
    assert_eq!(summary(t.lookup("two")), vec![row(1, "!b", "second")]);
}

#[test]
fn remove_of_unknown_id_changes_nothing() {
    let mut t = CommandTable::new();
    t.upsert("channel1".to_string(), command(1, "!a", "one"));
    t.remove("channel1", 9);
    t.remove("elsewhere", 1);
    assert_eq!(summary(t.lookup("channel1")), vec![row(1, "!a", "one")]);
    assert!(t.lookup("elsewhere").is_empty());
}

#[test]
fn remove_takes_the_command_out() {
    let mut t = CommandTable::new();
    t.upsert("channel1".to_string(), command(1, "!a", "one"));
    t.upsert("channel1".to_string(), command(2, "!b", "two"));
    t.upsert("channel1".to_string(), command(3, "!c", "three"));
    t.remove("channel1", 2);
    assert_eq!(summary(t.lookup("channel1")), vec![row(1, "!a", "one"), row(3, "!c", "three")]);
    t.remove("channel1", 1);
    t.remove("channel1", 3);
    assert!(t.lookup("channel1").is_empty());
}

#[test]
fn list_operations() {
    let mut v = vec![command(1, "a", "x"), command(2, "b", "y"), command(1, "c", "z")];
    upsert_command(&mut v, command(1, "n", "new"));
    assert_eq!(summary(&v), vec![row(1, "n", "new"), row(2, "b", "y"), row(1, "c", "z")]);
    remove_command(&mut v, 1);
    assert_eq!(summary(&v), vec![row(2, "b", "y"), row(1, "c", "z")]);
    remove_command(&mut v, 7);
    assert_eq!(summary(&v), vec![row(2, "b", "y"), row(1, "c", "z")]);
}

#[test]
fn command_clone_keeps_every_field() {
    let mut c = command(7, "!p", "r");
    c.description = Some("d".to_string());
    c.user_cooldown = Some(3);
    c.global_cooldown = Some(4);
    c.permissionbits = Some(5);
    c.enabled = Some(true);
    let d = c.clone();
    assert_eq!(d.id, 7);
    assert_eq!(d.name, "command7");
    assert_eq!(d.prefix, "!p");
    assert_eq!(d.description, Some("d".to_string()));
    assert_eq!(d.reply, "r");
    assert_eq!(d.user_cooldown, Some(3));
    assert_eq!(d.global_cooldown, Some(4));
    assert_eq!(d.permissionbits, Some(5));
    assert_eq!(d.enabled, Some(true));
    assert_eq!(d.channel, 1);
}

#[test]
fn first_prefix_in_table_order_wins() {
    let mut t = CommandTable::new();
    t.upsert("chan".to_string(), command(1, "!a", "short"));
    t.upsert("chan".to_string(), command(2, "!ab", "long"));
    let m = message("!abc", Some("Kate"));
    assert_eq!(route("#chan", &m, &t), Some("short".to_string()));

    let mut t = CommandTable::new();
    t.upsert("chan".to_string(), command(2, "!ab", "long"));
    t.upsert("chan".to_string(), command(1, "!a", "short"));
    assert_eq!(route("#chan", &m, &t), Some("long".to_string()));
    assert_eq!(route("#chan", &message("!a", None), &t), Some("short".to_string()));
    assert_eq!(route("#chan", &message("a!a", None), &t), None);
    assert_eq!(route("#chan", &message("", None), &t), None);
}

#[test]
fn template_substitution() {
    let m = message("x", Some("Kate"));
    assert_eq!(message_format("{sender.name} is now hiding", &m), "Kate is now hiding");
    let m = message("x", None);
    assert_eq!(message_format("{sender.name} is now hiding", &m), " is now hiding");
    let m = message("x", Some("Ann"));
    assert_eq!(message_format("no tokens here", &m), "no tokens here");
    assert_eq!(message_format("{sender.name}{sender.name}!", &m), "AnnAnn!");
    assert_eq!(message_format("{sender.name", &m), "{sender.name");
    assert_eq!(message_format("{{sender.name}}", &m), "{Ann}");
    assert_eq!(message_format("{sender.id} {Sender.Name}", &m), "{sender.id} {Sender.Name}");
    assert_eq!(message_format("", &m), "");
    let m = message("x", Some("{sender.name}"));
    assert_eq!(message_format("hi {sender.name}", &m), "hi {sender.name}");
}

#[test]
fn replace_all_agrees_with_the_standard_library() {
    for (text, token, with) in [
        ("aaaa", "aa", "b"),
        ("aaa", "aa", "b"),
        ("abcabc", "bc", ""),
        ("abc", "abcd", "x"),
        ("", "a", "x"),
        ("héllo wörld", "ö", "oe"),
        ("ababab", "aba", "X"),
        ("xyz", "z", "zz"),
    ] {
        assert_eq!(replace_all(text, token, with), text.replace(token, with));
    }
    assert_eq!(replace_all("abc", "", "x"), "abc");
}

#[test]
fn end_to_end_lurk() {
    let mut t = CommandTable::new();
    t.upsert("channel1".to_string(), command(1, "!lurk", "{sender.name} lurks"));
    let m = message("!lurking", Some("Ann"));
    assert_eq!(route("#channel1", &m, &t), Some("Ann lurks".to_string()));
}

#[test]
fn channel_is_looked_up_without_its_first_character() {
    let mut t = CommandTable::new();
    t.upsert("channel1".to_string(), command(1, "!x", "hit"));
    let m = message("!x", None);
    assert_eq!(route("#channel1", &m, &t), Some("hit".to_string()));
    assert_eq!(route("channel1", &m, &t), None);
    assert_eq!(route("##channel1", &m, &t), None);
    assert_eq!(route("ächannel1", &m, &t), Some("hit".to_string()));
    assert_eq!(route("", &m, &t), None);
    assert_eq!(stored_channel_name("#abc"), "abc");
    assert_eq!(stored_channel_name("#"), "");
    assert_eq!(stored_channel_name(""), "");
}

#[test]
fn empty_prefix_matches_everything() {
    let cmds = vec![command(1, "!never", "a"), command(2, "", "b"), command(3, "!x", "c")];
    assert_eq!(find_match(&cmds, "!x").map(|c| c.id), Some(2));
    assert_eq!(find_match(&cmds, "").map(|c| c.id), Some(2));
    assert_eq!(find_match(&cmds[..1], "!x").map(|c| c.id), None);
    assert!(find_match(&[], "!x").is_none());
}

#[test]
fn prefix_test() {
    assert!(starts_with("!lurking", "!lurk"));
    assert!(starts_with("!lurk", "!lurk"));
    assert!(!starts_with("!lur", "!lurk"));
    assert!(!starts_with(" !lurk", "!lurk"));
    assert!(starts_with("", ""));
    assert!(!starts_with("", "a"));
}
