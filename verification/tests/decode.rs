use tashbot::error::BotError;
use tashbot::message::{decode_badges, decode_sub_months, get_tag_value, Tag, TwitchMessage};
use tashbot::text::{
    chars_of, matches_at, parse_bounded, parse_u16, parse_u32, split_pairs, str_equal,
};

fn tag(key: &str, value: &str) -> Tag {
    Tag(key.to_string(), Some(value.to_string()))
}

fn full_tags() -> Vec<Tag> {
    vec![
        tag("badge-info", "subscriber/14"),
        tag("badges", "subscriber/12,premium/1"),
        tag("color", "#1E90FF"),
        tag("display-name", "Kate"),
        tag("id", "b34ccfc7-4977-403a-8a94-33c6bac34fb8"),
        tag("mod", "0"),
        tag("subscriber", "1"),
        tag("user-id", "1337"),
    ]
}

fn without(name: &str) -> Vec<Tag> {
    full_tags().into_iter().filter(|t| t.0 != name).collect()
}

fn with(extra: Tag) -> Vec<Tag> {
    let mut tags = full_tags();
    tags.push(extra);
    tags
}

fn replaced(name: &str, value: &str) -> Vec<Tag> {
    let mut tags = without(name);
    tags.push(tag(name, value));
    tags
}

#[test]
fn decodes_a_complete_tag_list() {
    let m = TwitchMessage::new("hello there".to_string(), full_tags()).unwrap();
    assert_eq!(m.id, "b34ccfc7-4977-403a-8a94-33c6bac34fb8");
    assert_eq!(m.user_id, "1337");
    assert!(!m.moderator);
    assert!(m.subscriber);
    assert!(!m.vip);
    assert_eq!(m.color, "#1E90FF");
    assert_eq!(m.display_name, Some("Kate".to_string()));
    assert_eq!(m.bits, 0);
    assert_eq!(m.badges, vec![("subscriber".to_string(), 12), ("premium".to_string(), 1)]);
    assert_eq!(m.sub_months, 14);
    assert_eq!(m.text, "hello there");
}

#[test]
fn each_missing_required_tag_is_named() {
    for name in ["id", "user-id", "mod", "subscriber", "color", "badge-info", "badges"] {
        match TwitchMessage::new("x".to_string(), without(name)) {
            Err(BotError::MissingField(n)) => assert_eq!(n, name),
            other => panic!("expected a missing field, got {:?}", other),
        }
    }
}

#[test]
fn first_missing_tag_in_order_is_named() {
    let tags: Vec<Tag> = full_tags().into_iter().filter(|t| t.0 != "color" && t.0 != "user-id").collect();
    assert!(matches!(TwitchMessage::new("x".to_string(), tags), Err(BotError::MissingField("user-id"))));
    assert!(matches!(TwitchMessage::new("x".to_string(), Vec::new()), Err(BotError::MissingField("id"))));
}

#[test]
fn missing_tag_wins_over_bad_number() {
    let mut tags = without("badges");
    tags.push(tag("bits", "many"));
    assert!(matches!(TwitchMessage::new("x".to_string(), tags), Err(BotError::MissingField("badges"))));
}

#[test]
fn vip_is_presence_only() {
    let m = TwitchMessage::new("x".to_string(), with(tag("vip", "1"))).unwrap();
    assert!(m.vip);
    let m = TwitchMessage::new("x".to_string(), with(tag("vip", ""))).unwrap();
    assert!(m.vip);
    let m = TwitchMessage::new("x".to_string(), with(tag("vip", "0"))).unwrap();
    assert!(m.vip);
    let m = TwitchMessage::new("x".to_string(), with(Tag("vip".to_string(), None))).unwrap();
    assert!(m.vip);
    let m = TwitchMessage::new("x".to_string(), full_tags()).unwrap();
    assert!(!m.vip);
}

#[test]
fn role_flags_compare_with_one() {
    let m = TwitchMessage::new("x".to_string(), replaced("mod", "1")).unwrap();
    assert!(m.moderator);
    let m = TwitchMessage::new("x".to_string(), replaced("mod", "true")).unwrap();
    assert!(!m.moderator);
    let m = TwitchMessage::new("x".to_string(), replaced("mod", "11")).unwrap();
    assert!(!m.moderator);
    let m = TwitchMessage::new("x".to_string(), replaced("subscriber", "0")).unwrap();
    assert!(!m.subscriber);
    let m = TwitchMessage::new("x".to_string(), replaced("subscriber", "")).unwrap();
    assert!(!m.subscriber);
}

#[test]
fn bits_default_and_parse() {
    let m = TwitchMessage::new("x".to_string(), with(tag("bits", "250"))).unwrap();
    assert_eq!(m.bits, 250);
    let m = TwitchMessage::new("x".to_string(), with(tag("bits", "4294967295"))).unwrap();
    assert_eq!(m.bits, u32::MAX);
    assert!(matches!(
        TwitchMessage::new("x".to_string(), with(tag("bits", "4294967296"))),
        Err(BotError::InvalidNumber("bits"))
    ));
    assert!(matches!(
        TwitchMessage::new("x".to_string(), with(tag("bits", "lots"))),
        Err(BotError::InvalidNumber("bits"))
    ));
    assert!(matches!(
        TwitchMessage::new("x".to_string(), with(Tag("bits".to_string(), None))),
        Err(BotError::InvalidNumber("bits"))
    ));
}

#[test]
fn display_name_is_optional() {
    let m = TwitchMessage::new("x".to_string(), without("display-name")).unwrap();
    assert_eq!(m.display_name, None);
    let mut tags = without("display-name");
    tags.push(Tag("display-name".to_string(), None));
    let m = TwitchMessage::new("x".to_string(), tags).unwrap();
    assert_eq!(m.display_name, Some(String::new()));
}

#[test]
fn color_may_be_empty() {
    let m = TwitchMessage::new("x".to_string(), replaced("color", "")).unwrap();
    assert_eq!(m.color, "");
}

#[test]
fn badges_keep_order_and_skip_entries_without_slash() {
    let m = TwitchMessage::new("x".to_string(), replaced("badges", "vip/1,broken,bits/1000,,moderator/1")).unwrap();
    assert_eq!(
        m.badges,
        vec![("vip".to_string(), 1), ("bits".to_string(), 1000), ("moderator".to_string(), 1)]
    );
    let m = TwitchMessage::new("x".to_string(), replaced("badges", "")).unwrap();
    assert!(m.badges.is_empty());
}

#[test]
fn bad_badge_value_fails_the_decode() {
    assert!(matches!(
        TwitchMessage::new("x".to_string(), replaced("badges", "vip/1,bits/many")),
        Err(BotError::InvalidNumber("badges"))
    ));
    assert!(matches!(
        TwitchMessage::new("x".to_string(), replaced("badges", "vip/")),
        Err(BotError::InvalidNumber("badges"))
    ));
    assert!(matches!(
        TwitchMessage::new("x".to_string(), replaced("badges", "vip/1/2")),
        Err(BotError::InvalidNumber("badges"))
    ));
}

#[test]
fn sub_months_comes_from_badge_info() {
    let m = TwitchMessage::new("x".to_string(), replaced("badge-info", "founder/3,subscriber/27,subscriber/4")).unwrap();
    assert_eq!(m.sub_months, 27);
    let m = TwitchMessage::new("x".to_string(), replaced("badge-info", "")).unwrap();
    assert_eq!(m.sub_months, 0);
    let m = TwitchMessage::new("x".to_string(), replaced("badge-info", "founder/x,subscriber")).unwrap();
    assert_eq!(m.sub_months, 0);
    let m = TwitchMessage::new("x".to_string(), replaced("badge-info", "subscriber/65535")).unwrap();
    assert_eq!(m.sub_months, 65535);
    assert!(matches!(
        TwitchMessage::new("x".to_string(), replaced("badge-info", "subscriber/65536")),
        Err(BotError::InvalidNumber("badge-info"))
    ));
    assert!(matches!(
        TwitchMessage::new("x".to_string(), replaced("badge-info", "subscriber/soon")),
        Err(BotError::InvalidNumber("badge-info"))
    ));
}

#[test]
fn numbers_are_read_in_a_fixed_order() {
    let mut tags = replaced("badges", "a/b");
    tags.push(tag("bits", "x"));
    assert!(matches!(TwitchMessage::new("x".to_string(), tags), Err(BotError::InvalidNumber("bits"))));
    let mut tags = replaced("badges", "a/b");
    tags.retain(|t| t.0 != "badge-info");
    tags.push(tag("badge-info", "subscriber/x"));
    assert!(matches!(TwitchMessage::new("x".to_string(), tags), Err(BotError::InvalidNumber("badges"))));
}

#[test]
fn first_tag_with_a_key_is_used() {
    let mut tags = full_tags();
    tags.push(tag("id", "second"));
    let m = TwitchMessage::new("x".to_string(), tags).unwrap();
    assert_eq!(m.id, "b34ccfc7-4977-403a-8a94-33c6bac34fb8");
}

#[test]
fn tag_lookup() {
    let tags = vec![tag("a", "1"), Tag("b".to_string(), None), tag("a", "2")];
    assert_eq!(get_tag_value(&tags, "a").unwrap(), "1");
    assert_eq!(get_tag_value(&tags, "b").unwrap(), "");
    assert!(matches!(get_tag_value(&tags, "c"), Err(BotError::MissingField("c"))));
    assert!(matches!(get_tag_value(&tags, ""), Err(BotError::MissingField(""))));
}

#[test]
fn error_names_its_field() {
    assert_eq!(BotError::MissingField("id").field(), Some("id"));
    assert_eq!(BotError::InvalidNumber("bits").field(), Some("bits"));
    assert_eq!(BotError::RunnerUnavailable.field(), None);
    assert_eq!(BotError::RunnerTaskFailed.field(), None);
}

#[test]
fn parses_unsigned_numbers() {
    assert_eq!(parse_u32("0"), Some(0));
    assert_eq!(parse_u32("12"), Some(12));
    assert_eq!(parse_u32("+5"), Some(5));
    assert_eq!(parse_u32("007"), Some(7));
    assert_eq!(parse_u32("00000000000000000000001"), Some(1));
    assert_eq!(parse_u32("4294967295"), Some(4294967295));
    assert_eq!(parse_u32("4294967296"), None);
    assert_eq!(parse_u32("99999999999999999999999999"), None);
    assert_eq!(parse_u32(""), None);
    assert_eq!(parse_u32("+"), None);
    assert_eq!(parse_u32("++1"), None);
    assert_eq!(parse_u32("-1"), None);
    assert_eq!(parse_u32(" 1"), None);
    assert_eq!(parse_u32("1 "), None);
    assert_eq!(parse_u32("1_0"), None);
    assert_eq!(parse_u32("12a"), None);
    assert_eq!(parse_u32("١٢"), None);
    assert_eq!(parse_u16("65535"), Some(65535));
    assert_eq!(parse_u16("65536"), None);
    assert_eq!(parse_u16("+0"), Some(0));
    assert_eq!(parse_bounded("10", 10), Some(10));
    assert_eq!(parse_bounded("11", 10), None);
}

#[test]
fn parsing_agrees_with_the_standard_library() {
    for s in ["", "+", "0", "+0", "-0", "42", "0042", "4294967295", "4294967296", "1e3", "0x10", "１２", "12\n"] {
        assert_eq!(parse_u32(s), s.parse::<u32>().ok(), "{:?}", s);
        assert_eq!(parse_u16(s), s.parse::<u16>().ok(), "{:?}", s);
    }
}

#[test]
fn splits_pairs_at_first_slash() {
    let p = |a: &str, b: &str| (a.to_string(), b.to_string());
    assert_eq!(split_pairs("a/1,b/2"), vec![p("a", "1"), p("b", "2")]);
    assert_eq!(split_pairs("a/1/2"), vec![p("a", "1/2")]);
    assert_eq!(split_pairs("/"), vec![p("", "")]);
    assert_eq!(split_pairs("/,x,/y,z/"), vec![p("", ""), p("", "y"), p("z", "")]);
    assert_eq!(split_pairs(""), Vec::<(String, String)>::new());
    assert_eq!(split_pairs(",,,"), Vec::<(String, String)>::new());
    assert_eq!(split_pairs("naïve/été,日本/語"), vec![p("naïve", "été"), p("日本", "語")]);
}

#[test]
fn badge_helpers() {
    assert_eq!(decode_badges("a/1,b,c/3"), Some(vec![("a".to_string(), 1), ("c".to_string(), 3)]));
    assert_eq!(decode_badges("a/1,c/x"), None);
    assert_eq!(decode_badges(""), Some(Vec::new()));
    assert_eq!(decode_sub_months("subscriber/3"), Some(3));
    assert_eq!(decode_sub_months("x/1"), Some(0));
    assert_eq!(decode_sub_months("subscriber/-3"), None);
}

#[test]
fn character_helpers() {
    assert_eq!(chars_of("añb"), vec!['a', 'ñ', 'b']);
    assert_eq!(chars_of(""), Vec::<char>::new());
    let s = chars_of("a,b,c");
    assert!(matches_at(&s, 2, &chars_of("b,")));
    assert!(!matches_at(&s, 2, &chars_of("b,d")));
    assert!(!matches_at(&s, 4, &chars_of("cc")));
    assert!(matches_at(&s, 5, &chars_of("")));
    assert!(!matches_at(&s, 6, &chars_of("")));
    assert!(!matches_at(&s, usize::MAX, &chars_of("a")));
    assert!(str_equal("abc", "abc"));
    assert!(!str_equal("abc", "abd"));
    assert!(!str_equal("abc", "ab"));
    assert!(str_equal("", ""));
}
