use antarcticom_core::{parse_mentions, render_mentions, sanitize_content, validate_message, MentionType};

#[test]
fn test_validate_empty_message() {
    assert!(validate_message("").is_err());
}

#[test]
fn test_validate_normal_message() {
    assert!(validate_message("Hello, world!").is_ok());
}

#[test]
fn test_validate_too_long() {
    let long = "a".repeat(4001);
    assert!(validate_message(&long).is_err());
}

#[test]
fn test_validate_at_limit() {
    let exactly = "a".repeat(4000);
    assert!(validate_message(&exactly).is_ok());
}

#[test]
fn test_sanitize_strips_control() {
    let input = "Hello\x00World\x01!";
    assert_eq!(sanitize_content(input), "HelloWorld!");
}

#[test]
fn test_sanitize_preserves_newlines() {
    let input = "Hello\nWorld";
    assert_eq!(sanitize_content(input), "Hello\nWorld");
}

#[test]
fn test_sanitize_preserves_tabs() {
    assert_eq!(sanitize_content("a\tb"), "a\tb");
}

#[test]
fn test_sanitize_trims_whitespace() {
    assert_eq!(sanitize_content("  hi there \n"), "hi there");
}

#[test]
fn test_sanitize_idempotent_concrete() {
    let once = sanitize_content(" a\x02b\tc \x7f");
    let twice = sanitize_content(&once);
    assert_eq!(once, twice);
    assert_eq!(once, "a\u{2}b\tc".replace('\u{2}', ""));
}

#[test]
fn test_parse_user_mention() {
    let id = uuid::Uuid::from_u128(0xabcdef0123456789abcdef0123456789);
    let content = format!("hello <@{}> there", id);
    let mentions = parse_mentions(&content);
    assert_eq!(mentions, vec![MentionType::User(id.as_u128())]);
}

#[test]
fn test_parse_role_and_channel_mentions_in_order() {
    let a = uuid::Uuid::from_u128(1);
    let b = uuid::Uuid::from_u128(2);
    let c = uuid::Uuid::from_u128(3);
    let content = format!("x <@&{}> y <#{}> z <@{}>", a, b, c);
    let mentions = parse_mentions(&content);
    assert_eq!(
        mentions,
        vec![
            MentionType::Role(a.as_u128()),
            MentionType::Channel(b.as_u128()),
            MentionType::User(c.as_u128()),
        ]
    );
}

#[test]
fn test_parse_no_mentions() {
    assert_eq!(parse_mentions("no mentions here"), vec![]);
    assert_eq!(parse_mentions("<@not-a-uuid>"), vec![]);
    assert_eq!(parse_mentions("< @ angle noise > <"), vec![]);
}

#[test]
fn test_mention_round_trip() {
    let items = vec![
        MentionType::User(42),
        MentionType::Role(7),
        MentionType::Channel(0xffee),
        MentionType::User(42),
    ];
    let rendered = render_mentions(&items);
    let parsed = parse_mentions(&rendered);
    assert_eq!(parsed, items);
}

#[test]
fn test_mention_round_trip_empty() {
    let items: Vec<MentionType> = vec![];
    let rendered = render_mentions(&items);
    assert_eq!(rendered, "");
    assert_eq!(parse_mentions(&rendered), items);
}
