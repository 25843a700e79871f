use nuclaw::telegram::chunk_text_pure;
use nuclaw::telegram::check_dm_policy_pure;
use nuclaw::telegram::extract_chat_id_pure;
use nuclaw::telegram::is_allowed_group_pure;
use nuclaw::telegram::is_duplicate_message_pure;
use nuclaw::telegram::parse_telegram_message_pure;
use nuclaw::telegram::truncate;
use nuclaw::telegram::DMPolicy;
use nuclaw::telegram::GroupPolicy;
use nuclaw::telegram::TelegramChat;
use nuclaw::telegram::TelegramMessage;
use nuclaw::telegram::TelegramUser;
use nuclaw::types::NewMessage;

#[test]
fn test_dm_policy_from_str() {
    assert_eq!(DMPolicy::from_str("pairing"), DMPolicy::Pairing);
    assert_eq!(DMPolicy::from_str("allowlist"), DMPolicy::Allowlist);
    assert_eq!(DMPolicy::from_str("open"), DMPolicy::Open);
    assert_eq!(DMPolicy::from_str("disabled"), DMPolicy::Disabled);
    assert_eq!(DMPolicy::from_str("unknown"), DMPolicy::Pairing);
}

#[test]
fn test_dm_policy_from_str_upper_case() {
    assert_eq!(DMPolicy::from_str("OPEN"), DMPolicy::Open);
}

#[test]
fn test_group_policy_from_str() {
    assert_eq!(GroupPolicy::from_str("open"), GroupPolicy::Open);
    assert_eq!(GroupPolicy::from_str("allowlist"), GroupPolicy::Allowlist);
    assert_eq!(GroupPolicy::from_str("disabled"), GroupPolicy::Disabled);
    assert_eq!(GroupPolicy::from_str("unknown"), GroupPolicy::Allowlist);
}

#[test]
fn test_check_dm_policy() {
    assert!(check_dm_policy_pure(DMPolicy::Pairing));
    assert!(check_dm_policy_pure(DMPolicy::Allowlist));
    assert!(check_dm_policy_pure(DMPolicy::Open));
    assert!(!check_dm_policy_pure(DMPolicy::Disabled));
}

#[test]
fn test_chunk_text_pure_short() {
    let chunks = chunk_text_pure("short text", 4000);
    assert_eq!(chunks.len(), 1);
    assert_eq!(chunks[0], "short text");
}

#[test]
fn test_chunk_text_pure_exact_limit() {
    let text = "a".repeat(4000);
    let chunks = chunk_text_pure(&text, 4000);
    assert_eq!(chunks.len(), 1);
    assert_eq!(chunks[0].len(), 4000);
}

#[test]
fn test_chunk_text_pure_over_limit() {
    let text = "a".repeat(4001);
    let chunks = chunk_text_pure(&text, 4000);
    assert_eq!(chunks.len(), 1);
    assert_eq!(chunks[0], text);
}

#[test]
fn test_chunk_text_pure_empty() {
    let chunks = chunk_text_pure("", 4000);
    assert_eq!(chunks.len(), 1);
    assert_eq!(chunks[0], "");
}

#[test]
fn test_chunk_text_pure_paragraphs() {
    let long_text = "This is paragraph one that is longer than fifty characters.\n\nThis is paragraph two that is also quite long and should create multiple chunks.\n\nThis is the third paragraph to ensure we have enough content.";
    let chunks = chunk_text_pure(long_text, 50);
    assert!(chunks.len() > 1, "Expected multiple chunks but got {:?}", chunks);
}

#[test]
fn test_chunk_text_pure_packs_short_paragraphs() {
    let text = "aaaa\n\nbbbb\n\ncccccccccccccccccccc";
    let chunks = chunk_text_pure(text, 12);
    assert_eq!(chunks, vec!["aaaa\n\nbbbb", "cccccccccccccccccccc"]);
}

#[test]
fn test_extract_chat_id_pure_valid() {
    assert_eq!(
        extract_chat_id_pure("telegram:group:123456"),
        Some("123456".to_string())
    );
    assert_eq!(
        extract_chat_id_pure("telegram:group:-100123"),
        Some("-100123".to_string())
    );
}

#[test]
fn test_extract_chat_id_pure_invalid() {
    assert_eq!(extract_chat_id_pure("invalid:jid"), None);
    assert_eq!(extract_chat_id_pure("whatsapp:group:123"), None);
    assert_eq!(extract_chat_id_pure(""), None);
}

#[test]
fn test_is_duplicate_message_pure() {
    let msg = NewMessage {
        id: "1".to_string(),
        chat_jid: "telegram:group:123".to_string(),
        sender: "user1".to_string(),
        sender_name: "User".to_string(),
        content: "hello".to_string(),
        timestamp: "2025-01-01T00:00:00Z".to_string(),
    };

    let agent_ts = vec![(
        "telegram:group:123".to_string(),
        "2025-01-01T00:00:00Z".to_string(),
    )];

    assert!(is_duplicate_message_pure(&msg, "2025-01-01T00:00:00Z", &Vec::new()));
    assert!(is_duplicate_message_pure(&msg, "old", &agent_ts));
    assert!(!is_duplicate_message_pure(&msg, "old", &Vec::new()));
}

#[test]
fn test_is_allowed_group_pure() {
    let allowed = vec!["123".to_string(), "-456".to_string()];

    assert!(is_allowed_group_pure("telegram:group:123", GroupPolicy::Open, &[]));
    assert!(!is_allowed_group_pure("telegram:group:123", GroupPolicy::Disabled, &[]));
    assert!(is_allowed_group_pure("telegram:group:123", GroupPolicy::Allowlist, &allowed));
    assert!(is_allowed_group_pure("telegram:group:456", GroupPolicy::Allowlist, &allowed));
    assert!(!is_allowed_group_pure("telegram:group:789", GroupPolicy::Allowlist, &allowed));
}

#[test]
fn test_truncate_telegram() {
    assert_eq!(truncate("hello", 10), "hello");
    assert_eq!(truncate("hello world", 8), "hello...");
    assert_eq!(truncate("test", 3), "...");
    assert_eq!(truncate("", 5), "");
}

#[test]
fn test_parse_telegram_message_pure() {
    let msg = TelegramMessage {
        message_id: 456,
        from: Some(TelegramUser {
            id: 789,
            is_bot: false,
            first_name: "Test".to_string(),
            last_name: None,
            username: None,
        }),
        chat: TelegramChat {
            id: -100123,
            chat_type: "supergroup".to_string(),
            title: Some("Test Group".to_string()),
        },
        date: 1234567890,
        text: Some("@Andy hello".to_string()),
    };
    let parsed = parse_telegram_message_pure(&msg);
    assert_eq!(parsed.id, "456");
    assert_eq!(parsed.chat_jid, "telegram:group:-100123");
    assert_eq!(parsed.sender, "789");
    assert_eq!(parsed.sender_name, "Test");
    assert_eq!(parsed.content, "@Andy hello");
    assert_eq!(parsed.timestamp, "1234567890");
}
