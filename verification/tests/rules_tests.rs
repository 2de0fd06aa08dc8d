use spam_bot_mvp::rules::RuleManager;
use tempfile::NamedTempFile;

fn setup_test_manager() -> (NamedTempFile, RuleManager) {
    let temp_file = NamedTempFile::new().unwrap();
    let manager = RuleManager::new(temp_file.path().to_str().unwrap()).unwrap();
    (temp_file, manager)
}

#[test]
fn test_new_initializes_database() {
    let (_temp_file, manager) = setup_test_manager();
    // Verify tables are created by attempting to insert and query
    manager
        .conn
        .execute(
            "INSERT INTO rules (keyword, score) VALUES (?1, ?2)",
            ("test", "5.0"),
        )
        .unwrap();
    let count: i32 = manager
        .conn
        .query_row("SELECT COUNT(*) FROM rules", (), |row| row.get(0))
        .unwrap();
    assert_eq!(count, 1);
}

#[test]
fn test_add_rule_succeeds() {
    let (_temp_file, mut manager) = setup_test_manager();
    let result = manager.add_rule("spam".to_string(), 10_000);
    assert!(result.is_ok());
    let rules = manager.snapshot();
    assert_eq!(rules.len(), 1);
    assert_eq!(rules[0].keyword, "spam");
    assert_eq!(rules[0].score, 10_000);
}

#[test]
fn test_increment_sender_score() {
    let (_temp_file, mut manager) = setup_test_manager();
    let result = manager.increment_sender_score("user1", true);
    assert!(result.is_ok());
    let score = manager.get_sender_score("user1");
    assert_eq!(score, 1);
    let result = manager.increment_sender_score("user1", false);
    assert!(result.is_ok());
    let score = manager.get_sender_score("user1");
    assert_eq!(score, 1); // No decrement
}

#[test]
fn test_get_sender_score_returns_zero_for_new_user() {
    let (_temp_file, manager) = setup_test_manager();
    let score = manager.get_sender_score("nonexistent");
    assert_eq!(score, 0);
}

#[test]
fn test_add_rule_snapshot_exact_entry() {
    let (_temp_file, mut manager) = setup_test_manager();
    manager.add_rule("spam".to_string(), 10_000).unwrap();
    let rules = manager.snapshot();
    assert_eq!(rules.len(), 1);
    assert_eq!(rules[0].keyword, "spam");
    assert_eq!(rules[0].score, 10_000);
}

#[test]
fn test_add_rule_increases_store_count_by_one() {
    let (_temp_file, mut manager) = setup_test_manager();
    let before: i64 = manager
        .conn
        .query_row("SELECT COUNT(*) FROM rules", (), |row| row.get(0))
        .unwrap();
    manager.add_rule("spam".to_string(), 10_000).unwrap();
    let after: i64 = manager
        .conn
        .query_row("SELECT COUNT(*) FROM rules", (), |row| row.get(0))
        .unwrap();
    assert_eq!(after, before + 1);
}

#[test]
fn test_added_rules_survive_reopen() {
    let temp_file = NamedTempFile::new().unwrap();
    let path = temp_file.path().to_str().unwrap().to_string();
    {
        let mut manager = RuleManager::new(&path).unwrap();
        manager.add_rule("spam".to_string(), 10_000).unwrap();
        manager.add_rule("http".to_string(), 2_500).unwrap();
    }
    let manager = RuleManager::new(&path).unwrap();
    let rules = manager.snapshot();
    assert_eq!(rules.len(), 2);
    assert_eq!(rules[0].keyword, "spam");
    assert_eq!(rules[0].score, 10_000);
    assert_eq!(rules[1].keyword, "http");
    assert_eq!(rules[1].score, 2_500);
}

#[test]
fn test_duplicate_rules_are_kept() {
    let (_temp_file, mut manager) = setup_test_manager();
    manager.add_rule("spam".to_string(), 10_000).unwrap();
    manager.add_rule("spam".to_string(), 10_000).unwrap();
    let rules = manager.snapshot();
    assert_eq!(rules.len(), 2);
}

#[test]
fn test_record_outcome_counts_both_fields() {
    let (_temp_file, mut manager) = setup_test_manager();
    manager.increment_sender_score("id", true).unwrap();
    manager.increment_sender_score("id", false).unwrap();
    let flags = manager.get_sender_score("id");
    assert_eq!(flags, 1);
    let messages: i64 = manager
        .conn
        .query_row(
            "SELECT message_count FROM senders WHERE user_id = ?1",
            ("id",),
            |row| row.get(0),
        )
        .unwrap();
    assert_eq!(messages, 2);
}

#[test]
fn test_record_outcome_isolated_between_senders() {
    let (_temp_file, mut manager) = setup_test_manager();
    manager.increment_sender_score("user1", true).unwrap();
    manager.increment_sender_score("user2", false).unwrap();
    manager.increment_sender_score("user1", true).unwrap();
    assert_eq!(manager.get_sender_score("user1"), 2);
    assert_eq!(manager.get_sender_score("user2"), 0);
}

#[test]
fn test_get_reputation_twice_same_value() {
    let (_temp_file, mut manager) = setup_test_manager();
    manager.increment_sender_score("user1", true).unwrap();
    let first = manager.get_sender_score("user1");
    let second = manager.get_sender_score("user1");
    assert_eq!(first, second);
    assert_eq!(first, 1);
}
