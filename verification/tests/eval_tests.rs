use spam_bot_mvp::eval::score_of_output;
use spam_bot_mvp::eval::ScriptError;
use spam_bot_mvp::rules::RuleManager;
use spam_bot_mvp::score::classify_score;
use spam_bot_mvp::score::parse_score;
use tempfile::NamedTempFile;

fn setup_test_manager() -> (NamedTempFile, RuleManager) {
    let temp_file = NamedTempFile::new().unwrap();
    let manager = RuleManager::new(temp_file.path().to_str().unwrap()).unwrap();
    (temp_file, manager)
}

const DETECT_SPAM_SCRIPT: &str = r#"
    function check_spam(message)
        if string.lower(message):find("spam") then
            return 10
        end
        return 0
    end
"#;

#[test]
fn test_check_custom_rules() {
    let (_temp_file, manager) = setup_test_manager();
    let score = manager.check_custom_rules(Some(DETECT_SPAM_SCRIPT), "This is spam");
    assert_eq!(score, 10_000);
    let score = manager.check_custom_rules(Some(DETECT_SPAM_SCRIPT), "hello");
    assert_eq!(score, 0);
}

#[test]
fn test_evaluate_uppercase_spam_scenario() {
    let (_temp_file, manager) = setup_test_manager();
    let (score, is_spam) = manager.evaluate(Some(DETECT_SPAM_SCRIPT), "This is SPAM");
    assert_eq!(score, 10_000);
    assert!(is_spam);
    let (score, is_spam) = manager.evaluate(Some(DETECT_SPAM_SCRIPT), "hello");
    assert_eq!(score, 0);
    assert!(!is_spam);
}

#[test]
fn test_evaluate_threshold_is_inclusive() {
    let (_temp_file, manager) = setup_test_manager();
    let exactly_five = "function check_spam(message) return 5.0 end";
    let (score, is_spam) = manager.evaluate(Some(exactly_five), "anything");
    assert_eq!(score, 5_000);
    assert!(is_spam);
    let just_below = "function check_spam(message) return 4.999 end";
    let (score, is_spam) = manager.evaluate(Some(just_below), "anything");
    assert_eq!(score, 4_999);
    assert!(!is_spam);
}

#[test]
fn test_evaluate_missing_script() {
    let (_temp_file, manager) = setup_test_manager();
    let (score, is_spam) = manager.evaluate(None, "anything");
    assert_eq!(score, 0);
    assert!(!is_spam);
}

#[test]
fn test_evaluate_malformed_script() {
    let (_temp_file, manager) = setup_test_manager();
    let (score, is_spam) = manager.evaluate(Some("this is not a script %%%"), "anything");
    assert_eq!(score, 0);
    assert!(!is_spam);
}

#[test]
fn test_evaluate_script_without_entry_point() {
    let (_temp_file, manager) = setup_test_manager();
    let (score, is_spam) = manager.evaluate(Some("x = 1"), "anything");
    assert_eq!(score, 0);
    assert!(!is_spam);
}

#[test]
fn test_evaluate_non_numeric_result() {
    let (_temp_file, manager) = setup_test_manager();
    let returns_table = "function check_spam(message) return {} end";
    let (score, is_spam) = manager.evaluate(Some(returns_table), "anything");
    assert_eq!(score, 0);
    assert!(!is_spam);
    let returns_nil = "function check_spam(message) return nil end";
    let (score, is_spam) = manager.evaluate(Some(returns_nil), "anything");
    assert_eq!(score, 0);
    assert!(!is_spam);
}

#[test]
fn test_evaluate_reads_bound_message() {
    let (_temp_file, manager) = setup_test_manager();
    let length_script = "function check_spam(message) return #message end";
    let (score, _) = manager.evaluate(Some(length_script), "abcd");
    assert_eq!(score, 4_000);
}

#[test]
fn test_score_of_output_cases() {
    assert_eq!(score_of_output(Ok("10".to_string())), 10_000);
    assert_eq!(score_of_output(Ok("2.5".to_string())), 2_500);
    assert_eq!(score_of_output(Ok("not a number".to_string())), 0);
    let err = ScriptError {
        message: "boom".to_string(),
    };
    assert_eq!(score_of_output(Err(err)), 0);
}

#[test]
fn test_parse_score_accepts_decimals() {
    assert_eq!(parse_score("10"), Some(10_000));
    assert_eq!(parse_score("10.5"), Some(10_500));
    assert_eq!(parse_score("0.125"), Some(125));
    assert_eq!(parse_score("-2.75"), Some(-2_750));
    assert_eq!(parse_score(".5"), Some(500));
    assert_eq!(parse_score("5."), Some(5_000));
    assert_eq!(parse_score("0.0005"), Some(0));
    assert_eq!(parse_score("007"), Some(7_000));
}

#[test]
fn test_parse_score_rejects_other_shapes() {
    assert_eq!(parse_score(""), None);
    assert_eq!(parse_score("."), None);
    assert_eq!(parse_score("-"), None);
    assert_eq!(parse_score("-."), None);
    assert_eq!(parse_score("1.2.3"), None);
    assert_eq!(parse_score("abc"), None);
    assert_eq!(parse_score("1e5"), None);
    assert_eq!(parse_score("5 "), None);
    assert_eq!(parse_score("99999999999999999999"), None);
}

#[test]
fn test_classify_score_boundary() {
    assert!(classify_score(5_000));
    assert!(!classify_score(4_999));
    assert!(classify_score(10_000));
    assert!(!classify_score(0));
    assert!(!classify_score(-1_000));
}
