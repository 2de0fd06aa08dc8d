use spam_bot_mvp::moderation::decide_admin;
use spam_bot_mvp::moderation::decimal_string;
use spam_bot_mvp::moderation::notification_text;
use spam_bot_mvp::moderation::is_command;
use spam_bot_mvp::moderation::route_notification;
use spam_bot_mvp::moderation::NotifyRoute;

#[test]
fn test_decide_admin_private_chat() {
    assert!(decide_admin(true, &vec![], 7));
    assert!(decide_admin(true, &vec![1, 2], 7));
}

#[test]
fn test_decide_admin_group_chat() {
    assert!(decide_admin(false, &vec![1, 2, 7], 7));
    assert!(!decide_admin(false, &vec![1, 2, 3], 7));
    assert!(!decide_admin(false, &vec![], 7));
}

#[test]
fn test_route_notification_cases() {
    assert_eq!(route_notification(false, None), NotifyRoute::ToChat);
    assert_eq!(
        route_notification(false, Some(&vec![1, 2])),
        NotifyRoute::ToChat
    );
    assert_eq!(route_notification(true, None), NotifyRoute::ToChat);
    assert_eq!(route_notification(true, Some(&vec![])), NotifyRoute::ToChat);
    assert_eq!(
        route_notification(true, Some(&vec![1, 2])),
        NotifyRoute::ToEachAdmin
    );
}

#[test]
fn test_is_command() {
    assert!(is_command("/start"));
    assert!(is_command("/add_rule spam 10.0"));
    assert!(!is_command("hello"));
    assert!(!is_command(""));
    assert!(!is_command(" /start"));
}

#[test]
fn test_decimal_string() {
    assert_eq!(decimal_string(0), "0");
    assert_eq!(decimal_string(7), "7");
    assert_eq!(decimal_string(42), "42");
    assert_eq!(decimal_string(1000), "1000");
    assert_eq!(decimal_string(-5), "-5");
    assert_eq!(decimal_string(i64::MAX), "9223372036854775807");
    assert_eq!(decimal_string(i64::MIN), "-9223372036854775808");
}

#[test]
fn test_notification_text() {
    assert_eq!(
        notification_text("buy cheap meds", "12345", 3),
        "Spam detected: buy cheap meds\nSender ID: 12345\nSpam Score: 3"
    );
}
