use duvua_core::cache::CorrelationCache;
use duvua_core::errors::BotError;
use duvua_core::kiss::{KissCommand, KissControlKind};

fn command() -> KissCommand {
    KissCommand::new(CorrelationCache::new())
}

#[test]
fn self_kiss_offers_no_follow_up() {
    let mut cmd = command();
    let resp = cmd.handle_command(42, Some(42), String::from("tok"), 0).unwrap();
    assert!(resp.self_kiss);
    assert_eq!(resp.issuer_id, 42);
    assert_eq!(resp.target_id, 42);
    assert!(resp.controls.is_empty());
}

#[test]
fn missing_target_defaults_to_issuer() {
    let mut cmd = command();
    let resp = cmd.handle_command(42, None, String::from("tok"), 0).unwrap();
    assert!(resp.self_kiss);
    assert_eq!(resp.target_id, 42);
    assert!(resp.controls.is_empty());
}

#[test]
fn kissing_someone_else_issues_reply_and_deny_controls() {
    let mut cmd = command();
    let resp = cmd.handle_command(1, Some(2), String::from("tok"), 0).unwrap();
    assert!(!resp.self_kiss);
    assert_eq!(resp.controls.len(), 2);
    assert_eq!(resp.controls[0].kind, KissControlKind::Reply);
    assert_eq!(resp.controls[1].kind, KissControlKind::Deny);
    assert_eq!(resp.controls[0].correlation_id, resp.controls[1].correlation_id);
    assert_eq!(resp.controls[0].correlation_id.chars().count(), 30);
}

#[test]
fn follow_up_click_resolves_the_interaction_once() {
    let mut cmd = command();
    let resp = cmd.handle_command(1, Some(2), String::from("reply-credential"), 100).unwrap();
    let id = resp.controls[0].correlation_id.clone();
    // The target clicks within the time-to-live.
    let record = cmd.handle_component(&id, 105).unwrap();
    assert_eq!(record.issuer_id, 1);
    assert_eq!(record.target_id, 2);
    assert_eq!(record.reply_token, "reply-credential");
    // A second click on the same control can no longer be completed.
    assert_eq!(cmd.handle_component(&id, 106).unwrap_err(), BotError::ExpiredOrUnknown);
}

#[test]
fn follow_up_click_after_ttl_fails() {
    let mut cmd = command();
    let resp = cmd.handle_command(1, Some(2), String::from("tok"), 100).unwrap();
    let id = resp.controls[0].correlation_id.clone();
    // The record was issued at 100 with a 10-second time-to-live.
    assert_eq!(cmd.handle_component(&id, 110).unwrap_err(), BotError::ExpiredOrUnknown);
}
