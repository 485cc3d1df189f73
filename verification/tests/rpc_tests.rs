use isekai::discord::{build_discord_activity, DiscordActivity, DiscordRpcButtonPayload, DiscordRpcPresencePayload};
use isekai::rpc::{DiscordRpcManager, RpcAction, RpcEvent};

fn payload(details: &str) -> DiscordRpcPresencePayload {
    DiscordRpcPresencePayload {
        details: details.to_string(),
        state: "s".to_string(),
        large_image_key: "lk".to_string(),
        large_image_text: "lt".to_string(),
        small_image_key: "sk".to_string(),
        small_image_text: "st".to_string(),
        start_timestamp: Some(5),
        end_timestamp: None,
        buttons: vec![DiscordRpcButtonPayload { label: "l".to_string(), url: "u".to_string() }],
    }
}

fn update(id: &str) -> RpcEvent {
    RpcEvent::Update(id.to_string(), build_discord_activity(&payload("d")))
}

fn is_set(a: &RpcAction, details: &str) -> bool {
    matches!(a, RpcAction::SetActivity(DiscordActivity { details: d, .. }) if d == details)
}

fn ok() -> RpcEvent {
    RpcEvent::Done(Ok(()))
}

fn err(m: &str) -> RpcEvent {
    RpcEvent::Done(Err(m.to_string()))
}

fn is_connect(a: &RpcAction, id: &str) -> bool {
    matches!(a, RpcAction::Connect(x) if x == id)
}

fn is_finish_ok(a: &RpcAction) -> bool {
    matches!(a, RpcAction::Finish(Ok(())))
}

fn is_finish_err(a: &RpcAction, m: &str) -> bool {
    matches!(a, RpcAction::Finish(Err(x)) if x == m)
}

#[test]
fn first_update_connects_then_sets_activity() {
    let mut m = DiscordRpcManager::new();
    let a = m.step(update("42"));
    assert!(is_connect(&a, "42"));
    assert!(m.is_busy());
    let a = m.step(ok());
    assert!(is_set(&a, "d"));
    let a = m.step(ok());
    assert!(is_finish_ok(&a));
    assert!(!m.is_busy());
    assert!(m.has_client && m.connected && m.active);
    assert_eq!(m.client_id.as_deref(), Some("42"));
    assert_eq!(m.last_error, None);
}

#[test]
fn update_on_same_connection_sets_activity_directly() {
    let mut m = DiscordRpcManager::new();
    m.step(update("42"));
    m.step(ok());
    m.step(ok());
    let a = m.step(update("42"));
    assert!(is_set(&a, "d"));
    assert!(is_finish_ok(&m.step(ok())));
}

#[test]
fn new_client_id_clears_old_client_first() {
    let mut m = DiscordRpcManager::new();
    m.step(update("42"));
    m.step(ok());
    m.step(ok());
    let a = m.step(update("7"));
    assert!(matches!(a, RpcAction::ClearActivity));
    let a = m.step(ok());
    assert!(is_connect(&a, "7"));
    assert!(!m.active);
    let a = m.step(ok());
    assert!(is_set(&a, "d"));
    assert!(is_finish_ok(&m.step(ok())));
    assert_eq!(m.client_id.as_deref(), Some("7"));
}

#[test]
fn connect_failure_is_recorded() {
    let mut m = DiscordRpcManager::new();
    m.step(update("42"));
    let a = m.step(err("no discord"));
    assert!(is_finish_err(&a, "no discord"));
    assert_eq!(m.last_error.as_deref(), Some("no discord"));
    assert!(!m.has_client && !m.connected);
}

#[test]
fn failed_set_reconnects_and_retries_once() {
    let mut m = DiscordRpcManager::new();
    m.step(update("42"));
    m.step(ok());
    let a = m.step(err("pipe closed"));
    assert!(is_connect(&a, "42"));
    assert!(!m.has_client);
    assert_eq!(m.last_error.as_deref(), Some("pipe closed"));
    let a = m.step(ok());
    assert!(is_set(&a, "d"));
    let a = m.step(err("still closed"));
    assert!(is_finish_err(&a, "still closed"));
    assert_eq!(m.last_error.as_deref(), Some("still closed"));
    assert!(!m.is_busy());
}

#[test]
fn failed_set_retry_succeeds() {
    let mut m = DiscordRpcManager::new();
    m.step(update("42"));
    m.step(ok());
    m.step(err("pipe closed"));
    m.step(ok());
    assert!(is_finish_ok(&m.step(ok())));
    assert!(m.connected && m.active && m.last_error.is_none());
}

#[test]
fn clear_without_client_finishes_at_once() {
    let mut m = DiscordRpcManager::new();
    let a = m.discord_rpc_clear();
    assert!(is_finish_ok(&a));
    assert!(!m.active);
}

#[test]
fn clear_with_client_and_its_failure() {
    let mut m = DiscordRpcManager::new();
    m.step(update("42"));
    m.step(ok());
    m.step(ok());
    let a = m.discord_rpc_clear();
    assert!(matches!(a, RpcAction::ClearActivity));
    assert!(is_finish_ok(&m.step(ok())));
    assert!(!m.active && m.has_client);
    let a = m.discord_rpc_clear();
    assert!(matches!(a, RpcAction::ClearActivity));
    assert!(is_finish_err(&m.step(err("gone")), "gone"));
    assert!(!m.has_client && !m.connected && !m.active);
    assert_eq!(m.client_id, None);
    assert_eq!(m.last_error.as_deref(), Some("gone"));
}

#[test]
fn update_without_client_id_is_an_error() {
    let mut m = DiscordRpcManager::new();
    let a = m.discord_rpc_update("   ", None, &payload("d"));
    assert!(is_finish_err(&a, "Discord client ID is not configured"));
    assert_eq!(m.last_error.as_deref(), Some("Discord client ID is not configured"));
    let a = m.discord_rpc_update(" 9 ", None, &payload("d"));
    assert!(is_connect(&a, "9"));
}

#[test]
fn status_reports_the_manager() {
    let mut m = DiscordRpcManager::new();
    let s = m.discord_rpc_status("", Some("55"));
    assert!(s.configured && !s.connected && !s.active && s.last_error.is_none());
    m.step(update("1"));
    m.step(err("e"));
    let s = m.status(false);
    assert!(!s.configured);
    assert_eq!(s.last_error.as_deref(), Some("e"));
    assert!(!m.discord_rpc_status("", None).configured);
}

#[test]
fn update_sets_the_activity_of_its_payload_at_most_twice() {
    let mut m = DiscordRpcManager::new();
    let a = m.discord_rpc_update("42", None, &payload("Tracking Geyser"));
    assert!(is_connect(&a, "42"));
    let a = m.step(ok());
    match &a {
        RpcAction::SetActivity(act) => {
            assert_eq!(act.details, "Tracking Geyser");
            assert_eq!(act.state, "s");
            assert_eq!(act.large_image, "lk");
            assert_eq!(act.timestamps.as_ref().unwrap().start, Some(5));
            assert_eq!(act.buttons.as_ref().unwrap().len(), 1);
        }
        _ => panic!("expected SetActivity"),
    }
    let a = m.step(err("broken"));
    assert!(is_connect(&a, "42"));
    let a = m.step(ok());
    assert!(is_set(&a, "Tracking Geyser"));
    let a = m.step(err("broken again"));
    assert!(is_finish_err(&a, "broken again"));
}
