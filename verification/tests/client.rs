use codetrackr::client::{
    default_base_url_string, CodeTrackrClient, DocumentEvent, HeartbeatOutcome, HeartbeatPayload,
};

fn client(last_file: &str, last_time: u64) -> CodeTrackrClient {
    CodeTrackrClient {
        api_key: "key".to_string(),
        base_url: "https://example.test".to_string(),
        last_file: last_file.to_string(),
        last_time,
    }
}

#[test]
fn from_lsp_event_builds_the_report() {
    let p = HeartbeatPayload::from_lsp_event("file:///home/u/proj/main.rs", "rust", true, 1700, "linux");
    assert_eq!(p.file, "/home/u/proj/main.rs");
    assert_eq!(p.project, "proj");
    assert_eq!(p.lang, "rust");
    assert_eq!(p.branch, "");
    assert_eq!(p.editor, "Zed");
    assert_eq!(p.os, "linux");
    assert_eq!(p.duration, 60);
    assert!(p.is_write);
    assert_eq!(p.time, 1700);
}

#[test]
fn from_env_uses_defaults_only_when_unset() {
    let c = CodeTrackrClient::from_env(None, None);
    assert_eq!(c.api_key, "");
    assert_eq!(c.base_url, "https://codetrackr.fly.dev");
    assert_eq!(c.last_file, "");
    assert_eq!(c.last_time, 0);
    let c = CodeTrackrClient::from_env(Some("k".to_string()), Some(String::new()));
    assert_eq!(c.api_key, "k");
    assert_eq!(c.base_url, "");
    assert_eq!(default_base_url_string(), "https://codetrackr.fly.dev");
}

#[test]
fn should_send_throttles_the_same_file() {
    let c = client("/a.rs", 1000);
    assert!(!c.should_send("/a.rs", false, 1000));
    assert!(!c.should_send("/a.rs", false, 1119));
    assert!(c.should_send("/a.rs", false, 1120));
    assert!(c.should_send("/b.rs", false, 1001));
    assert!(c.should_send("/a.rs", true, 1001));
}

#[test]
fn heartbeat_url_trims_trailing_slashes() {
    let mut c = client("", 0);
    c.base_url = "https://example.test///".to_string();
    assert_eq!(c.heartbeat_url(), Some("https://example.test/api/v1/heartbeat".to_string()));
    c.base_url = "https://example.test".to_string();
    assert_eq!(c.heartbeat_url(), Some("https://example.test/api/v1/heartbeat".to_string()));
    c.base_url = String::new();
    assert_eq!(c.heartbeat_url(), Some("/api/v1/heartbeat".to_string()));
}

#[test]
fn heartbeat_url_needs_an_api_key() {
    let mut c = client("", 0);
    c.api_key = String::new();
    assert_eq!(c.heartbeat_url(), None);
}

#[test]
fn accepted_reply_is_remembered() {
    let mut c = client("/old.rs", 5);
    let p = HeartbeatPayload::from_lsp_event("file:///new.rs", "Rust", false, 500, "linux");
    assert_eq!(c.on_heartbeat_reply(&p, Some(201)), HeartbeatOutcome::Accepted);
    assert_eq!(c.last_file, "/new.rs");
    assert_eq!(c.last_time, 500);
    assert!(!c.should_send("/new.rs", false, 619));
    assert!(c.should_send("/new.rs", false, 620));
    let mut c = client("/old.rs", 5);
    assert_eq!(c.on_heartbeat_reply(&p, Some(200)), HeartbeatOutcome::Accepted);
    assert_eq!(c.last_time, 500);
}

#[test]
fn refused_or_lost_reply_changes_nothing() {
    let mut c = client("/old.rs", 5);
    let p = HeartbeatPayload::from_lsp_event("file:///new.rs", "Rust", false, 500, "linux");
    assert_eq!(c.on_heartbeat_reply(&p, Some(204)), HeartbeatOutcome::Refused(204));
    assert_eq!(c.on_heartbeat_reply(&p, None), HeartbeatOutcome::Unreachable);
    assert_eq!(c.last_file, "/old.rs");
    assert_eq!(c.last_time, 5);
}

#[test]
fn heartbeat_for_open_uses_editor_language() {
    let c = client("", 0);
    let e = DocumentEvent::Opened { uri: "file:///w/p/a.rs".to_string(), language_id: "rust".to_string() };
    let p = c.heartbeat_for(&e, 10, 10, "linux").unwrap();
    assert_eq!(p.lang, "rust");
    assert_eq!(p.file, "/w/p/a.rs");
    assert_eq!(p.project, "p");
    assert!(!p.is_write);
}

#[test]
fn heartbeat_for_change_is_throttled() {
    let c = client("/w/p/a.py", 100);
    let e = DocumentEvent::Changed { uri: "file:///w/p/a.py".to_string() };
    assert!(c.heartbeat_for(&e, 150, 150, "linux").is_none());
    let p = c.heartbeat_for(&e, 220, 220, "linux").unwrap();
    assert_eq!(p.lang, "Python");
}

#[test]
fn heartbeat_for_save_is_always_a_write() {
    let c = client("/w/p/a.py", 100);
    let e = DocumentEvent::Saved { uri: "file:///w/p/a.py".to_string() };
    let p = c.heartbeat_for(&e, 101, 101, "macos").unwrap();
    assert!(p.is_write);
    assert_eq!(p.lang, "Python");
    assert_eq!(p.os, "macos");
}
