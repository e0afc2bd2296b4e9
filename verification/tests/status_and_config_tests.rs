//! Status codes, error texts, and endpoint configuration.

use flowsync::config::ApiConfig;
use flowsync::errors::SyncError;
use flowsync::status::SyncStatus;

#[test]
fn status_codes_round_trip() {
    assert_eq!(SyncStatus::from("pending"), SyncStatus::Pending);
    assert_eq!(SyncStatus::from("conflict"), SyncStatus::Conflict);
    assert_eq!(SyncStatus::from("synced"), SyncStatus::Synced);
    // Unknown codes read as synced.
    assert_eq!(SyncStatus::from("garbage"), SyncStatus::Synced);
    assert_eq!(SyncStatus::Pending.to_string(), "pending");
    assert_eq!(SyncStatus::Conflict.to_string(), "conflict");
    assert_eq!(SyncStatus::Synced.to_string(), "synced");
    assert_eq!(SyncStatus::default(), SyncStatus::Synced);
}

#[test]
fn error_descriptions_are_exact() {
    assert_eq!(
        SyncError::Network("down".to_string()).describe(),
        "network error: down"
    );
    assert_eq!(
        SyncError::RemoteRejected("409".to_string()).describe(),
        "remote rejected: 409"
    );
    assert_eq!(
        SyncError::Parse("bad json".to_string()).describe(),
        "parse error: bad json"
    );
    assert_eq!(
        SyncError::Constraint("missing parent".to_string()).describe(),
        "constraint violation: missing parent"
    );
}

#[test]
fn production_and_development_endpoints() {
    let prod = ApiConfig::for_environment("production".to_string());
    assert_eq!(
        prod.endpoint("/projects"),
        "https://api.ai-creator.com/api/v1/projects"
    );
    let dev = ApiConfig::for_environment("development".to_string());
    assert_eq!(dev.endpoint("/sys/users/me"), "http://localhost:8010/api/v1/sys/users/me");
    assert_eq!(dev.environment, "development");
}
