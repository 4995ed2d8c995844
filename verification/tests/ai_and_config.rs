use made_activity_tracker::ai::commands::{api_key_status, api_key_variable};
use made_activity_tracker::ai::sidecar::{base_url, database_path_for_python, endpoint_url,
    wsl_to_windows_path};
use made_activity_tracker::config::{AppConfig, DEFAULT_HISTORY_DAYS};

#[test]
fn provider_keys() {
    assert_eq!(api_key_variable("anthropic"), Ok("ANTHROPIC_API_KEY".to_string()));
    assert_eq!(api_key_variable("openai"), Ok("OPENAI_API_KEY".to_string()));
    assert_eq!(api_key_variable("gemini"), Err("Unknown provider: gemini".to_string()));
    let s = api_key_status(true, false);
    assert!(s.has_anthropic && !s.has_openai);
}

#[test]
fn sidecar_addresses() {
    assert_eq!(base_url(8765), "http://127.0.0.1:8765");
    assert_eq!(endpoint_url(&base_url(1), "/health"), "http://127.0.0.1:1/health");
}

#[test]
fn windows_paths() {
    assert_eq!(wsl_to_windows_path("/mnt/c/Users/me/db.sqlite"), "C:\\Users\\me\\db.sqlite");
    assert_eq!(wsl_to_windows_path("/mnt/d"), "/mnt/d");
    assert_eq!(wsl_to_windows_path("/mnt/dx"), "D:x");
    assert_eq!(wsl_to_windows_path("/tmp/db"), "/tmp/db");
    assert_eq!(database_path_for_python("/home/me/app.db"), "\\\\wsl$\\Ubuntu\\home\\me\\app.db");
    assert_eq!(database_path_for_python("/mnt/e/app.db"), "E:\\app.db");
    assert_eq!(database_path_for_python("C:\\app.db"), "C:\\app.db");
}

#[test]
fn default_config() {
    let c = AppConfig::default();
    assert_eq!(c.history_days, DEFAULT_HISTORY_DAYS);
    assert_eq!(c.history_days, 90);
    assert!(c.repositories.is_empty() && c.squads.is_empty() && c.users.is_empty() && c.tracked_users.is_empty());
    assert_eq!(c.excluded_bots.len(), 5);
    assert_eq!(c.excluded_bots[0], "dependabot[bot]");
    assert_eq!(c.bug_labels, vec!["bug".to_string(), "defect".to_string(), "fix".to_string()]);
    assert_eq!(c.feature_labels, vec!["feature".to_string(), "enhancement".to_string(), "feat".to_string()]);
}
