//! Session-name validation and session/profile resolution.

use tab_cli::config::Config;
use tab_cli::session::{
    SessionResolver, resolve_session, resolve_session_and_profile, validate_session_name,
};

#[test]
fn validate_session_name_accepts_alphanumeric() {
    assert!(validate_session_name("session123"));
    assert!(validate_session_name("Session"));
    assert!(validate_session_name("123"));
}

#[test]
fn validate_session_name_accepts_dashes_and_underscores() {
    assert!(validate_session_name("my-session"));
    assert!(validate_session_name("my_session"));
    assert!(validate_session_name("my-session_1"));
}

#[test]
fn validate_session_name_rejects_empty() {
    assert!(!validate_session_name(""));
}

#[test]
fn validate_session_name_rejects_special_chars() {
    assert!(!validate_session_name("my session"));
    assert!(!validate_session_name("my@session"));
    assert!(!validate_session_name("my.session"));
    assert!(!validate_session_name("my/session"));
}

#[test]
fn validate_session_name_rejects_too_long() {
    let long_name = "a".repeat(65);
    assert!(!validate_session_name(&long_name));
}

#[test]
fn validate_session_name_accepts_max_length() {
    let max_name = "a".repeat(64);
    assert!(validate_session_name(&max_name));
}

#[test]
fn session_resolver_new_stores_config() {
    let config = Config::default();
    let resolver = SessionResolver::new(config.clone());
    assert_eq!(resolver.config.default_session, config.default_session);
}

#[test]
fn session_resolver_resolve_uses_explicit_session() {
    let resolver = SessionResolver::new(Config::default());
    assert_eq!(resolver.resolve(Some("explicit-session")), "explicit-session");
}

#[test]
fn session_resolver_resolve_uses_env_when_no_explicit() {
    let resolver = SessionResolver::new_with_env(
        Config::default(),
        Some("env-session".to_string()),
        None,
    );
    assert_eq!(resolver.resolve(None), "env-session");
}

#[test]
fn session_resolver_resolve_uses_config_default_when_no_explicit_or_env() {
    let mut config = Config::default();
    config.default_session = "config-session".to_string();
    let resolver = SessionResolver::new(config);
    assert_eq!(resolver.resolve(None), "config-session");
}

#[test]
fn session_resolver_resolve_profile_prefers_explicit() {
    let resolver = SessionResolver::new_with_env(
        Config::default(),
        None,
        Some("/env/profile".to_string()),
    );
    assert_eq!(resolver.resolve_profile(Some("/flag/profile")), Some("/flag/profile".to_string()));
    assert_eq!(resolver.resolve_profile(None), Some("/env/profile".to_string()));
}

#[test]
fn resolve_session_uses_default_when_nothing_given() {
    assert_eq!(resolve_session(None, None), "default");
}

#[test]
fn resolve_session_prefers_explicit_over_env() {
    let session = resolve_session(Some("explicit-session"), Some("env-session".to_string()));
    assert_eq!(session, "explicit-session");
}

#[test]
fn resolve_session_and_profile_resolves_both() {
    let (session, profile) = resolve_session_and_profile(
        None,
        None,
        Some("env-session".to_string()),
        Some("/env/profile".to_string()),
    );
    assert_eq!(session, "env-session");
    assert_eq!(profile, Some("/env/profile".to_string()));
}
