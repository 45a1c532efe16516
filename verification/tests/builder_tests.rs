//! Command building: ids, timestamps, and the assembled command.

use tab_cli::commands::{CommandBuilder, CommandContext, current_timestamp, generate_command_id};
use tab_cli::config::Config;
use tab_cli::ipc::IpcClient;
use tab_cli::json::JsonValue;
use tab_cli::types::CommandType;
use time::OffsetDateTime;
use time::format_description::well_known::Rfc3339;
use uuid::Uuid;

fn url_params() -> JsonValue {
    JsonValue::Obj(vec![(
        "url".to_string(),
        JsonValue::Str("https://example.com".to_string()),
    )])
}

#[test]
fn generate_command_id_is_uuid() {
    let id = generate_command_id();
    assert!(Uuid::parse_str(&id).is_ok());
}

#[test]
fn current_timestamp_is_rfc3339_utc() {
    let timestamp = current_timestamp();
    let parsed = OffsetDateTime::parse(&timestamp, &Rfc3339).expect("parse timestamp");
    assert_eq!(parsed.offset(), time::UtcOffset::UTC);
}

#[test]
fn command_builder_builds_command_fields() {
    let builder = CommandBuilder::new(
        "session-1".to_string(),
        Some("/path/to/profile".to_string()),
    );
    let command = builder.build(CommandType::Navigate, url_params());

    assert_eq!(command.session_id, "session-1");
    assert_eq!(command.profile, Some("/path/to/profile".to_string()));
    assert!(matches!(command.command_type, CommandType::Navigate));
    assert_eq!(command.params, Some(url_params()));
    assert!(Uuid::parse_str(&command.id).is_ok());
    assert!(OffsetDateTime::parse(&command.timestamp, &Rfc3339).is_ok());
}

#[test]
fn command_builder_drops_empty_params() {
    let builder = CommandBuilder::new("s".to_string(), None);
    let command = builder.build(CommandType::Back, JsonValue::Obj(vec![]));
    assert!(command.params.is_none());
}

#[test]
fn command_context_new_stores_fields() {
    let config = Config::default();
    let client = IpcClient::new(config);
    let ctx = CommandContext::new(
        client,
        "session-1".to_string(),
        Some("/path/to/profile".to_string()),
    );

    assert_eq!(ctx.session_id, "session-1");
    assert_eq!(ctx.profile, Some("/path/to/profile".to_string()));
}

#[test]
fn default_config_has_correct_values() {
    let config = Config::default();
    assert_eq!(config.ipc_socket_path, "/tmp/tab-daemon.sock");
    assert_eq!(config.default_session, "default");
    assert_eq!(config.connection_timeout_ms, 5000);
    assert_eq!(config.command_timeout_ms, 30000);
}

#[test]
fn create_client_returns_client_with_default_config() {
    let client = tab_cli::ipc::create_client();
    assert_eq!(client.config.connection_timeout_ms, 5000);
    assert_eq!(client.config.command_timeout_ms, 30000);
}

#[test]
fn config_env_overrides_replace_path_and_session() {
    let config = Config::default().with_env_overrides(
        Some("/tmp/other.sock".to_string()),
        Some("work".to_string()),
    );
    assert_eq!(config.ipc_socket_path, "/tmp/other.sock");
    assert_eq!(config.default_session, "work");
    assert_eq!(config.connection_timeout_ms, 5000);
}
