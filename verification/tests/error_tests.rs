//! Exit codes: one stable integer per failure class.

use tab_cli::error::CliError;

#[test]
fn daemon_not_running_returns_exit_code_2() {
    let err = CliError::DaemonNotRunning("test".to_string());
    assert_eq!(err.exit_code(), 2);
}

#[test]
fn connection_failed_returns_exit_code_3() {
    let err = CliError::ConnectionFailed("test".to_string());
    assert_eq!(err.exit_code(), 3);
}

#[test]
fn connection_timeout_returns_exit_code_3() {
    let err = CliError::ConnectionTimeout;
    assert_eq!(err.exit_code(), 3);
}

#[test]
fn command_failed_returns_exit_code_1() {
    let err = CliError::CommandFailed("test".to_string());
    assert_eq!(err.exit_code(), 1);
}

#[test]
fn command_timeout_returns_exit_code_1() {
    let err = CliError::CommandTimeout;
    assert_eq!(err.exit_code(), 1);
}

#[test]
fn invalid_arguments_returns_exit_code_64() {
    let err = CliError::InvalidArguments("test".to_string());
    assert_eq!(err.exit_code(), 64);
}

#[test]
fn invalid_session_returns_exit_code_65() {
    let err = CliError::InvalidSession("test".to_string());
    assert_eq!(err.exit_code(), 65);
}

#[test]
fn protocol_error_returns_exit_code_76() {
    let err = CliError::ProtocolError("test".to_string());
    assert_eq!(err.exit_code(), 76);
}

#[test]
fn io_error_returns_exit_code_74() {
    let err = CliError::IoError("test".to_string());
    assert_eq!(err.exit_code(), 74);
}

#[test]
fn serialization_error_returns_exit_code_65() {
    let err = CliError::SerializationError("test".to_string());
    assert_eq!(err.exit_code(), 65);
}
