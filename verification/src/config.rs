//! CLI configuration: the daemon's address and the two timeouts.
//!
//! The library holds the compiled-in defaults; the binary that embeds it
//! reads the process environment and layers any overrides on top through
//! [`Config::with_env_overrides`].

use vstd::prelude::*;

verus! {

/// The configuration of one CLI invocation.
#[derive(Debug)]
pub struct Config {
    /// Path of the local socket the daemon listens on.
    pub ipc_socket_path: String,
    /// Session name used when none is given explicitly.
    pub default_session: String,
    /// Connect timeout, in milliseconds.
    pub connection_timeout_ms: u64,
    /// Reply timeout for one command, in milliseconds.
    pub command_timeout_ms: u64,
}

impl Clone for Config {
    fn clone(&self) -> (c: Self)
        ensures
            c.ipc_socket_path@ == self.ipc_socket_path@,
            c.default_session@ == self.default_session@,
            c.connection_timeout_ms == self.connection_timeout_ms,
            c.command_timeout_ms == self.command_timeout_ms,
    {
        Config {
            ipc_socket_path: self.ipc_socket_path.clone(),
            default_session: self.default_session.clone(),
            connection_timeout_ms: self.connection_timeout_ms,
            command_timeout_ms: self.command_timeout_ms,
        }
    }
}

impl Default for Config {
    /// The compiled-in defaults: the well-known socket path, the session
    /// name `default`, a five-second connect timeout and a thirty-second
    /// command timeout.
    fn default() -> (c: Config)
        ensures
            c.ipc_socket_path@ == "/tmp/tab-daemon.sock"@,
            c.default_session@ == "default"@,
            c.connection_timeout_ms == 5000,
            c.command_timeout_ms == 30000,
    {
        Config {
            ipc_socket_path: String::from_str("/tmp/tab-daemon.sock"),
            default_session: String::from_str("default"),
            connection_timeout_ms: 5000,
            command_timeout_ms: 30000,
        }
    }
}

impl Config {
    /// This configuration with environment overrides layered on top: a
    /// socket-path override replaces the socket path, a session override
    /// replaces the default session, and the timeouts stay.
    pub fn with_env_overrides(
        self,
        env_socket_path: Option<String>,
        env_session: Option<String>,
    ) -> (c: Config)
        ensures
            c.ipc_socket_path@ == (match env_socket_path {
                Some(p) => p@,
                None => self.ipc_socket_path@,
            }),
            c.default_session@ == (match env_session {
                Some(n) => n@,
                None => self.default_session@,
            }),
            c.connection_timeout_ms == self.connection_timeout_ms,
            c.command_timeout_ms == self.command_timeout_ms,
    {
        let ipc_socket_path = match env_socket_path {
            Some(p) => p,
            None => self.ipc_socket_path,
        };
        let default_session = match env_session {
            Some(n) => n,
            None => self.default_session,
        };
        Config {
            ipc_socket_path,
            default_session,
            connection_timeout_ms: self.connection_timeout_ms,
            command_timeout_ms: self.command_timeout_ms,
        }
    }
}

/// The compiled-in configuration.  The binary layers environment
/// overrides on top before handing it to the client.
pub fn load_config() -> (c: Config)
    ensures
        c.ipc_socket_path@ == "/tmp/tab-daemon.sock"@,
        c.default_session@ == "default"@,
        c.connection_timeout_ms == 5000,
        c.command_timeout_ms == 30000,
{
    Config::default()
}

} // verus!
