//! The IPC client: its configuration, and the decisions of the probe and
//! exchange paths.
//!
//! The client is the only component that forms and reads envelopes.  The
//! binary that embeds the library performs the socket work (connect,
//! write, read); everything it sends and everything it concludes from
//! what it read comes from the verified functions here and in
//! [`crate::codec`]: the precheck on the socket path, the ping and
//! command frames, the frame splitting, and the interpretation of the
//! reply.

use vstd::prelude::*;
use crate::config::Config;
use crate::error::{CliError, ErrorView};

verus! {

/// The IPC client for one CLI invocation.
#[derive(Debug)]
pub struct IpcClient {
    pub config: Config,
}

impl IpcClient {
    /// A client over the given configuration.
    pub fn new(config: Config) -> (c: Self)
        ensures
            c.config == config,
    {
        IpcClient { config }
    }
}

/// A client over the compiled-in configuration.
pub fn create_client() -> (c: IpcClient)
    ensures
        c.config.ipc_socket_path@ == "/tmp/tab-daemon.sock"@,
        c.config.default_session@ == "default"@,
        c.config.connection_timeout_ms == 5000,
        c.config.command_timeout_ms == 30000,
{
    IpcClient::new(crate::config::load_config())
}

/// A client over the given configuration.
pub fn create_client_with_config(config: Config) -> (c: IpcClient)
    ensures
        c.config == config,
{
    IpcClient::new(config)
}

/// The decision taken before any connection attempt: when the socket path
/// does not exist on disk, the daemon is not running, and no connection
/// is tried — connecting anyway would surface a misleading error.
pub fn connect_precheck(socket_exists: bool, socket_path: &str) -> (r: Option<CliError>)
    ensures
        match r {
            Some(e) => !socket_exists && e@ == ErrorView::DaemonNotRunning(
                "socket not found at "@ + socket_path@,
            ),
            None => socket_exists,
        },
{
    if socket_exists {
        None
    } else {
        let mut msg = String::from_str("socket not found at ");
        msg.append(socket_path);
        Some(CliError::DaemonNotRunning(msg))
    }
}

/// The error owed when the connection attempt itself failed: the socket
/// existed, so this is a connection failure, not an absent daemon.
pub fn connect_failure(os_error: String) -> (e: CliError)
    ensures
        e@ == ErrorView::ConnectionFailed(os_error@),
{
    CliError::ConnectionFailed(os_error)
}

/// The error owed when writing or reading on the stream failed.
pub fn io_failure(os_error: String) -> (e: CliError)
    ensures
        e@ == ErrorView::IoError(os_error@),
{
    CliError::IoError(os_error)
}

} // verus!
