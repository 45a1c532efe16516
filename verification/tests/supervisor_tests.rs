//! The daemon supervisor: probing, spawning at most once, and the
//! startup deadline.

use tab_cli::daemon::{
    DAEMON_POLL_INTERVAL_MS, DAEMON_STARTUP_TIMEOUT_MS, SupervisorAction, SupervisorEvent,
    SupervisorState, daemon_launch_args, daemon_not_found_error, search_path_candidates,
    supervisor_start, supervisor_step,
};
use tab_cli::error::CliError;
use tab_cli::ipc::connect_precheck;

#[test]
fn supervisor_starts_by_probing() {
    let (state, action) = supervisor_start();
    assert!(matches!(state, SupervisorState::Probing));
    assert!(matches!(action, SupervisorAction::Probe));
}

#[test]
fn answering_daemon_is_never_spawned_over() {
    // A listener that already answers ping: the first probe succeeds and
    // the run finishes without a single spawn request.
    let (state, _action) = supervisor_start();
    let mut spawns = 0;
    let (state, action) = supervisor_step(state, SupervisorEvent::ProbeResult(true));
    if matches!(action, SupervisorAction::Spawn) {
        spawns += 1;
    }
    assert!(matches!(state, SupervisorState::Alive));
    assert!(matches!(action, SupervisorAction::Finish));
    assert_eq!(spawns, 0);
}

#[test]
fn silent_socket_leads_to_exactly_one_spawn() {
    let (state, _action) = supervisor_start();
    let mut spawns = 0;

    // First probe fails: the supervisor asks for a spawn.
    let (state, action) = supervisor_step(state, SupervisorEvent::ProbeResult(false));
    if matches!(action, SupervisorAction::Spawn) {
        spawns += 1;
    }
    assert!(matches!(state, SupervisorState::Starting { .. }));

    // The spawn succeeds, a few probes fail, then one answers; no
    // further spawn is ever requested.
    let mut state = state;
    let mut action = {
        let (s, a) = supervisor_step(state, SupervisorEvent::SpawnOk);
        state = s;
        a
    };
    for round in 0..3 {
        assert!(matches!(action, SupervisorAction::Probe));
        let (s, a) = supervisor_step(state, SupervisorEvent::ProbeResult(false));
        state = s;
        action = a;
        if matches!(action, SupervisorAction::Spawn) {
            spawns += 1;
        }
        assert!(matches!(action, SupervisorAction::Sleep(ms) if ms == DAEMON_POLL_INTERVAL_MS));
        let (s, a) = supervisor_step(state, SupervisorEvent::Slept);
        state = s;
        action = a;
        if matches!(action, SupervisorAction::Spawn) {
            spawns += 1;
        }
        let _ = round;
    }
    let (state, action) = supervisor_step(state, SupervisorEvent::ProbeResult(true));
    assert!(matches!(state, SupervisorState::Alive));
    assert!(matches!(action, SupervisorAction::Finish));
    assert_eq!(spawns, 1);
}

#[test]
fn startup_deadline_fails_within_one_extra_interval() {
    // The daemon executable exists but never binds: every probe fails.
    let (mut state, _action) = supervisor_start();
    let (s, action) = supervisor_step(state, SupervisorEvent::ProbeResult(false));
    state = s;
    assert!(matches!(action, SupervisorAction::Spawn));
    let (s, mut action) = supervisor_step(state, SupervisorEvent::SpawnOk);
    state = s;

    let mut slept_ms: u64 = 0;
    let mut rounds = 0;
    loop {
        match action {
            SupervisorAction::Probe => {
                let (s, a) = supervisor_step(state, SupervisorEvent::ProbeResult(false));
                state = s;
                action = a;
            }
            SupervisorAction::Sleep(ms) => {
                slept_ms += ms;
                let (s, a) = supervisor_step(state, SupervisorEvent::Slept);
                state = s;
                action = a;
            }
            SupervisorAction::Fail(e) => {
                match e {
                    CliError::DaemonNotRunning(msg) => {
                        assert_eq!(msg, "daemon failed to start within timeout");
                    }
                    other => panic!("wrong error class: {:?}", other),
                }
                break;
            }
            other => panic!("unexpected action: {:?}", other),
        }
        rounds += 1;
        assert!(rounds < 1000, "the supervisor must give up");
    }
    assert!(matches!(state, SupervisorState::Failed));
    // The total wait is the deadline plus exactly one poll interval.
    assert_eq!(slept_ms, DAEMON_STARTUP_TIMEOUT_MS + DAEMON_POLL_INTERVAL_MS);
}

#[test]
fn failed_spawn_reports_the_cause() {
    let (state, _action) = supervisor_start();
    let (state, _action) = supervisor_step(state, SupervisorEvent::ProbeResult(false));
    let (state, action) = supervisor_step(
        state,
        SupervisorEvent::SpawnFailed("permission denied".to_string()),
    );
    assert!(matches!(state, SupervisorState::Failed));
    match action {
        SupervisorAction::Fail(CliError::DaemonNotRunning(msg)) => {
            assert_eq!(msg, "failed to start daemon: permission denied");
        }
        other => panic!("unexpected action: {:?}", other),
    }
}

#[test]
fn is_daemon_running_returns_false_when_socket_missing() {
    // The probe's precheck: a missing socket means no daemon, decided
    // without any connection attempt, and the probe reads it as "not
    // alive" rather than an error.
    let precheck = connect_precheck(false, "/tmp/nonexistent-socket-12345.sock");
    let alive = match precheck {
        Some(CliError::DaemonNotRunning(_)) => false,
        Some(other) => panic!("wrong error class: {:?}", other),
        None => true,
    };
    assert!(!alive);
}

#[test]
fn existing_socket_passes_the_precheck() {
    assert!(connect_precheck(true, "/tmp/tab-daemon.sock").is_none());
}

#[test]
fn daemon_launch_names_the_socket() {
    let args = daemon_launch_args("/tmp/tab-daemon.sock");
    assert_eq!(args, vec!["--socket".to_string(), "/tmp/tab-daemon.sock".to_string()]);
}

#[test]
fn search_path_candidates_join_each_directory() {
    let candidates = search_path_candidates("/usr/bin:/opt/tools", ':', "agent-tab-daemon");
    assert_eq!(
        candidates,
        vec![
            "/usr/bin/agent-tab-daemon".to_string(),
            "/opt/tools/agent-tab-daemon".to_string(),
        ]
    );
}

#[test]
fn daemon_not_found_error_names_the_executable() {
    match daemon_not_found_error("agent-tab-daemon") {
        CliError::DaemonNotRunning(msg) => {
            assert!(msg.contains("'agent-tab-daemon' executable not found"));
        }
        other => panic!("wrong error class: {:?}", other),
    }
}
