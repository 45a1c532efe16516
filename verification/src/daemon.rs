//! The daemon supervisor: the decisions that guarantee a reachable daemon
//! before the first command.
//!
//! The supervisor is a state machine.  The binary that embeds the library
//! performs each requested action (probe, spawn, sleep) and reports its
//! outcome back; every decision between two actions is taken here and
//! verified: a daemon that answers the first probe is never spawned over,
//! at most one spawn happens per invocation, and once spawned, the daemon
//! is polled until it answers or the startup deadline passes, failing no
//! later than one poll interval past the deadline.

use vstd::prelude::*;
use crate::error::{CliError, ErrorView};

verus! {

/// Time the daemon gets to come up, in milliseconds.
pub const DAEMON_STARTUP_TIMEOUT_MS: u64 = 10000;

/// Pause between liveness probes while waiting, in milliseconds.
pub const DAEMON_POLL_INTERVAL_MS: u64 = 100;

/// The daemon executable's file name.
pub fn daemon_executable_name() -> (r: &'static str)
    ensures
        r@ == "agent-tab-daemon"@,
{
    "agent-tab-daemon"
}

/// The supervisor's view of the daemon, per CLI invocation.
#[derive(Debug, Clone, Copy, PartialEq, Eq, Structural)]
pub enum SupervisorState {
    /// Nothing known yet.
    Unknown,
    /// The first liveness probe is outstanding.
    Probing,
    /// The daemon was spawned; polling until it answers, with the wait
    /// accumulated so far in milliseconds.
    Starting { elapsed_ms: u64 },
    /// The daemon answered a probe.
    Alive,
    /// The daemon could not be reached in time.
    Failed,
}

/// Spec image of an action.
pub enum ActionView {
    Probe,
    Spawn,
    Sleep(u64),
    Finish,
    Fail(ErrorView),
}

/// What the binary is asked to do next.
#[derive(Debug)]
pub enum SupervisorAction {
    /// Run one liveness probe and report the result.
    Probe,
    /// Spawn the daemon detached and report whether spawning worked.
    Spawn,
    /// Sleep for the given number of milliseconds, then report back.
    Sleep(u64),
    /// The daemon is reachable: done.
    Finish,
    /// Give up with this error.
    Fail(CliError),
}

impl View for SupervisorAction {
    type V = ActionView;

    open spec fn view(&self) -> ActionView {
        match self {
            SupervisorAction::Probe => ActionView::Probe,
            SupervisorAction::Spawn => ActionView::Spawn,
            SupervisorAction::Sleep(ms) => ActionView::Sleep(*ms),
            SupervisorAction::Finish => ActionView::Finish,
            SupervisorAction::Fail(e) => ActionView::Fail(e@),
        }
    }
}

/// Spec image of an event.
pub enum EventView {
    ProbeResult(bool),
    SpawnOk,
    SpawnFailed(Seq<char>),
    Slept,
}

/// What the binary reports back after performing an action.
#[derive(Debug)]
pub enum SupervisorEvent {
    /// A liveness probe returned: `true` means the daemon answered pong.
    ProbeResult(bool),
    /// The daemon process was spawned.
    SpawnOk,
    /// Spawning failed, with the error text.
    SpawnFailed(String),
    /// The requested sleep finished.
    Slept,
}

impl View for SupervisorEvent {
    type V = EventView;

    open spec fn view(&self) -> EventView {
        match self {
            SupervisorEvent::ProbeResult(b) => EventView::ProbeResult(*b),
            SupervisorEvent::SpawnOk => EventView::SpawnOk,
            SupervisorEvent::SpawnFailed(msg) => EventView::SpawnFailed(msg@),
            SupervisorEvent::Slept => EventView::Slept,
        }
    }
}

/// The state invariant: a recorded wait never exceeds the deadline.
pub open spec fn wf_supervisor_state(s: SupervisorState) -> bool {
    match s {
        SupervisorState::Starting { elapsed_ms } => elapsed_ms <= DAEMON_STARTUP_TIMEOUT_MS,
        _ => true,
    }
}

/// One supervisor decision: from the current state and the reported
/// event, the next state and the next action.  `None` means the event
/// does not belong to the state, which a driver respecting the actions
/// never produces.
pub open spec fn spec_supervisor_step(s: SupervisorState, e: EventView) -> Option<
    (SupervisorState, ActionView),
> {
    match (s, e) {
        (SupervisorState::Probing, EventView::ProbeResult(true)) => Some(
            (SupervisorState::Alive, ActionView::Finish),
        ),
        (SupervisorState::Probing, EventView::ProbeResult(false)) => Some(
            (SupervisorState::Starting { elapsed_ms: 0 }, ActionView::Spawn),
        ),
        (SupervisorState::Starting { elapsed_ms }, EventView::SpawnOk) => Some(
            (SupervisorState::Starting { elapsed_ms }, ActionView::Probe),
        ),
        (SupervisorState::Starting { elapsed_ms: _ }, EventView::SpawnFailed(msg)) => Some(
            (
                SupervisorState::Failed,
                ActionView::Fail(ErrorView::DaemonNotRunning("failed to start daemon: "@ + msg)),
            ),
        ),
        (SupervisorState::Starting { elapsed_ms: _ }, EventView::ProbeResult(true)) => Some(
            (SupervisorState::Alive, ActionView::Finish),
        ),
        (SupervisorState::Starting { elapsed_ms }, EventView::ProbeResult(false)) => Some(
            (
                SupervisorState::Starting { elapsed_ms },
                ActionView::Sleep(DAEMON_POLL_INTERVAL_MS),
            ),
        ),
        (SupervisorState::Starting { elapsed_ms }, EventView::Slept) => {
            if elapsed_ms + DAEMON_POLL_INTERVAL_MS > DAEMON_STARTUP_TIMEOUT_MS {
                Some(
                    (
                        SupervisorState::Failed,
                        ActionView::Fail(
                            ErrorView::DaemonNotRunning("daemon failed to start within timeout"@),
                        ),
                    ),
                )
            } else {
                Some(
                    (
                        SupervisorState::Starting {
                            elapsed_ms: (elapsed_ms + DAEMON_POLL_INTERVAL_MS) as u64,
                        },
                        ActionView::Probe,
                    ),
                )
            }
        }
        _ => None,
    }
}

/// The supervisor's first step: probe before anything else.
pub fn supervisor_start() -> (r: (SupervisorState, SupervisorAction))
    ensures
        r.0 == SupervisorState::Probing,
        r.1@ == ActionView::Probe,
{
    (SupervisorState::Probing, SupervisorAction::Probe)
}

/// One supervisor decision, as run by the binary's driving loop.
pub fn supervisor_step(state: SupervisorState, event: SupervisorEvent) -> (r: (
    SupervisorState,
    SupervisorAction,
))
    requires
        wf_supervisor_state(state),
        spec_supervisor_step(state, event@) is Some,
    ensures
        spec_supervisor_step(state, event@) == Some((r.0, r.1@)),
        wf_supervisor_state(r.0),
{
    match (state, event) {
        (SupervisorState::Probing, SupervisorEvent::ProbeResult(true)) => (
            SupervisorState::Alive,
            SupervisorAction::Finish,
        ),
        (SupervisorState::Probing, SupervisorEvent::ProbeResult(false)) => (
            SupervisorState::Starting { elapsed_ms: 0 },
            SupervisorAction::Spawn,
        ),
        (SupervisorState::Starting { elapsed_ms }, SupervisorEvent::SpawnOk) => (
            SupervisorState::Starting { elapsed_ms },
            SupervisorAction::Probe,
        ),
        (SupervisorState::Starting { elapsed_ms: _ }, SupervisorEvent::SpawnFailed(msg)) => {
            let mut text = String::from_str("failed to start daemon: ");
            text.append(msg.as_str());
            (SupervisorState::Failed, SupervisorAction::Fail(CliError::DaemonNotRunning(text)))
        }
        (SupervisorState::Starting { elapsed_ms: _ }, SupervisorEvent::ProbeResult(true)) => (
            SupervisorState::Alive,
            SupervisorAction::Finish,
        ),
        (SupervisorState::Starting { elapsed_ms }, SupervisorEvent::ProbeResult(false)) => (
            SupervisorState::Starting { elapsed_ms },
            SupervisorAction::Sleep(DAEMON_POLL_INTERVAL_MS),
        ),
        (SupervisorState::Starting { elapsed_ms }, SupervisorEvent::Slept) => {
            if elapsed_ms + DAEMON_POLL_INTERVAL_MS > DAEMON_STARTUP_TIMEOUT_MS {
                (
                    SupervisorState::Failed,
                    SupervisorAction::Fail(
                        CliError::DaemonNotRunning(String::from_str(
                            "daemon failed to start within timeout",
                        )),
                    ),
                )
            } else {
                (
                    SupervisorState::Starting {
                        elapsed_ms: elapsed_ms + DAEMON_POLL_INTERVAL_MS,
                    },
                    SupervisorAction::Probe,
                )
            }
        }
        _ => {
            proof {
                assert(false);
            }
            (SupervisorState::Failed, SupervisorAction::Finish)
        }
    }
}

// ---------------------------------------------------------------------------
// Laws of the supervisor.
// ---------------------------------------------------------------------------

/// A daemon that already answers is never spawned over: when the first
/// probe comes back alive, the supervisor finishes at once, and no step
/// from any state but `Probing` ever asks for a spawn.
pub proof fn lemma_supervisor_never_respawns(s: SupervisorState, e: EventView)
    ensures
        spec_supervisor_step(SupervisorState::Probing, EventView::ProbeResult(true)) == Some(
            (SupervisorState::Alive, ActionView::Finish),
        ),
        (spec_supervisor_step(s, e) matches Some((_s2, a)) && a == ActionView::Spawn) ==> s
            == SupervisorState::Probing && e == EventView::ProbeResult(false),
        spec_supervisor_step(s, e) matches Some((s2, _a)) ==> s2 != SupervisorState::Probing && s2
            != SupervisorState::Unknown,
{
}

/// How many spawns a run of the supervisor asks for, starting at `s` and
/// fed the given events.
pub open spec fn spec_spawn_count(s: SupervisorState, events: Seq<EventView>) -> nat
    decreases events.len(),
{
    if events.len() == 0 {
        0
    } else {
        match spec_supervisor_step(s, events[0]) {
            None => 0,
            Some((s2, a)) => (if a == ActionView::Spawn { 1nat } else { 0nat })
                + spec_spawn_count(s2, events.drop_first()),
        }
    }
}

/// Once past `Probing`, a run never spawns again.
pub proof fn lemma_spawn_count_zero(s: SupervisorState, events: Seq<EventView>)
    requires
        s != SupervisorState::Probing,
        s != SupervisorState::Unknown,
    ensures
        spec_spawn_count(s, events) == 0,
    decreases events.len(),
{
    if events.len() > 0 {
        match spec_supervisor_step(s, events[0]) {
            None => {}
            Some((s2, _a)) => {
                lemma_spawn_count_zero(s2, events.drop_first());
            }
        }
    }
}

/// The supervisor spawns at most one daemon per invocation, whatever the
/// probes, spawn reports and sleeps report back.
pub proof fn lemma_supervisor_spawns_at_most_once(events: Seq<EventView>)
    ensures
        spec_spawn_count(SupervisorState::Probing, events) <= 1,
{
    if events.len() > 0 {
        match spec_supervisor_step(SupervisorState::Probing, events[0]) {
            None => {}
            Some((s2, _a)) => {
                lemma_supervisor_never_respawns(SupervisorState::Probing, events[0]);
                lemma_spawn_count_zero(s2, events.drop_first());
            }
        }
    }
}

/// The startup-deadline law: the supervisor reports the startup timeout
/// exactly when a sleep ends with the accumulated wait past the deadline;
/// since a well-formed state never records more than the deadline, the
/// failure comes no later than one poll interval past it.
pub proof fn lemma_supervisor_deadline(s: SupervisorState, e: EventView)
    requires
        wf_supervisor_state(s),
    ensures
        (spec_supervisor_step(s, e) matches Some((_s2, a)) && a == ActionView::Fail(
            ErrorView::DaemonNotRunning("daemon failed to start within timeout"@),
        )) <==> (s matches SupervisorState::Starting { elapsed_ms } && e == EventView::Slept
            && elapsed_ms + DAEMON_POLL_INTERVAL_MS > DAEMON_STARTUP_TIMEOUT_MS),
        (s matches SupervisorState::Starting { elapsed_ms } && e == EventView::Slept
            && elapsed_ms + DAEMON_POLL_INTERVAL_MS > DAEMON_STARTUP_TIMEOUT_MS) ==> (
        s matches SupervisorState::Starting { elapsed_ms } && elapsed_ms
            + DAEMON_POLL_INTERVAL_MS <= DAEMON_STARTUP_TIMEOUT_MS + DAEMON_POLL_INTERVAL_MS),
        spec_supervisor_step(s, e) matches Some((s2, _a)) ==> wf_supervisor_state(s2),
{
    match (s, e) {
        (SupervisorState::Starting { elapsed_ms }, EventView::SpawnFailed(msg)) => {
            assert(ErrorView::DaemonNotRunning("failed to start daemon: "@ + msg)
                != ErrorView::DaemonNotRunning("daemon failed to start within timeout"@)) by {
                broadcast use vstd::string::group_string_axioms;

                reveal_strlit("failed to start daemon: ");
                reveal_strlit("daemon failed to start within timeout");
                assert("failed to start daemon: "@.len() == 24);
                assert("daemon failed to start within timeout"@.len() == 37);
                assert(("failed to start daemon: "@ + msg)[0] == 'f');
                assert("daemon failed to start within timeout"@[0] == 'd');
            }
        }
        _ => {}
    }
}

// ---------------------------------------------------------------------------
// Locating the daemon executable, and launching it: the pure parts.
// ---------------------------------------------------------------------------

/// The arguments the daemon is launched with: a flag naming the socket
/// address it must bind.
pub fn daemon_launch_args(socket_path: &str) -> (r: Vec<String>)
    ensures
        r@.len() == 2,
        r@[0]@ == "--socket"@,
        r@[1]@ == socket_path@,
{
    let mut args: Vec<String> = Vec::new();
    args.push(String::from_str("--socket"));
    args.push(String::from_str(socket_path));
    args
}

/// How the daemon binary is fetched when it is installed as a plugin:
/// its release location, the supported targets, and how its version is
/// probed.
pub fn get_daemon_config() -> (r: crate::plugins::PluginConfig)
    ensures
        r.name@ == "browser-daemon"@,
        r.base_url@ == "https://github.com/stakpak/tab"@,
        r.targets@.len() == 4,
        r.targets@[0]@ == "linux-x86_64"@,
        r.targets@[1]@ == "darwin-x86_64"@,
        r.targets@[2]@ == "darwin-aarch64"@,
        r.targets@[3]@ == "windows-x86_64"@,
        r.version is None,
        r.repo matches Some(x) && x@ == "tab"@,
        r.owner matches Some(x) && x@ == "stakpak"@,
        r.version_arg matches Some(x) && x@ == "--version"@,
{
    let mut targets: Vec<String> = Vec::new();
    targets.push(String::from_str("linux-x86_64"));
    targets.push(String::from_str("darwin-x86_64"));
    targets.push(String::from_str("darwin-aarch64"));
    targets.push(String::from_str("windows-x86_64"));
    crate::plugins::PluginConfig {
        name: String::from_str("browser-daemon"),
        base_url: String::from_str("https://github.com/stakpak/tab"),
        targets,
        version: None,
        repo: Some(String::from_str("tab")),
        owner: Some(String::from_str("stakpak")),
        version_arg: Some(String::from_str("--version")),
    }
}

/// The first index at or after `i` holding the separator, or the length.
pub open spec fn sep_end(s: Seq<char>, sep: char, i: int) -> int
    decreases s.len() - i,
{
    if 0 <= i && i < s.len() && s[i] != sep {
        sep_end(s, sep, i + 1)
    } else {
        i
    }
}

/// `sep_end` stays between its start and the end of the text.
pub proof fn lemma_sep_end_range(s: Seq<char>, sep: char, i: int)
    requires
        0 <= i <= s.len(),
    ensures
        i <= sep_end(s, sep, i) <= s.len(),
    decreases s.len() - i,
{
    if i < s.len() && s[i] != sep {
        lemma_sep_end_range(s, sep, i + 1);
    }
}

/// The pieces of `s[i..]`, split on the separator.
pub open spec fn split_from(s: Seq<char>, sep: char, i: int) -> Seq<Seq<char>>
    decreases s.len() - i,
    via split_from_dec
{
    if i < 0 || i > s.len() {
        Seq::empty()
    } else {
        let p = sep_end(s, sep, i);
        if p >= s.len() {
            seq![s.subrange(i, s.len() as int)]
        } else {
            seq![s.subrange(i, p)] + split_from(s, sep, p + 1)
        }
    }
}

#[via_fn]
proof fn split_from_dec(s: Seq<char>, sep: char, i: int) {
    if 0 <= i && i <= s.len() {
        lemma_sep_end_range(s, sep, i);
    }
}

/// The pieces of the text, split on the separator, as `str::split` cuts
/// it: an empty text gives one empty piece.
pub open spec fn spec_split(s: Seq<char>, sep: char) -> Seq<Seq<char>> {
    split_from(s, sep, 0)
}

/// The paths at which the daemon executable may sit under one search-path
/// variable: each directory named by the variable, the separator between
/// them, with `/` and the executable name appended.
pub fn search_path_candidates(path_var: &str, separator: char, name: &str) -> (r: Vec<String>)
    ensures
        r@.len() == spec_split(path_var@, separator).len(),
        forall|k: int| 0 <= k < r@.len() ==> #[trigger] r@[k]@ == spec_split(
            path_var@,
            separator,
        )[k] + "/"@ + name@,
{
    let cs = crate::json::str_chars(path_var);
    candidates_from(&cs, separator, 0, name, Ghost(path_var@))
}

fn candidates_from(cs: &Vec<char>, sep: char, i: usize, name: &str, full: Ghost<Seq<char>>) -> (r:
    Vec<String>)
    requires
        i <= cs@.len(),
        cs@ == full@,
    ensures
        r@.len() == split_from(full@, sep, i as int).len(),
        forall|k: int| 0 <= k < r@.len() ==> #[trigger] r@[k]@ == split_from(
            full@,
            sep,
            i as int,
        )[k] + "/"@ + name@,
    decreases cs@.len() - i,
{
    let n = cs.len();
    let mut p = i;
    while p < n && cs[p] != sep
        invariant
            i <= p <= n,
            n == cs@.len(),
            sep_end(cs@, sep, i as int) == sep_end(cs@, sep, p as int),
        decreases n - p,
    {
        p += 1;
    }
    let mut piece: Vec<char> = Vec::new();
    let mut k = i;
    while k < p
        invariant
            i <= k <= p <= n,
            n == cs@.len(),
            piece@ == cs@.subrange(i as int, k as int),
        decreases p - k,
    {
        piece.push(cs[k]);
        proof {
            assert(piece@ =~= cs@.subrange(i as int, k as int + 1));
        }
        k += 1;
    }
    let mut candidate = crate::json::chars_to_string(&piece);
    candidate.append("/");
    candidate.append(name);
    if p >= n {
        let mut out: Vec<String> = Vec::new();
        out.push(candidate);
        proof {
            assert(split_from(full@, sep, i as int) =~= seq![
                full@.subrange(i as int, full@.len() as int),
            ]);
        }
        out
    } else {
        let mut out = candidates_from(cs, sep, p + 1, name, full);
        out.insert(0, candidate);
        proof {
            let sp = split_from(full@, sep, i as int);
            assert(sp == seq![full@.subrange(i as int, p as int)] + split_from(
                full@,
                sep,
                p as int + 1,
            ));
            assert forall|t: int| 0 <= t < out@.len() implies #[trigger] out@[t]@ == sp[t] + "/"@
                + name@ by {
                if t == 0 {
                    assert(sp[0] == full@.subrange(i as int, p as int));
                } else {
                    assert(sp[t] == split_from(full@, sep, p as int + 1)[t - 1]);
                    assert(out@[t] == out@.subrange(1, out@.len() as int)[t - 1]);
                }
            }
        }
        out
    }
}

/// The error owed when no daemon executable can be found.
pub fn daemon_not_found_error(name: &str) -> (e: CliError)
    ensures
        e@ == ErrorView::DaemonNotRunning(
            "'"@ + name@
                + "' executable not found. Ensure it is in the same directory as 'tab' or in your PATH."@,
        ),
{
    let mut text = String::from_str("'");
    text.append(name);
    text.append(
        "' executable not found. Ensure it is in the same directory as 'tab' or in your PATH.",
    );
    CliError::DaemonNotRunning(text)
}

} // verus!
