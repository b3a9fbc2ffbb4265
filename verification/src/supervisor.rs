//! The decisions of the in-process relay supervisor: which policies a relay is
//! built with, the running/stopped state and its uptime, and how often a
//! restart retries binding. The relay itself, its database and its clock live
//! in the binary around this library.
use vstd::prelude::*;

use crate::config::{Config, Mode};

verus! {

/// Nanoseconds in one second.
pub const NANOS_PER_SEC: u64 = 1_000_000_000;

/// How many times a restart tries to bind the relay again.
pub const RESTART_ATTEMPTS: u32 = 10;

/// Milliseconds waited before each rebind attempt.
pub const REBIND_DELAY_MS: u64 = 200;

/// How a relay is to be built for a configuration.
#[derive(Debug, Clone, Copy, PartialEq, Eq, Structural)]
pub struct RelayPlan {
    /// Port to bind.
    pub port: u16,
    /// Attach a write policy that rejects every EVENT.
    pub reject_writes: bool,
    /// Attach a query policy that rejects every REQ.
    pub reject_queries: bool,
    /// Require NIP-42 authentication for reads and writes.
    pub nip42: bool,
}

/// The plan for a configuration: `Read` rejects writes, `Write` rejects
/// queries, `Both` restricts nothing; authentication follows `require_auth`.
pub open spec fn relay_plan_spec(port: u16, mode: Mode, require_auth: bool) -> RelayPlan {
    RelayPlan {
        port: port,
        reject_writes: mode == Mode::Read,
        reject_queries: mode == Mode::Write,
        nip42: require_auth,
    }
}

/// The policies a relay for `cfg` is built with.
pub fn relay_plan(cfg: &Config) -> (plan: RelayPlan)
    ensures
        plan == relay_plan_spec(cfg.port, cfg.mode, cfg.require_auth),
{
    let (reject_writes, reject_queries) = match cfg.mode {
        Mode::Read => (true, false),
        Mode::Write => (false, true),
        Mode::Both => (false, false),
    };
    RelayPlan { port: cfg.port, reject_writes, reject_queries, nip42: cfg.require_auth }
}

/// A point-in-time view of relay state for the API.
#[derive(Debug, Clone, Copy, PartialEq, Eq, Structural)]
pub struct Snapshot {
    pub running: bool,
    pub uptime_seconds: u64,
}

/// Whether the relay runs, and since when (nanoseconds on the supervisor's
/// monotonic clock). A start time is recorded exactly while the relay runs.
#[derive(Debug)]
pub struct RelayState {
    running: bool,
    started_at: Option<u64>,
}

/// Whole seconds elapsed from `start` to `now`; zero if the clock reads
/// earlier than `start`.
pub open spec fn elapsed_secs(start: u64, now: u64) -> u64 {
    if now >= start {
        ((now - start) / (NANOS_PER_SEC as int)) as u64
    } else {
        0
    }
}

impl RelayState {
    /// The relay runs exactly when a start time is recorded.
    #[verifier::type_invariant]
    spec fn wf(self) -> bool {
        self.running <==> self.started_at is Some
    }

    pub closed spec fn running_spec(self) -> bool {
        self.running
    }

    pub closed spec fn started_at_spec(self) -> Option<u64> {
        self.started_at
    }

    /// The snapshot reported at time `now`.
    pub open spec fn snapshot_spec(self, now: u64) -> Snapshot {
        Snapshot {
            running: self.running_spec(),
            uptime_seconds: match self.started_at_spec() {
                Some(t) => elapsed_secs(t, now),
                None => 0,
            },
        }
    }

    /// A supervisor that has not started a relay yet.
    pub fn new() -> (s: Self)
        ensures
            !s.running_spec(),
            s.started_at_spec() is None,
            forall|now: u64| #[trigger] s.snapshot_spec(now) == (Snapshot { running: false, uptime_seconds: 0 }),
    {
        RelayState { running: false, started_at: None }
    }

    /// Record that a relay was started at `now`.
    pub fn mark_started(&mut self, now: u64)
        ensures
            final(self).running_spec(),
            final(self).started_at_spec() == Some(now),
            forall|later: u64|
                #[trigger] final(self).snapshot_spec(later) == (Snapshot {
                    running: true,
                    uptime_seconds: elapsed_secs(now, later),
                }),
    {
        *self = RelayState { running: true, started_at: Some(now) };
    }

    /// Record that the relay was shut down.
    pub fn mark_stopped(&mut self)
        ensures
            !final(self).running_spec(),
            final(self).started_at_spec() is None,
            forall|later: u64|
                #[trigger] final(self).snapshot_spec(later) == (Snapshot {
                    running: false,
                    uptime_seconds: 0,
                }),
    {
        *self = RelayState { running: false, started_at: None };
    }

    /// Whether the relay runs.
    pub fn is_running(&self) -> (b: bool)
        ensures
            b == self.running_spec(),
            b <==> self.started_at_spec() is Some,
    {
        proof {
            use_type_invariant(self);
        }
        self.running
    }

    /// Current relay state for the API, at time `now`. Whatever calls led
    /// here, a relay that does not run reports no uptime.
    pub fn snapshot(&self, now: u64) -> (snap: Snapshot)
        ensures
            snap == self.snapshot_spec(now),
            !snap.running ==> snap.uptime_seconds == 0,
    {
        proof {
            use_type_invariant(self);
        }
        let uptime = match self.started_at {
            Some(t) => if now >= t {
                (now - t) / NANOS_PER_SEC
            } else {
                0
            },
            None => 0,
        };
        Snapshot { running: self.running, uptime_seconds: uptime }
    }
}

/// What a restart does after one bind attempt.
#[derive(Debug, Clone, Copy, PartialEq, Eq, Structural)]
pub enum RestartStep {
    /// The relay is up again.
    Done,
    /// Wait, then try again; this is the number of the next attempt (from 0).
    Retry(u32),
    /// All attempts failed; report the last error.
    GiveUp,
}

/// The step after attempt `attempt` (counted from 0) succeeded or failed.
pub open spec fn restart_step_spec(attempt: u32, succeeded: bool) -> RestartStep {
    if succeeded {
        RestartStep::Done
    } else if attempt + 1 < RESTART_ATTEMPTS {
        RestartStep::Retry((attempt + 1) as u32)
    } else {
        RestartStep::GiveUp
    }
}

/// Decide what follows bind attempt `attempt` of a restart.
pub fn restart_step(attempt: u32, succeeded: bool) -> (step: RestartStep)
    requires
        attempt < RESTART_ATTEMPTS,
    ensures
        step == restart_step_spec(attempt, succeeded),
{
    if succeeded {
        RestartStep::Done
    } else if attempt + 1 < RESTART_ATTEMPTS {
        RestartStep::Retry(attempt + 1)
    } else {
        RestartStep::GiveUp
    }
}

/// A restart that keeps failing makes exactly `RESTART_ATTEMPTS` attempts:
/// every attempt before the last is followed by the next one, and a failure of
/// the last gives up.
pub proof fn lemma_restart_attempts(attempt: u32)
    requires
        attempt < RESTART_ATTEMPTS,
    ensures
        attempt + 1 < RESTART_ATTEMPTS ==> restart_step_spec(attempt, false) == RestartStep::Retry(
            (attempt + 1) as u32,
        ),
        attempt + 1 == RESTART_ATTEMPTS ==> restart_step_spec(attempt, false)
            == RestartStep::GiveUp,
        restart_step_spec(attempt, true) == RestartStep::Done,
{
}

/// A running relay started at `t` reports, at any `now >= t`, the number of
/// whole seconds in `now - t`: that many seconds fit into the elapsed time and
/// one more does not. So the uptime never decreases while the relay runs and
/// grows without bound.
pub proof fn lemma_uptime_counts_whole_seconds(s: RelayState, t: u64, now: u64, later: u64)
    requires
        s.started_at_spec() == Some(t),
        t <= now <= later,
    ensures
        s.snapshot_spec(now).uptime_seconds * NANOS_PER_SEC <= now - t,
        now - t < (s.snapshot_spec(now).uptime_seconds + 1) * NANOS_PER_SEC,
        s.snapshot_spec(now).uptime_seconds <= s.snapshot_spec(later).uptime_seconds,
{
    let x = (now - t) as int;
    let y = (later - t) as int;
    let d = NANOS_PER_SEC as int;
    assert(s.snapshot_spec(now).uptime_seconds == x / d);
    assert(s.snapshot_spec(later).uptime_seconds == y / d);
    assert((x / d) * d <= x < (x / d + 1) * d) by (nonlinear_arith)
        requires
            x >= 0,
            d == 1_000_000_000,
    ;
    assert(x / d <= y / d) by (nonlinear_arith)
        requires
            0 <= x <= y,
            d == 1_000_000_000,
    ;
}

/// A relay never rejects both events and queries; `Both` restricts nothing,
/// `Read` only events, `Write` only queries; the port and the
/// authentication requirement are passed through unchanged.
pub proof fn lemma_plan_restrictions(port: u16, mode: Mode, require_auth: bool)
    ensures
        !(relay_plan_spec(port, mode, require_auth).reject_writes && relay_plan_spec(
            port,
            mode,
            require_auth,
        ).reject_queries),
        mode == Mode::Both ==> !relay_plan_spec(port, mode, require_auth).reject_writes
            && !relay_plan_spec(port, mode, require_auth).reject_queries,
        mode == Mode::Read ==> relay_plan_spec(port, mode, require_auth).reject_writes,
        mode == Mode::Write ==> relay_plan_spec(port, mode, require_auth).reject_queries,
        relay_plan_spec(port, mode, require_auth).port == port,
        relay_plan_spec(port, mode, require_auth).nip42 == require_auth,
{
}

} // verus!
