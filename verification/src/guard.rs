//! The port guard: the plan for making the backend's TCP port free before a
//! bind, and the bounded polling that follows.
//!
//! The caller probes the port and performs the planned actions; every
//! decision is taken here. Exhausting the polling budget is not fatal: the
//! caller proceeds and lets the subsequent bind fail loudly if the port is
//! still taken.

use vstd::prelude::*;
use vstd::string::StringExecFns;

verus! {

/// How long the guard waits after a graceful shutdown request, in
/// milliseconds.
pub const GRACE_DELAY_MS: u64 = 500;

/// The fixed interval between port re-probes, in milliseconds.
pub const POLL_INTERVAL_MS: u64 = 100;

/// The fixed polling budget: how many re-probes may follow the reclaim.
pub const MAX_POLL_ATTEMPTS: u32 = 30;

/// The actions that free a busy port, in run order: optionally a graceful
/// shutdown request over the wire protocol, optionally a forced kill of
/// whatever owns the port, then a bounded number of re-probes.
#[derive(Clone, Copy, PartialEq, Eq, Structural, Debug)]
pub struct PortReclaimPlan {
    /// Send the wire-protocol shutdown request, then wait `GRACE_DELAY_MS`.
    pub graceful_shutdown: bool,
    /// Enumerate and kill every process bound to the port.
    pub force_kill: bool,
    /// How many times to re-probe, waiting `POLL_INTERVAL_MS` before each.
    pub poll_attempts: u32,
}

/// What `port_free_plan` decides, as a function of the first probe.
pub open spec fn spec_port_free_plan(port: u16, busy: bool, can_force_kill: bool) -> PortReclaimPlan {
    PortReclaimPlan {
        graceful_shutdown: busy && port == crate::BACKEND_PORT,
        force_kill: busy && can_force_kill,
        poll_attempts: if busy {
            MAX_POLL_ATTEMPTS
        } else {
            0
        },
    }
}

/// Plans the freeing of `port`, given whether the first probe found it busy
/// and whether the host platform supports forcibly killing the owner.
///
/// A graceful shutdown is only attempted on the backend's own well-known
/// port: nothing else speaks the wire protocol.
pub fn port_free_plan(port: u16, busy: bool, can_force_kill: bool) -> (r: PortReclaimPlan)
    ensures
        r == spec_port_free_plan(port, busy, can_force_kill),
{
    if busy {
        PortReclaimPlan {
            graceful_shutdown: port == crate::BACKEND_PORT,
            force_kill: can_force_kill,
            poll_attempts: MAX_POLL_ATTEMPTS,
        }
    } else {
        PortReclaimPlan { graceful_shutdown: false, force_kill: false, poll_attempts: 0 }
    }
}

/// Law: freeing an already-free port is a no-op — no shutdown request, no
/// forced kill, and no polling retries are planned, whatever the port and
/// platform.
pub proof fn lemma_free_port_plan_is_noop(port: u16, can_force_kill: bool)
    ensures
        spec_port_free_plan(port, false, can_force_kill) == (PortReclaimPlan {
            graceful_shutdown: false,
            force_kill: false,
            poll_attempts: 0,
        }),
{
}

/// The outcome of one polling step.
#[derive(Clone, Copy, PartialEq, Eq, Structural, Debug)]
pub enum PollOutcome {
    /// The port is free; stop polling.
    Free,
    /// Still busy; wait the fixed interval and probe again.
    Retry,
    /// Still busy and the budget is exhausted; proceed optimistically.
    GiveUp,
}

/// Decides one polling step from the probe result and the remaining budget.
pub fn poll_step(remaining: u32, busy: bool) -> (r: PollOutcome)
    ensures
        r is Free <==> !busy,
        r is Retry <==> (busy && remaining > 0),
        r is GiveUp <==> (busy && remaining == 0),
{
    if !busy {
        PollOutcome::Free
    } else if remaining > 0 {
        PollOutcome::Retry
    } else {
        PollOutcome::GiveUp
    }
}

/// The minimal plaintext shutdown request of the wire protocol: posted to
/// the `/shutdown` path of the well-known local endpoint, no body.
pub fn shutdown_request() -> (r: String)
    ensures
        r@ == "POST /shutdown HTTP/1.1\r\nHost: 127.0.0.1\r\nContent-Length: 0\r\n\r\n"@,
{
    String::from_str("POST /shutdown HTTP/1.1\r\nHost: 127.0.0.1\r\nContent-Length: 0\r\n\r\n")
}

} // verus!
