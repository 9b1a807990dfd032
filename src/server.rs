use vstd::prelude::*;
use crate::difficulty::exp2;

verus! {

/// Waits before the remaining sessions are shut down by force.
pub const SHUTDOWN_WAITS: u32 = 7;

/// What the server does next while it drains its sessions.
#[derive(Clone, Copy, Debug, PartialEq, Eq, Structural)]
pub enum ShutdownAction {
    /// No session is left: go on to the global tasks.
    Done,
    /// Wait this many seconds, then count the sessions again.
    Wait(u64),
    /// Waiting is over: shut every remaining session down.
    ForceShutdown,
}

/// The drain step after `attempt` waits with `sessions` still open: done
/// when none is left, else a wait of 1, 2, 4, ... 64 seconds, and after
/// the seventh wait a forced shutdown.
pub fn next_shutdown_step(sessions: usize, attempt: u32) -> (r: ShutdownAction)
    ensures
        sessions == 0 ==> r == ShutdownAction::Done,
        sessions > 0 && attempt < SHUTDOWN_WAITS ==> r == ShutdownAction::Wait(
            exp2(attempt as nat) as u64,
        ),
        sessions > 0 && attempt >= SHUTDOWN_WAITS ==> r == ShutdownAction::ForceShutdown,
{
    if sessions == 0 {
        return ShutdownAction::Done;
    }
    if attempt >= SHUTDOWN_WAITS {
        return ShutdownAction::ForceShutdown;
    }
    let mut secs: u64 = 1;
    let mut k: u32 = 0;
    while k < attempt
        invariant
            k <= attempt < SHUTDOWN_WAITS,
            secs == exp2(k as nat),
            secs <= 64,
        decreases attempt - k,
    {
        proof {
            reveal_with_fuel(exp2, 8);
            assert(exp2((k + 1) as nat) == 2 * exp2(k as nat));
            if k + 1 < SHUTDOWN_WAITS {
                assert(k <= 5);
            }
            lemma_exp2_le_32(k as nat);
        }
        secs = secs * 2;
        k = k + 1;
    }
    ShutdownAction::Wait(secs)
}

proof fn lemma_exp2_le_32(k: nat)
    requires
        k <= 5,
    ensures
        exp2(k) <= 32,
{
    reveal_with_fuel(exp2, 7);
}

/// Whether a session list of `len` sessions is full: only when a cap is
/// set and reached.
pub fn at_capacity(len: usize, max_connections: Option<usize>) -> (r: bool)
    ensures
        r == (max_connections is Some && len >= max_connections->0),
{
    match max_connections {
        Some(max) => len >= max,
        None => false,
    }
}

} // verus!
