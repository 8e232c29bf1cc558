//! The worker's poll-loop state machine.  Each tick takes the lock,
//! advances the connection state, and tells the surrounding loop what to
//! do outside the lock: drop the handle, idle, read a line, or try to
//! open the configured port.  The loop itself, and all transport I/O,
//! live outside this crate.

use crate::config::{Config, LinkState};
use vstd::prelude::*;

verus! {

/// What the worker loop must do after one transition, outside the lock.
#[derive(Debug)]
pub enum WorkerCmd {
    /// Drop any open handle (a no-op if none is open).
    DropHandle,
    /// Nothing to do; take the long idle delay.
    Idle,
    /// Attempt one line read from the open handle.
    ReadLine,
    /// Attempt to open this device at this baud rate, then report the
    /// outcome through `open_finished`.
    Open { port: Vec<u8>, baud: u32 },
}

/// The state a tick moves to before any I/O outcome is known: `Stopped`
/// tears down into `Sleeping`; every other state awaits its command's
/// outcome.
pub open spec fn pre_tick(s: LinkState) -> LinkState {
    match s {
        LinkState::Stopped => LinkState::Sleeping,
        _ => s,
    }
}

/// The state one whole poll tick reaches from `s` when an attempted open
/// would succeed exactly when `open_ok` holds.
pub open spec fn tick_next(s: LinkState, open_ok: bool) -> LinkState {
    match s {
        LinkState::Stopped => LinkState::Sleeping,
        LinkState::Sleeping => LinkState::Sleeping,
        LinkState::Active => LinkState::Active,
        LinkState::Reconfiguring => if open_ok {
            LinkState::Active
        } else {
            LinkState::Reconfiguring
        },
    }
}

/// One state transition, taken with the lock held.  `Stopped` orders the
/// handle dropped and moves to `Sleeping`; `Sleeping` orders a long idle;
/// `Active` orders a line read; `Reconfiguring` orders an open of the
/// configured port at the configured baud rate.  Port and baud rate are
/// never changed here.
pub fn worker_step(config: &mut Config) -> (cmd: WorkerCmd)
    ensures
        final(config).state == pre_tick(old(config).state),
        final(config).baud_rate == old(config).baud_rate,
        final(config).port_name@ == old(config).port_name@,
        old(config).state == LinkState::Stopped ==> cmd matches WorkerCmd::DropHandle,
        old(config).state == LinkState::Sleeping ==> cmd matches WorkerCmd::Idle,
        old(config).state == LinkState::Active ==> cmd matches WorkerCmd::ReadLine,
        old(config).state == LinkState::Reconfiguring ==> (cmd matches WorkerCmd::Open {
            port,
            baud,
        } && port@ == old(config).port_name@ && baud == old(config).baud_rate),
{
    match config.state {
        LinkState::Stopped => {
            config.state = LinkState::Sleeping;
            WorkerCmd::DropHandle
        },
        LinkState::Sleeping => WorkerCmd::Idle,
        LinkState::Active => WorkerCmd::ReadLine,
        LinkState::Reconfiguring => {
            let port = crate::bytes::subrange_vec(&config.port_name, 0, config.port_name.len());
            proof {
                assert(port@ =~= config.port_name@);
            }
            WorkerCmd::Open { port, baud: config.baud_rate }
        },
    }
}

/// Report the outcome of the open a `WorkerCmd::Open` ordered: success
/// advances to `Active`, failure stays in `Reconfiguring` so the next
/// tick retries.
pub fn open_finished(config: &mut Config, ok: bool)
    requires
        old(config).state == LinkState::Reconfiguring,
    ensures
        final(config).state == (if ok {
            LinkState::Active
        } else {
            LinkState::Reconfiguring
        }),
        final(config).baud_rate == old(config).baud_rate,
        final(config).port_name@ == old(config).port_name@,
{
    if ok {
        config.state = LinkState::Active;
    }
}

/// How long the loop should sleep after a tick, in nanoseconds: a long
/// pause only when the tick had nothing to do, a minimal yield otherwise.
pub fn idle_delay_nanos(cmd: &WorkerCmd) -> (r: u64)
    ensures
        r == (if (cmd matches WorkerCmd::Idle) {
            100000000u64
        } else {
            1u64
        }),
{
    match cmd {
        WorkerCmd::Idle => 100000000,
        _ => 1,
    }
}

/// A whole poll tick is `worker_step` followed, in `Reconfiguring`, by
/// `open_finished`: from any state it reaches `tick_next`.  In
/// particular, after `activate` (state `Reconfiguring`) a tick whose open
/// succeeds reaches `Active`, and from `Stopped` a tick always reaches
/// `Sleeping`.
pub proof fn lemma_tick_composes(s: LinkState, open_ok: bool)
    ensures
        s != LinkState::Reconfiguring ==> tick_next(s, open_ok) == pre_tick(s),
        s == LinkState::Reconfiguring && open_ok ==> tick_next(s, open_ok) == LinkState::Active,
        s == LinkState::Reconfiguring && !open_ok ==> tick_next(s, open_ok)
            == LinkState::Reconfiguring,
        tick_next(LinkState::Stopped, open_ok) == LinkState::Sleeping,
{
}

} // verus!
