//! The rendezvous: an agent counts as arrived once its last known position
//! lies within a threshold of the place it was sent to. The wait has an end:
//! the caller says how long it may last.

use vstd::prelude::*;
use crate::flight::projection::LocalPoint;

verus! {

/// What a look at the agent's position says about the wait.
#[derive(Debug, Clone, Copy, PartialEq, Eq, Structural)]
pub enum WaitOutcome {
    /// The agent is within the threshold of its target.
    Reached,
    /// The agent is not there, or has not reported a position yet, and the
    /// wait may go on.
    Waiting,
    /// The agent is not there, and the wait has lasted as long as it may.
    TimedOut,
}

/// Whether `position` lies within `threshold` millimetres of `target`, in
/// the plane.
pub open spec fn within(position: LocalPoint, target: LocalPoint, threshold: int) -> bool {
    (target.north - position.north) * (target.north - position.north) + (target.east
        - position.east) * (target.east - position.east) <= threshold * threshold
}

/// What a look at the agent's position says, after `waited` of at most
/// `timeout` milliseconds.
pub open spec fn outcome(
    position: Option<LocalPoint>,
    target: LocalPoint,
    threshold: int,
    waited: int,
    timeout: int,
) -> WaitOutcome {
    if position is Some && within(position->0, target, threshold) {
        WaitOutcome::Reached
    } else if waited >= timeout {
        WaitOutcome::TimedOut
    } else {
        WaitOutcome::Waiting
    }
}

/// Whether `position` lies within `threshold` millimetres of `target`.
pub fn has_reached(position: LocalPoint, target: LocalPoint, threshold: u32) -> (r: bool)
    ensures
        r == within(position, target, threshold as int),
{
    let dn: i64 = target.north as i64 - position.north as i64;
    let de: i64 = target.east as i64 - position.east as i64;
    proof {
        assert(0 <= dn * dn <= 0xffff_ffff * 0xffff_ffff) by (nonlinear_arith)
            requires
                -0xffff_ffff <= dn <= 0xffff_ffff,
        ;
        assert(0 <= de * de <= 0xffff_ffff * 0xffff_ffff) by (nonlinear_arith)
            requires
                -0xffff_ffff <= de <= 0xffff_ffff,
        ;
        assert(0 <= threshold * threshold <= 0xffff_ffff * 0xffff_ffff) by (nonlinear_arith)
            requires
                0 <= threshold <= 0xffff_ffff,
        ;
    }
    let squares: u128 = (dn as i128 * dn as i128) as u128 + (de as i128 * de as i128) as u128;
    let reach: u128 = threshold as u128 * threshold as u128;
    squares <= reach
}

/// One look at the agent's last known position, `waited` milliseconds into
/// a wait of at most `timeout`: whether the agent has arrived, the wait goes
/// on, or it has run out. An agent that has never reported a position has
/// not arrived.
pub fn poll_rendezvous(
    position: Option<LocalPoint>,
    target: LocalPoint,
    threshold: u32,
    waited: u64,
    timeout: u64,
) -> (r: WaitOutcome)
    ensures
        r == outcome(position, target, threshold as int, waited as int, timeout as int),
{
    let arrived: bool = match position {
        Some(at) => has_reached(at, target, threshold),
        None => false,
    };
    if arrived {
        WaitOutcome::Reached
    } else if waited >= timeout {
        WaitOutcome::TimedOut
    } else {
        WaitOutcome::Waiting
    }
}

/// An agent at its target has arrived, whatever the threshold.
pub proof fn lemma_at_target_is_reached(target: LocalPoint, threshold: int)
    ensures
        within(target, target, threshold),
{
    assert(0 <= threshold * threshold) by (nonlinear_arith);
}

/// A wider threshold keeps every agent that a narrower one lets through.
pub proof fn lemma_threshold_monotone(
    position: LocalPoint,
    target: LocalPoint,
    narrow: int,
    wide: int,
)
    requires
        0 <= narrow <= wide,
        within(position, target, narrow),
    ensures
        within(position, target, wide),
{
    assert(narrow * narrow <= wide * wide) by (nonlinear_arith)
        requires
            0 <= narrow <= wide,
    ;
}

} // verus!
