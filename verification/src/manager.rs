//! Test manager decisions: drive one test to completion.
//!
//! The manager samples interval statistics roughly once a second while the
//! test duration has not elapsed, then tells the engine to stop and joins
//! its task.  The waiting itself is the runtime's business; the decision of
//! what to do at a given instant is taken here, over plain timestamps.

use vstd::prelude::*;

use crate::messages::EndCondition;
use crate::messages::TestDuration;
use crate::token_bucket::NANOS_PER_SEC;

verus! {

/// What the manager does at an instant: take an interval sample, keep
/// waiting, or finish the test (send `Done`, join the engine task).
#[derive(Debug, Clone, Copy, PartialEq, Eq, Structural)]
pub enum ManagerAction {
    Sample,
    Wait,
    Finish,
}

/// A duration in nanoseconds.
pub open spec fn duration_nanos_spec(d: TestDuration) -> int {
    d.secs * (NANOS_PER_SEC as int) + d.nanos
}

/// The manager's decision at `now`: finish once the duration has elapsed
/// since the test started; otherwise sample when more than one second has
/// passed since the current interval began; otherwise wait.  Differences
/// are signed, so an instant before a stamp counts as no elapsed time.
pub open spec fn manager_decision(
    now: u64,
    test_start: u64,
    current_interval: u64,
    duration: u64,
) -> ManagerAction {
    if now - test_start >= duration {
        ManagerAction::Finish
    } else if now - current_interval > NANOS_PER_SEC {
        ManagerAction::Sample
    } else {
        ManagerAction::Wait
    }
}

/// The nanosecond length of a test's end condition.  Only the time variant
/// is enforced by the loop; selecting the byte-count variant is a hard
/// failure in the caller and is ruled out here.
pub fn duration_nanos(end_condition: EndCondition) -> (r: u64)
    requires
        end_condition matches EndCondition::Time(d) && duration_nanos_spec(d) <= u64::MAX,
    ensures
        end_condition matches EndCondition::Time(d) && r == duration_nanos_spec(d),
{
    match end_condition {
        EndCondition::Time(d) => d.secs * NANOS_PER_SEC + (d.nanos as u64),
        EndCondition::Bytes(_) => {
            proof {
                assert(false);
            }
            0
        },
    }
}

/// One manager decision, taken against explicit timestamps.
pub fn next_action(now: u64, test_start: u64, current_interval: u64, duration: u64) -> (a:
    ManagerAction)
    ensures
        a == manager_decision(now, test_start, current_interval, duration),
{
    if now >= test_start && now - test_start >= duration {
        ManagerAction::Finish
    } else if now >= current_interval && now - current_interval > NANOS_PER_SEC {
        ManagerAction::Sample
    } else {
        ManagerAction::Wait
    }
}

} // verus!
