//! Delivery of branch results at the root: both results when the second
//! branch finishes in time, the first alone once the synchronisation timeout
//! has passed.
use vstd::prelude::*;

use crate::protocol::SubChatResult;
use crate::text::str_eq;
use crate::time::Duration;

verus! {

#[derive(Debug, Clone, PartialEq, Eq)]
pub enum DeliveryDecision {
    FullDelivery { primary: SubChatResult, secondary: SubChatResult },
    PartialDelivery { delivered: SubChatResult, dropped: Option<String> },
}

#[derive(Debug, Clone, PartialEq, Eq)]
pub struct BranchRunState {
    pub branch_a_result: Option<SubChatResult>,
    pub branch_b_result: Option<SubChatResult>,
}

/// The run state after `branch` reported `result`: branch `A` and `B` record
/// it, any other name changes nothing.
pub open spec fn marked(state: BranchRunState, branch: Seq<char>, result: SubChatResult) -> BranchRunState {
    if branch == "A"@ {
        BranchRunState { branch_a_result: Some(result), ..state }
    } else if branch == "B"@ {
        BranchRunState { branch_b_result: Some(result), ..state }
    } else {
        state
    }
}

/// Whether a delivery can be decided: a missing second result is only
/// acceptable once the timeout has passed.
pub open spec fn delivery_decidable(second: Option<SubChatResult>, elapsed: nat, timeout: nat) -> bool {
    second is Some || elapsed >= timeout
}

/// The delivery for a first result and an optional second one: both before
/// the timeout, the first alone (naming the dropped task, if any) after it.
pub open spec fn delivery_spec(
    first: SubChatResult,
    second: Option<SubChatResult>,
    elapsed: nat,
    timeout: nat,
) -> DeliveryDecision {
    if elapsed < timeout {
        DeliveryDecision::FullDelivery { primary: first, secondary: second.unwrap() }
    } else {
        DeliveryDecision::PartialDelivery {
            delivered: first,
            dropped: match second {
                Some(s) => Some(s.task_id),
                None => None,
            },
        }
    }
}

/// The result that the other branch has recorded, seen from `branch`.
pub open spec fn other_result(state: BranchRunState, branch: Seq<char>) -> Option<SubChatResult> {
    if branch == "A"@ {
        state.branch_b_result
    } else {
        state.branch_a_result
    }
}

/// Whether `record_and_decide` can decide on these inputs.
pub open spec fn record_decidable(
    state: BranchRunState,
    branch: Seq<char>,
    result: SubChatResult,
    elapsed: nat,
    timeout: nat,
) -> bool {
    let m = marked(state, branch, result);
    (m.branch_a_result is Some && m.branch_b_result is Some) || delivery_decidable(
        other_result(m, branch),
        elapsed,
        timeout,
    )
}

/// The decision of `record_and_decide`.
pub open spec fn record_spec(
    state: BranchRunState,
    branch: Seq<char>,
    result: SubChatResult,
    elapsed: nat,
    timeout: nat,
) -> DeliveryDecision {
    let m = marked(state, branch, result);
    if m.branch_a_result is Some && m.branch_b_result is Some {
        DeliveryDecision::FullDelivery {
            primary: m.branch_a_result.unwrap(),
            secondary: m.branch_b_result.unwrap(),
        }
    } else {
        delivery_spec(result, other_result(m, branch), elapsed, timeout)
    }
}

impl BranchRunState {
    pub fn new() -> (s: BranchRunState)
        ensures
            s.branch_a_result is None,
            s.branch_b_result is None,
    {
        BranchRunState { branch_a_result: None, branch_b_result: None }
    }

    pub fn mark_finished(&mut self, branch: &str, result: SubChatResult)
        ensures
            *final(self) == marked(*old(self), branch@, result),
    {
        if str_eq(branch, "A") {
            self.branch_a_result = Some(result);
        } else if str_eq(branch, "B") {
            self.branch_b_result = Some(result);
        }
    }

    pub fn wipe(&mut self)
        ensures
            final(self).branch_a_result is None,
            final(self).branch_b_result is None,
    {
        self.branch_a_result = None;
        self.branch_b_result = None;
    }
}

/// Decides the delivery of a first result and an optional second one. The
/// caller must not ask before the timeout while the second is missing.
pub fn resolve_delivery(
    first_result: SubChatResult,
    second_result: Option<SubChatResult>,
    elapsed: Duration,
    timeout: Duration,
) -> (d: DeliveryDecision)
    requires
        elapsed.wf(),
        timeout.wf(),
        delivery_decidable(second_result, elapsed@, timeout@),
    ensures
        d == delivery_spec(first_result, second_result, elapsed@, timeout@),
{
    let in_time = elapsed.is_less_than(&timeout);
    match second_result {
        Some(second) => {
            if in_time {
                DeliveryDecision::FullDelivery { primary: first_result, secondary: second }
            } else {
                DeliveryDecision::PartialDelivery {
                    delivered: first_result,
                    dropped: Some(second.task_id),
                }
            }
        },
        None => DeliveryDecision::PartialDelivery { delivered: first_result, dropped: None },
    }
}

/// The delivery once the wait for the second branch is over: both results
/// when the second arrived, else the first alone with nothing named as
/// dropped. The caller waits briefly in the first case and for the whole
/// timeout in the second.
pub fn completion_delivery(first_result: SubChatResult, second_result: Option<SubChatResult>) -> (d:
    DeliveryDecision)
    ensures
        second_result matches Some(s) ==> d == (DeliveryDecision::FullDelivery {
            primary: first_result,
            secondary: s,
        }),
        second_result is None ==> d == (DeliveryDecision::PartialDelivery {
            delivered: first_result,
            dropped: None,
        }),
{
    match second_result {
        Some(second) => DeliveryDecision::FullDelivery { primary: first_result, secondary: second },
        None => DeliveryDecision::PartialDelivery { delivered: first_result, dropped: None },
    }
}

/// Records `branch`'s result and decides the delivery; the run state is
/// wiped afterwards either way.
pub fn record_and_decide(
    state: &mut BranchRunState,
    branch: &str,
    result: SubChatResult,
    elapsed: Duration,
    timeout: Duration,
) -> (d: DeliveryDecision)
    requires
        elapsed.wf(),
        timeout.wf(),
        record_decidable(*old(state), branch@, result, elapsed@, timeout@),
    ensures
        d == record_spec(*old(state), branch@, result, elapsed@, timeout@),
        final(state).branch_a_result is None,
        final(state).branch_b_result is None,
{
    let kept = result.copy();
    state.mark_finished(branch, result);
    let a = state.branch_a_result.take();
    let b = state.branch_b_result.take();
    match (a, b) {
        (Some(primary), Some(secondary)) => DeliveryDecision::FullDelivery { primary, secondary },
        (a, b) => {
            let other = if str_eq(branch, "A") {
                b
            } else {
                a
            };
            resolve_delivery(kept, other, elapsed, timeout)
        },
    }
}

} // verus!
