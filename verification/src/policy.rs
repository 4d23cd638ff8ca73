//! The gatekeeper's policy decision for an execution plan.
use vstd::prelude::*;

use crate::criteria::{
    default_patterns_spec, evaluate_criteria_with_config, evaluation_defined, plan_eval,
    plan_summary, CriteriaConfig, CriteriaPatterns, EvaluationStatus,
};
use crate::protocol::ExecutionPlan;

verus! {

#[derive(Debug, Clone, Copy, PartialEq, Eq, Structural)]
pub enum PolicyDecision {
    Delegable,
    NonDelegable,
}

pub open spec fn decision_of(status: EvaluationStatus) -> PolicyDecision {
    match status {
        EvaluationStatus::Delegable => PolicyDecision::Delegable,
        EvaluationStatus::NonDelegable => PolicyDecision::NonDelegable,
    }
}

/// The decision for `plan` under the pattern lists `cfg`.
pub open spec fn policy_spec(plan: ExecutionPlan, cfg: CriteriaPatterns) -> PolicyDecision {
    decision_of(plan_summary(plan.command_seqs(), cfg).1)
}

/// Decides the policy for `plan` under the shipped default patterns.
pub fn decide_policy(plan: &ExecutionPlan) -> (d: PolicyDecision)
    requires
        plan_eval(plan.command_seqs(), default_patterns_spec()) is Some,
    ensures
        d == policy_spec(*plan, default_patterns_spec()),
{
    decide_policy_with_config(plan, &CriteriaConfig::default_patterns())
}

/// Decides the policy for `plan` under an explicit criteria configuration.
pub fn decide_policy_with_config(plan: &ExecutionPlan, config: &CriteriaConfig) -> (d:
    PolicyDecision)
    requires
        plan_eval(plan.command_seqs(), config@) is Some,
    ensures
        d == policy_spec(*plan, config@),
{
    match evaluate_criteria_with_config(plan, config).status {
        EvaluationStatus::Delegable => PolicyDecision::Delegable,
        EvaluationStatus::NonDelegable => PolicyDecision::NonDelegable,
    }
}

/// The decision for `plan` under the default patterns when its evaluation is
/// defined; `None` when a scan reaches a pattern that does not compile.
pub fn try_decide_policy(plan: &ExecutionPlan) -> (d: Option<PolicyDecision>)
    ensures
        d is None <==> plan_eval(plan.command_seqs(), default_patterns_spec()) is None,
        d matches Some(x) ==> x == policy_spec(*plan, default_patterns_spec()),
{
    let config = CriteriaConfig::default_patterns();
    if evaluation_defined(plan, &config) {
        Some(decide_policy(plan))
    } else {
        None
    }
}

/// The decision for `plan` under `config` when its evaluation is defined.
pub fn try_decide_policy_with_config(plan: &ExecutionPlan, config: &CriteriaConfig) -> (d:
    Option<PolicyDecision>)
    ensures
        d is None <==> plan_eval(plan.command_seqs(), config@) is None,
        d matches Some(x) ==> x == policy_spec(*plan, config@),
{
    if evaluation_defined(plan, config) {
        Some(decide_policy_with_config(plan, config))
    } else {
        None
    }
}

} // verus!
