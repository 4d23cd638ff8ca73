//! The daemon's decisions: routing branch sub-chat requests, the gatekeeper
//! verdict for each maestro plan, and the table of tracked tasks that the
//! timeout sweep, the owner's decisions and execution results move along.
use vstd::prelude::*;

use crate::channels::ChannelName;
use crate::criteria::{default_patterns_spec, evaluation_defined, plan_eval, CriteriaConfig};
use crate::policy::{decide_policy, policy_spec, PolicyDecision};
use crate::protocol::{
    ExecutionOutcome, ExecutionPlan, MaestroMessage, SubChatOpenRequest, SubChatResult,
    TaskQueryResult, TaskResolved, TaskStatus, TaskSubmitAck,
};
use crate::subchat::{Branch, BranchName, SubChatError};
use crate::text::str_eq;
use crate::time::{Duration, Instant};
use crate::timers::{default_gatekeeper_timeout, gatekeeper_timeout_from, timeout_secs_from};

verus! {

#[derive(Debug, Clone, PartialEq, Eq)]
pub enum LoopError {
    SubChat(SubChatError),
    NoBranch(ChannelName),
    UnsupportedMessage(ChannelName),
    TaskNotFound(String),
    InvalidMessageType,
    ExecutionError(String),
}

/// The two execution branches, each with its own sub-chat counter.
#[derive(Debug)]
pub struct BranchRegistry {
    pub branch_a: Branch,
    pub branch_b: Branch,
}

impl BranchRegistry {
    pub fn new(task_id: String) -> (r: BranchRegistry)
        ensures
            r.branch_a.name == BranchName::A,
            r.branch_b.name == BranchName::B,
            r.branch_a.task_id@ == task_id@,
            r.branch_b.task_id@ == task_id@,
            r.branch_a.sub_chat_counter == 0,
            r.branch_b.sub_chat_counter == 0,
            r.branch_a.master_message@.len() == 0,
            r.branch_b.master_message@.len() == 0,
    {
        BranchRegistry {
            branch_a: Branch::new(BranchName::A, task_id.clone()),
            branch_b: Branch::new(BranchName::B, task_id),
        }
    }
}

/// Routes a sub-chat request received on a branch channel to that branch;
/// the maestro channel has no branch. The branch's own answer (including
/// its call index) is passed on unchanged, and the other branch is not
/// touched.
pub fn route_branch_request(
    registry: &mut BranchRegistry,
    channel: ChannelName,
    request: &SubChatOpenRequest,
) -> (r: Result<SubChatResult, LoopError>)
    ensures
        route_post(*old(registry), *final(registry), channel, *request, r),
{
    match channel {
        ChannelName::PrivateA => {
            let res = registry.branch_a.open_sub_chat(request);
            assert(open_sub_chat_result(res));
            lift_exec(res)
        },
        ChannelName::PrivateB => {
            let res = registry.branch_b.open_sub_chat(request);
            assert(open_sub_chat_result(res));
            lift_exec(res)
        },
        ChannelName::PublicMaestro => Err(LoopError::NoBranch(ChannelName::PublicMaestro)),
    }
}

/// What routing `request` from `channel` does: the maestro channel has no
/// branch; a branch channel hands the request to its branch, leaves the
/// other branch alone and passes the branch's answer on.
pub open spec fn route_post(
    before: BranchRegistry,
    after: BranchRegistry,
    channel: ChannelName,
    request: SubChatOpenRequest,
    r: Result<SubChatResult, LoopError>,
) -> bool {
    &&& channel == ChannelName::PublicMaestro ==> after == before && r == Err::<
        SubChatResult,
        LoopError,
    >(LoopError::NoBranch(ChannelName::PublicMaestro))
    &&& channel == ChannelName::PrivateA ==> after.branch_b == before.branch_b && exists|
        res: Result<SubChatResult, SubChatError>,
    |
        #![trigger open_sub_chat_result(res)]
        open_sub_chat_result(res) && open_sub_chat_post(before.branch_a, request, after.branch_a, res)
            && r == lift(res)
    &&& channel == ChannelName::PrivateB ==> after.branch_a == before.branch_a && exists|
        res: Result<SubChatResult, SubChatError>,
    |
        #![trigger open_sub_chat_result(res)]
        open_sub_chat_result(res) && open_sub_chat_post(before.branch_b, request, after.branch_b, res)
            && r == lift(res)
}

/// A trigger for the branch's result in `route_branch_request`.
pub open spec fn open_sub_chat_result(res: Result<SubChatResult, SubChatError>) -> bool {
    true
}

/// What `Branch::open_sub_chat` promises of a call from `before` to `after`.
pub open spec fn open_sub_chat_post(
    before: Branch,
    request: SubChatOpenRequest,
    after: Branch,
    r: Result<SubChatResult, SubChatError>,
) -> bool {
    &&& request.task_id@ != before.task_id@ ==> after == before && r == Err::<
        SubChatResult,
        SubChatError,
    >(SubChatError::InvalidTaskId(request.task_id))
    &&& request.task_id@ == before.task_id@ && before.sub_chat_counter
        >= crate::subchat::SUB_CHAT_LIMIT ==> after == before && r == Err::<
        SubChatResult,
        SubChatError,
    >(SubChatError::SubChatLimitExceeded { task_id: before.task_id })
    &&& request.task_id@ == before.task_id@ && before.sub_chat_counter
        < crate::subchat::SUB_CHAT_LIMIT ==> {
        &&& after.name == before.name
        &&& after.task_id == before.task_id
        &&& after.master_message == before.master_message
        &&& after.sub_chat_counter == before.sub_chat_counter + 1
        &&& r matches Ok(res) && res.task_id@ == before.task_id@ && res.call_index
            == before.sub_chat_counter && res.status@ == "success"@ && res.result@
            == crate::subchat::sub_chat_text(
            before.name,
            before.sub_chat_counter as nat,
            crate::subchat::merged_prompt(before.master_message@, request.prompt@),
        )
    }
}

/// A branch error as a loop error.
pub open spec fn lift(r: Result<SubChatResult, SubChatError>) -> Result<SubChatResult, LoopError> {
    match r {
        Ok(v) => Ok(v),
        Err(e) => Err(LoopError::SubChat(e)),
    }
}

fn lift_exec(r: Result<SubChatResult, SubChatError>) -> (l: Result<SubChatResult, LoopError>)
    ensures
        l == lift(r),
{
    match r {
        Ok(v) => Ok(v),
        Err(e) => Err(LoopError::SubChat(e)),
    }
}

/// How the gatekeeper handles a maestro plan.
#[derive(Debug, Clone, Copy, PartialEq, Eq, Structural)]
pub enum GatekeeperVerdict {
    /// A delegable plan still inside the auto-approval window.
    PendingTimeout,
    /// A delegable plan whose window has elapsed: auto-approved.
    AutoApproved,
    /// A non-delegable plan, held for the owner however long it waits.
    HeldForManualApproval,
}

/// The verdict for a decision after `elapsed` under the delegation `timeout`.
pub open spec fn verdict_spec(decision: PolicyDecision, elapsed: nat, timeout: nat) -> GatekeeperVerdict {
    match decision {
        PolicyDecision::Delegable => if elapsed >= timeout {
            GatekeeperVerdict::AutoApproved
        } else {
            GatekeeperVerdict::PendingTimeout
        },
        PolicyDecision::NonDelegable => GatekeeperVerdict::HeldForManualApproval,
    }
}

/// Applies the timeout policy to a decision: a delegable plan is approved
/// once `elapsed` reaches `timeout`; a non-delegable one is always held.
pub fn apply_gatekeeper_policy(decision: PolicyDecision, elapsed: Duration, timeout: Duration) -> (v:
    GatekeeperVerdict)
    requires
        elapsed.wf(),
        timeout.wf(),
    ensures
        v == verdict_spec(decision, elapsed@, timeout@),
{
    match decision {
        PolicyDecision::Delegable => {
            if elapsed.is_at_least(&timeout) {
                GatekeeperVerdict::AutoApproved
            } else {
                GatekeeperVerdict::PendingTimeout
            }
        },
        PolicyDecision::NonDelegable => GatekeeperVerdict::HeldForManualApproval,
    }
}

/// The task status that a verdict records.
pub open spec fn status_for(v: GatekeeperVerdict) -> TaskStatus {
    match v {
        GatekeeperVerdict::AutoApproved => TaskStatus::DelegableAutoApproved,
        GatekeeperVerdict::PendingTimeout => TaskStatus::Pending,
        GatekeeperVerdict::HeldForManualApproval => TaskStatus::HeldForManualApproval,
    }
}

fn status_for_exec(v: GatekeeperVerdict) -> (s: TaskStatus)
    ensures
        s == status_for(v),
{
    match v {
        GatekeeperVerdict::AutoApproved => TaskStatus::DelegableAutoApproved,
        GatekeeperVerdict::PendingTimeout => TaskStatus::Pending,
        GatekeeperVerdict::HeldForManualApproval => TaskStatus::HeldForManualApproval,
    }
}

/// A tracked task, as the contracts see it.
pub ghost struct TaskView {
    pub task_id: Seq<char>,
    pub plan: (Seq<char>, Seq<char>, Seq<Seq<char>>),
    pub decision: PolicyDecision,
    pub status: TaskStatus,
    pub created_at: nat,
    pub execution_result: Option<ExecutionOutcome>,
    /// The owner approved the task after it was held.
    pub released: bool,
}

#[derive(Debug)]
pub struct TaskState {
    pub task_id: String,
    pub plan: ExecutionPlan,
    pub decision: PolicyDecision,
    pub status: TaskStatus,
    pub created_at: Instant,
    pub execution_result: Option<ExecutionOutcome>,
    /// The owner approved the task after it was held.
    pub released: bool,
}

impl View for TaskState {
    type V = TaskView;

    open spec fn view(&self) -> TaskView {
        TaskView {
            task_id: self.task_id@,
            plan: self.plan@,
            decision: self.decision,
            status: self.status,
            created_at: self.created_at@,
            execution_result: self.execution_result,
            released: self.released,
        }
    }
}

/// `a - b`, or zero when `b` is later.
pub open spec fn since(a: nat, b: nat) -> nat {
    if a >= b {
        (a - b) as nat
    } else {
        0
    }
}

/// What ingesting a plan does to its task: a non-delegable plan (re)starts
/// the task held for the owner; a delegable plan starts a new task, or
/// re-evaluates an existing one against the time it was first seen.
pub open spec fn ingest_step(
    existing: Option<TaskView>,
    plan: (Seq<char>, Seq<char>, Seq<Seq<char>>),
    decision: PolicyDecision,
    now: nat,
    timeout: nat,
) -> (GatekeeperVerdict, TaskView) {
    let fresh = TaskView {
        task_id: plan.0,
        plan,
        decision,
        status: TaskStatus::Pending,
        created_at: now,
        execution_result: None,
        released: false,
    };
    match decision {
        PolicyDecision::NonDelegable => (
            GatekeeperVerdict::HeldForManualApproval,
            TaskView { status: TaskStatus::HeldForManualApproval, ..fresh },
        ),
        PolicyDecision::Delegable => {
            let base = match existing {
                Some(t) => t,
                None => fresh,
            };
            let v = verdict_spec(decision, since(now, base.created_at), timeout);
            (v, TaskView { status: status_for(v), ..base })
        },
    }
}

/// Whether the timeout sweep at `now` auto-approves `t`.
pub open spec fn sweep_fires(t: TaskView, now: nat, timeout: nat) -> bool {
    t.decision == PolicyDecision::Delegable && t.status == TaskStatus::Pending && since(
        now,
        t.created_at,
    ) >= timeout
}

/// A task after the timeout sweep at `now`.
pub open spec fn sweep_step(t: TaskView, now: nat, timeout: nat) -> TaskView {
    if sweep_fires(t, now, timeout) {
        TaskView { status: TaskStatus::DelegableAutoApproved, ..t }
    } else {
        t
    }
}

/// A task after its execution result arrived.
pub open spec fn execution_step(t: TaskView, result: ExecutionOutcome) -> TaskView {
    TaskView {
        status: if result.success {
            TaskStatus::Executed
        } else {
            TaskStatus::ExecutionFailed
        },
        execution_result: Some(result),
        ..t
    }
}

/// A task after the owner's decision, and whether its plan is released for
/// execution: only a held task is affected; approval releases it back to
/// pending, denial rejects it.
pub open spec fn owner_step(t: TaskView, approved: bool) -> (TaskView, bool) {
    if t.status != TaskStatus::HeldForManualApproval {
        (t, false)
    } else if approved {
        (TaskView { status: TaskStatus::Pending, released: true, ..t }, true)
    } else {
        (TaskView { status: TaskStatus::RejectedByOwner, ..t }, false)
    }
}

/// The position of the task `id` in `s`, or -1.
pub open spec fn index_of(s: Seq<TaskState>, id: Seq<char>) -> int
    decreases s.len(),
{
    if s.len() == 0 {
        -1
    } else if s.last().task_id@ == id {
        s.len() - 1
    } else {
        index_of(s.drop_last(), id)
    }
}

pub proof fn lemma_index_of(s: Seq<TaskState>, id: Seq<char>)
    ensures
        -1 <= index_of(s, id) < s.len(),
        index_of(s, id) >= 0 ==> s[index_of(s, id)].task_id@ == id,
        index_of(s, id) == -1 ==> forall|i: int| 0 <= i < s.len() ==> s[i].task_id@ != id,
    decreases s.len(),
{
    if s.len() > 0 && s.last().task_id@ != id {
        lemma_index_of(s.drop_last(), id);
        assert forall|i: int| 0 <= i < s.len() - 1 implies s[i] == s.drop_last()[i] by {}
    }
}

/// Task ids are pairwise distinct.
pub open spec fn unique_ids(s: Seq<TaskState>) -> bool {
    forall|i: int, j: int|
        0 <= i < j < s.len() ==> #[trigger] s[i].task_id@ != #[trigger] s[j].task_id@
}

pub proof fn lemma_index_of_at(s: Seq<TaskState>, i: int)
    requires
        unique_ids(s),
        0 <= i < s.len(),
    ensures
        index_of(s, s[i].task_id@) == i,
{
    lemma_index_of(s, s[i].task_id@);
    let k = index_of(s, s[i].task_id@);
    if k != i {
        if k < i {
            assert(s[k].task_id@ != s[i].task_id@);
        } else {
            assert(s[i].task_id@ != s[k].task_id@);
        }
    }
}

/// Two lists with the same ids at every position.
pub open spec fn same_ids(s: Seq<TaskState>, t: Seq<TaskState>) -> bool {
    s.len() == t.len() && forall|i: int| 0 <= i < s.len() ==> #[trigger] s[i].task_id@ == t[i].task_id@
}

pub proof fn lemma_same_ids_index(s: Seq<TaskState>, t: Seq<TaskState>, id: Seq<char>)
    requires
        same_ids(s, t),
    ensures
        index_of(s, id) == index_of(t, id),
    decreases s.len(),
{
    if s.len() > 0 {
        assert(s.last().task_id@ == t.last().task_id@) by {
            assert(s[s.len() - 1].task_id@ == t[t.len() - 1].task_id@);
        }
        assert(same_ids(s.drop_last(), t.drop_last())) by {
            assert forall|i: int| 0 <= i < s.drop_last().len() implies #[trigger] s.drop_last()[i].task_id@
                == t.drop_last()[i].task_id@ by {
                assert(s[i].task_id@ == t[i].task_id@);
            }
        }
        lemma_same_ids_index(s.drop_last(), t.drop_last(), id);
    }
}

/// The tasks tracked across event-loop ticks, keyed by task id, with the
/// delegation timeout that applies to them.
#[derive(Debug)]
pub struct PendingPlans {
    tasks: Vec<TaskState>,
    timeout: Duration,
}

impl PendingPlans {
    pub closed spec fn wf(self) -> bool {
        &&& self.timeout.wf()
        &&& unique_ids(self.tasks@)
        &&& forall|i: int| 0 <= i < self.tasks@.len() ==> (#[trigger] self.tasks@[i]).created_at.wf()
    }

    /// The task tracked under `id`, if any.
    pub closed spec fn task(self, id: Seq<char>) -> Option<TaskView> {
        let k = index_of(self.tasks@, id);
        if k >= 0 {
            Some(self.tasks@[k]@)
        } else {
            None
        }
    }

    /// A tracked task is tracked under its own id.
    pub proof fn lemma_task_id_is_key(self, id: Seq<char>)
        ensures
            self.task(id) matches Some(t) ==> t.task_id == id,
    {
        lemma_index_of(self.tasks@, id);
    }

    /// The delegation timeout, in nanoseconds.
    pub closed spec fn timeout_spec(self) -> nat {
        self.timeout@
    }

    /// An empty table under the default delegation timeout.
    pub fn new() -> (p: PendingPlans)
        ensures
            p.wf(),
            p.timeout_spec() == crate::timers::DEFAULT_GATEKEEPER_TIMEOUT_SECS as nat
                * 1_000_000_000,
            forall|id: Seq<char>| p.task(id) is None,
    {
        PendingPlans { tasks: Vec::new(), timeout: default_gatekeeper_timeout() }
    }

    /// An empty table under the given delegation timeout.
    pub fn with_delegation_timeout(timeout: Duration) -> (p: PendingPlans)
        requires
            timeout.wf(),
        ensures
            p.wf(),
            p.timeout_spec() == timeout@,
            forall|id: Seq<char>| p.task(id) is None,
    {
        PendingPlans { tasks: Vec::new(), timeout }
    }

    /// The position of `id`.
    fn find(&self, id: &str) -> (r: Option<usize>)
        requires
            self.wf(),
        ensures
            r matches Some(i) ==> i == index_of(self.tasks@, id@) && i < self.tasks@.len(),
            r is None ==> index_of(self.tasks@, id@) == -1,
    {
        let mut i: usize = 0;
        while i < self.tasks.len()
            invariant
                self.wf(),
                i <= self.tasks@.len(),
                forall|j: int| 0 <= j < i ==> (#[trigger] self.tasks@[j]).task_id@ != id@,
            decreases self.tasks.len() - i,
        {
            if str_eq(self.tasks[i].task_id.as_str(), id) {
                proof {
                    lemma_index_of_at(self.tasks@, i as int);
                }
                return Some(i);
            }
            i = i + 1;
        }
        proof {
            lemma_index_of(self.tasks@, id@);
        }
        None
    }

    /// Replaces the task at position `i` by `t`, which has the same id.
    fn replace_at(&mut self, i: usize, t: TaskState)
        requires
            old(self).wf(),
            i < old(self).tasks@.len(),
            t.task_id@ == old(self).tasks@[i as int].task_id@,
            t.created_at.wf(),
        ensures
            final(self).wf(),
            final(self).timeout == old(self).timeout,
            final(self).task(t.task_id@) == Some(t@),
            forall|k: Seq<char>| k != t.task_id@ ==> #[trigger] final(self).task(k) == old(self).task(k),
            final(self).tasks@ == old(self).tasks@.update(i as int, t),
    {
        let ghost before = self.tasks@;
        self.tasks.set(i, t);
        proof {
            let after = self.tasks@;
            assert(same_ids(before, after));
            assert(unique_ids(after)) by {
                assert forall|a: int, b: int| 0 <= a < b < after.len() implies #[trigger] after[a].task_id@
                    != #[trigger] after[b].task_id@ by {
                    assert(before[a].task_id@ != before[b].task_id@);
                }
            }
            lemma_index_of_at(after, i as int);
            assert forall|k: Seq<char>| k != t.task_id@ implies #[trigger] self.task(k) == old(self).task(k) by {
                lemma_same_ids_index(before, after, k);
                lemma_index_of(before, k);
            }
        }
    }

    /// Adds `t`, whose id is not tracked yet.
    fn push_new(&mut self, t: TaskState)
        requires
            old(self).wf(),
            index_of(old(self).tasks@, t.task_id@) == -1,
            t.created_at.wf(),
        ensures
            final(self).wf(),
            final(self).timeout == old(self).timeout,
            final(self).task(t.task_id@) == Some(t@),
            forall|k: Seq<char>| k != t.task_id@ ==> #[trigger] final(self).task(k) == old(self).task(k),
    {
        let ghost before = self.tasks@;
        proof {
            lemma_index_of(before, t.task_id@);
        }
        self.tasks.push(t);
        proof {
            let after = self.tasks@;
            assert(after.drop_last() =~= before);
            assert(unique_ids(after)) by {
                assert forall|a: int, b: int| 0 <= a < b < after.len() implies #[trigger] after[a].task_id@
                    != #[trigger] after[b].task_id@ by {
                    if b < before.len() {
                        assert(before[a].task_id@ != before[b].task_id@);
                    } else {
                        assert(before[a].task_id@ != t.task_id@);
                    }
                }
            }
            assert forall|k: Seq<char>| k != t.task_id@ implies #[trigger] self.task(k) == old(self).task(k) by {
                assert(index_of(after, k) == index_of(before, k));
                lemma_index_of(before, k);
                if index_of(before, k) >= 0 {
                    assert(after[index_of(before, k)] == before[index_of(before, k)]);
                }
            }
        }
    }

    /// A copy of the task at position `i` with a new status.
    fn with_status(&self, i: usize, status: TaskStatus, released: bool) -> (t: TaskState)
        requires
            self.wf(),
            i < self.tasks@.len(),
        ensures
            t@ == (TaskView { status, released, ..self.tasks@[i as int]@ }),
            t.created_at.wf(),
            t.task_id@ == self.tasks@[i as int].task_id@,
    {
        let cur = &self.tasks[i];
        TaskState {
            task_id: cur.task_id.clone(),
            plan: cur.plan.copy(),
            decision: cur.decision,
            status,
            created_at: cur.created_at,
            execution_result: copy_outcome(&cur.execution_result),
            released,
        }
    }

    /// Records a plan under an already-made policy decision at time `now` and
    /// returns the verdict and the acknowledgement to send back at once.
    pub fn ingest_with_decision(
        &mut self,
        plan: &ExecutionPlan,
        decision: PolicyDecision,
        now: Instant,
    ) -> (r: (GatekeeperVerdict, TaskSubmitAck))
        requires
            old(self).wf(),
            now.wf(),
        ensures
            final(self).wf(),
            final(self).timeout_spec() == old(self).timeout_spec(),
            r.1.task_id@ == plan.task_id@,
            ({
                let step = ingest_step(
                    old(self).task(plan.task_id@),
                    plan@,
                    decision,
                    now@,
                    old(self).timeout_spec(),
                );
                r.0 == step.0 && final(self).task(plan.task_id@) == Some(step.1)
            }),
            forall|k: Seq<char>| k != plan.task_id@ ==> #[trigger] final(self).task(k) == old(self).task(k),
    {
        let found = self.find(plan.task_id.as_str());
        let verdict = match decision {
            PolicyDecision::NonDelegable => {
                let t = TaskState {
                    task_id: plan.task_id.clone(),
                    plan: plan.copy(),
                    decision,
                    status: TaskStatus::HeldForManualApproval,
                    created_at: now,
                    execution_result: None,
                    released: false,
                };
                match found {
                    Some(i) => {
                        proof {
                            lemma_index_of(self.tasks@, plan.task_id@);
                        }
                        self.replace_at(i, t);
                    },
                    None => {
                        self.push_new(t);
                    },
                }
                GatekeeperVerdict::HeldForManualApproval
            },
            PolicyDecision::Delegable => {
                match found {
                    Some(i) => {
                        proof {
                            lemma_index_of(self.tasks@, plan.task_id@);
                        }
                        let started = self.tasks[i].created_at;
                        let v = apply_gatekeeper_policy(
                            decision,
                            now.saturating_duration_since(&started),
                            self.timeout,
                        );
                        let released = self.tasks[i].released;
                        let t = self.with_status(i, status_for_exec(v), released);
                        self.replace_at(i, t);
                        v
                    },
                    None => {
                        let v = apply_gatekeeper_policy(
                            decision,
                            now.saturating_duration_since(&now),
                            self.timeout,
                        );
                        let t = TaskState {
                            task_id: plan.task_id.clone(),
                            plan: plan.copy(),
                            decision,
                            status: status_for_exec(v),
                            created_at: now,
                            execution_result: None,
                            released: false,
                        };
                        self.push_new(t);
                        v
                    },
                }
            },
        };
        (verdict, TaskSubmitAck { task_id: plan.task_id.clone() })
    }

    /// Ingests a maestro plan: decides its policy under the default criteria
    /// and records it. The decision must be computable (every pattern the
    /// scan reaches compiles).
    pub fn ingest(&mut self, plan: &ExecutionPlan, now: Instant) -> (r: (
        GatekeeperVerdict,
        TaskSubmitAck,
    ))
        requires
            old(self).wf(),
            now.wf(),
            plan_eval(plan.command_seqs(), default_patterns_spec()) is Some,
        ensures
            final(self).wf(),
            final(self).timeout_spec() == old(self).timeout_spec(),
            r.1.task_id@ == plan.task_id@,
            ({
                let step = ingest_step(
                    old(self).task(plan.task_id@),
                    plan@,
                    policy_spec(*plan, default_patterns_spec()),
                    now@,
                    old(self).timeout_spec(),
                );
                r.0 == step.0 && final(self).task(plan.task_id@) == Some(step.1)
            }),
            forall|k: Seq<char>| k != plan.task_id@ ==> #[trigger] final(self).task(k) == old(self).task(k),
    {
        let decision = decide_policy(plan);
        self.ingest_with_decision(plan, decision, now)
    }

    /// Ingests a plan when its policy decision is computable; otherwise
    /// returns `None` and leaves the table unchanged.
    pub fn try_ingest(&mut self, plan: &ExecutionPlan, now: Instant) -> (r: Option<(
        GatekeeperVerdict,
        TaskSubmitAck,
    )>)
        requires
            old(self).wf(),
            now.wf(),
        ensures
            final(self).wf(),
            final(self).timeout_spec() == old(self).timeout_spec(),
            r is None <==> plan_eval(plan.command_seqs(), default_patterns_spec()) is None,
            r is None ==> forall|k: Seq<char>| #[trigger] final(self).task(k) == old(self).task(k),
            r matches Some(out) ==> out.1.task_id@ == plan.task_id@ && ({
                let step = ingest_step(
                    old(self).task(plan.task_id@),
                    plan@,
                    policy_spec(*plan, default_patterns_spec()),
                    now@,
                    old(self).timeout_spec(),
                );
                out.0 == step.0 && final(self).task(plan.task_id@) == Some(step.1)
            }),
            r is Some ==> forall|k: Seq<char>| k != plan.task_id@ ==> #[trigger] final(self).task(k)
                == old(self).task(k),
    {
        if evaluation_defined(plan, &CriteriaConfig::default_patterns()) {
            Some(self.ingest(plan, now))
        } else {
            None
        }
    }

    /// The timeout sweep at `now`: every pending delegable task whose window
    /// has elapsed is auto-approved, and its id and plan are returned for
    /// execution. Other tasks are left as they are.
    pub fn check_timeouts(&mut self, now: Instant) -> (r: Vec<(String, ExecutionPlan)>)
        requires
            old(self).wf(),
            now.wf(),
        ensures
            final(self).wf(),
            sweep_post(*old(self), *final(self), now@, r@),
    {
        let ghost orig = self.tasks@;
        let ghost timeout = self.timeout@;
        let mut out: Vec<(String, ExecutionPlan)> = Vec::new();
        let ghost mut idx: Seq<int> = Seq::empty();
        let mut i: usize = 0;
        while i < self.tasks.len()
            invariant
                self.wf(),
                self.timeout == old(self).timeout,
                now.wf(),
                orig == old(self).tasks@,
                timeout == self.timeout@,
                self.tasks@.len() == orig.len(),
                same_ids(orig, self.tasks@),
                i <= orig.len(),
                forall|j: int| 0 <= j < i ==> (#[trigger] self.tasks@[j])@ == sweep_step(orig[j]@, now@, timeout),
                forall|j: int| i <= j < orig.len() ==> (#[trigger] self.tasks@[j])@ == orig[j]@,
                out@.len() == idx.len(),
                forall|m: int|
                    0 <= m < idx.len() ==> 0 <= #[trigger] idx[m] < i && out@[m].0@
                        == orig[idx[m]].task_id@ && out@[m].1@ == orig[idx[m]].plan@ && sweep_fires(
                        orig[idx[m]]@,
                        now@,
                        timeout,
                    ),
                forall|m: int, n: int| 0 <= m < n < idx.len() ==> #[trigger] idx[m] < #[trigger] idx[n],
                forall|j: int|
                    0 <= j < i && sweep_fires(#[trigger] orig[j]@, now@, timeout) ==> exists|m: int|
                        0 <= m < idx.len() && idx[m] == j,
            decreases self.tasks.len() - i,
        {
            let ghost idx0 = idx;
            let fires = {
                let t = &self.tasks[i];
                t.decision == PolicyDecision::Delegable && t.status == TaskStatus::Pending
                    && now.saturating_duration_since(&t.created_at).is_at_least(&self.timeout)
            };
            assert(self.tasks@[i as int]@ == orig[i as int]@);
            assert(fires == sweep_fires(orig[i as int]@, now@, timeout));
            if fires {
                let id = self.tasks[i].task_id.clone();
                let plan = self.tasks[i].plan.copy();
                let released = self.tasks[i].released;
                let t = self.with_status(i, TaskStatus::DelegableAutoApproved, released);
                let ghost prev = self.tasks@;
                self.replace_at(i, t);
                proof {
                    assert(same_ids(orig, self.tasks@)) by {
                        assert forall|j: int| 0 <= j < orig.len() implies #[trigger] orig[j].task_id@
                            == self.tasks@[j].task_id@ by {
                            assert(orig[j].task_id@ == prev[j].task_id@);
                        }
                    }
                    idx = idx.push(i as int);
                }
                out.push((id, plan));
            }
            proof {
                assert forall|j: int|
                    0 <= j < i + 1 && sweep_fires(#[trigger] orig[j]@, now@, timeout) implies exists|m: int|
                        0 <= m < idx.len() && idx[m] == j by {
                    if j < i {
                        let m = choose|m: int| 0 <= m < idx0.len() && idx0[m] == j;
                        assert(idx[m] == idx0[m]);
                    } else {
                        assert(idx[idx.len() - 1] == j);
                    }
                }
            }
            i = i + 1;
        }
        proof {
            let fin = self.tasks@;
            assert forall|k: Seq<char>|
                #![trigger self.task(k)]
                match old(self).task(k) {
                    Some(t) => self.task(k) == Some(sweep_step(t, now@, timeout)),
                    None => self.task(k) is None,
                } by {
                lemma_same_ids_index(orig, fin, k);
                lemma_index_of(orig, k);
            }
            assert forall|m: int|
                0 <= m < out@.len() implies (old(self).task((#[trigger] out@[m]).0@) matches Some(t)
                && sweep_fires(t, now@, timeout) && out@[m].1@ == t.plan) by {
                lemma_index_of_at(orig, idx[m]);
            }
            assert forall|k: Seq<char>|
                #![trigger old(self).task(k)]
                (old(self).task(k) matches Some(t) && sweep_fires(t, now@, timeout)) implies exists|
                m: int,
            | 0 <= m < out@.len() && (#[trigger] out@[m]).0@ == k by {
                lemma_index_of(orig, k);
                let j = index_of(orig, k);
                assert(sweep_fires(orig[j]@, now@, timeout));
                let m = choose|m: int| 0 <= m < idx.len() && idx[m] == j;
                assert(out@[m].0@ == k);
            }
            assert forall|m: int, n: int| 0 <= m < n < out@.len() implies (#[trigger] out@[m]).0@
                != (#[trigger] out@[n]).0@ by {
                assert(idx[m] < idx[n]);
                assert(orig[idx[m]].task_id@ != orig[idx[n]].task_id@);
            }
        }
        out
    }

    /// Records the execution result of task `id`: it becomes executed or
    /// failed, with the result attached.
    pub fn record_execution(&mut self, id: &str, result: ExecutionOutcome) -> (r: Result<
        (),
        LoopError,
    >)
        requires
            old(self).wf(),
        ensures
            final(self).wf(),
            record_post(*old(self), *final(self), id@, result, r),
    {
        match self.find(id) {
            None => Err(LoopError::TaskNotFound(crate::text::owned(id))),
            Some(i) => {
                proof {
                    lemma_index_of(self.tasks@, id@);
                }
                let status = if result.success {
                    TaskStatus::Executed
                } else {
                    TaskStatus::ExecutionFailed
                };
                let cur = &self.tasks[i];
                let t = TaskState {
                    task_id: cur.task_id.clone(),
                    plan: cur.plan.copy(),
                    decision: cur.decision,
                    status,
                    created_at: cur.created_at,
                    execution_result: Some(result),
                    released: cur.released,
                };
                self.replace_at(i, t);
                Ok(())
            },
        }
    }

    /// Applies the owner's decision on task `id`. Only a held task is
    /// affected: approval puts it back to pending and returns its plan for
    /// execution; denial rejects it.
    pub fn handle_owner_decision(&mut self, id: &str, approved: bool) -> (r: Result<
        Option<ExecutionPlan>,
        LoopError,
    >)
        requires
            old(self).wf(),
        ensures
            final(self).wf(),
            final(self).timeout_spec() == old(self).timeout_spec(),
            old(self).task(id@) is None ==> (r matches Err(LoopError::TaskNotFound(s)) && s@
                == id@) && forall|k: Seq<char>| #[trigger] final(self).task(k) == old(self).task(k),
            old(self).task(id@) matches Some(t) ==> ({
                let step = owner_step(t, approved);
                &&& final(self).task(id@) == Some(step.0)
                &&& r matches Ok(released) && (released is Some == step.1) && (released matches Some(
                    p,
                ) ==> p@ == t.plan)
            }),
            forall|k: Seq<char>| k != id@ ==> #[trigger] final(self).task(k) == old(self).task(k),
    {
        match self.find(id) {
            None => Err(LoopError::TaskNotFound(crate::text::owned(id))),
            Some(i) => {
                proof {
                    lemma_index_of(self.tasks@, id@);
                }
                if self.tasks[i].status != TaskStatus::HeldForManualApproval {
                    return Ok(None);
                }
                if approved {
                    let plan = self.tasks[i].plan.copy();
                    let t = self.with_status(i, TaskStatus::Pending, true);
                    self.replace_at(i, t);
                    Ok(Some(plan))
                } else {
                    let released = self.tasks[i].released;
                    let t = self.with_status(i, TaskStatus::RejectedByOwner, released);
                    self.replace_at(i, t);
                    Ok(None)
                }
            },
        }
    }

    /// The status and result of task `id`.
    pub fn query(&self, id: &str) -> (r: Result<TaskQueryResult, LoopError>)
        requires
            self.wf(),
        ensures
            self.task(id@) is None ==> (r matches Err(LoopError::TaskNotFound(s)) && s@ == id@),
            self.task(id@) matches Some(t) ==> (r matches Ok(q) && q.task_id@ == t.task_id
                && q.status == t.status && q.result == t.execution_result),
            r matches Ok(q) ==> q.task_id@ == id@,
    {
        match self.find(id) {
            None => Err(LoopError::TaskNotFound(crate::text::owned(id))),
            Some(i) => {
                proof {
                    lemma_index_of(self.tasks@, id@);
                }
                let t = &self.tasks[i];
                Ok(
                    TaskQueryResult {
                        task_id: t.task_id.clone(),
                        status: t.status,
                        result: copy_outcome(&t.execution_result),
                    },
                )
            },
        }
    }

    /// The ids of the tasks held for the owner's approval.
    pub fn critical_held(&self) -> (r: Vec<String>)
        requires
            self.wf(),
        ensures
            forall|m: int|
                0 <= m < r@.len() ==> (self.task((#[trigger] r@[m])@) matches Some(t) && t.status
                    == TaskStatus::HeldForManualApproval),
            forall|k: Seq<char>|
                #![trigger self.task(k)]
                (self.task(k) matches Some(t) && t.status == TaskStatus::HeldForManualApproval)
                    ==> exists|m: int| 0 <= m < r@.len() && (#[trigger] r@[m])@ == k,
            forall|m: int, n: int| 0 <= m < n < r@.len() ==> (#[trigger] r@[m])@ != (#[trigger] r@[n])@,
    {
        let ghost s = self.tasks@;
        let mut out: Vec<String> = Vec::new();
        let ghost mut idx: Seq<int> = Seq::empty();
        let mut i: usize = 0;
        while i < self.tasks.len()
            invariant
                self.wf(),
                s == self.tasks@,
                i <= s.len(),
                out@.len() == idx.len(),
                forall|m: int|
                    0 <= m < idx.len() ==> 0 <= #[trigger] idx[m] < i && out@[m]@ == s[idx[m]].task_id@
                        && s[idx[m]].status == TaskStatus::HeldForManualApproval,
                forall|m: int, n: int| 0 <= m < n < idx.len() ==> #[trigger] idx[m] < #[trigger] idx[n],
                forall|j: int|
                    0 <= j < i && (#[trigger] s[j]).status == TaskStatus::HeldForManualApproval
                        ==> exists|m: int| 0 <= m < idx.len() && idx[m] == j,
            decreases self.tasks.len() - i,
        {
            let ghost idx0 = idx;
            if self.tasks[i].status == TaskStatus::HeldForManualApproval {
                out.push(self.tasks[i].task_id.clone());
                proof {
                    idx = idx.push(i as int);
                }
            }
            proof {
                assert forall|j: int|
                    0 <= j < i + 1 && (#[trigger] s[j]).status == TaskStatus::HeldForManualApproval
                        implies exists|m: int| 0 <= m < idx.len() && idx[m] == j by {
                    if j < i {
                        let m = choose|m: int| 0 <= m < idx0.len() && idx0[m] == j;
                        assert(idx[m] == idx0[m]);
                    } else {
                        assert(idx[idx.len() - 1] == j);
                    }
                }
            }
            i = i + 1;
        }
        proof {
            assert forall|m: int| 0 <= m < out@.len() implies (self.task((#[trigger] out@[m])@) matches Some(
                t,
            ) && t.status == TaskStatus::HeldForManualApproval) by {
                lemma_index_of_at(s, idx[m]);
            }
            assert forall|k: Seq<char>|
                #![trigger self.task(k)]
                (self.task(k) matches Some(t) && t.status == TaskStatus::HeldForManualApproval)
                    implies exists|m: int| 0 <= m < out@.len() && (#[trigger] out@[m])@ == k by {
                lemma_index_of(s, k);
                let j = index_of(s, k);
                assert(s[j].status == TaskStatus::HeldForManualApproval);
                let m = choose|m: int| 0 <= m < idx.len() && idx[m] == j;
                assert(out@[m]@ == k);
            }
            assert forall|m: int, n: int| 0 <= m < n < out@.len() implies (#[trigger] out@[m])@
                != (#[trigger] out@[n])@ by {
                assert(idx[m] < idx[n]);
                assert(s[idx[m]].task_id@ != s[idx[n]].task_id@);
            }
        }
        out
    }

    /// The tasks ready to run: auto-approved, or just approved by the owner,
    /// with their plans.
    pub fn ready_for_execution(&self) -> (r: Vec<(String, ExecutionPlan)>)
        requires
            self.wf(),
        ensures
            forall|m: int|
                0 <= m < r@.len() ==> (self.task((#[trigger] r@[m]).0@) matches Some(t) && ready(t)
                    && r@[m].1@ == t.plan),
            forall|k: Seq<char>|
                #![trigger self.task(k)]
                (self.task(k) matches Some(t) && ready(t)) ==> exists|m: int|
                    0 <= m < r@.len() && (#[trigger] r@[m]).0@ == k,
            forall|m: int, n: int|
                0 <= m < n < r@.len() ==> (#[trigger] r@[m]).0@ != (#[trigger] r@[n]).0@,
    {
        let ghost s = self.tasks@;
        let mut out: Vec<(String, ExecutionPlan)> = Vec::new();
        let ghost mut idx: Seq<int> = Seq::empty();
        let mut i: usize = 0;
        while i < self.tasks.len()
            invariant
                self.wf(),
                s == self.tasks@,
                i <= s.len(),
                out@.len() == idx.len(),
                forall|m: int|
                    0 <= m < idx.len() ==> 0 <= #[trigger] idx[m] < i && out@[m].0@
                        == s[idx[m]].task_id@ && out@[m].1@ == s[idx[m]].plan@ && ready(s[idx[m]]@),
                forall|m: int, n: int| 0 <= m < n < idx.len() ==> #[trigger] idx[m] < #[trigger] idx[n],
                forall|j: int|
                    0 <= j < i && ready((#[trigger] s[j])@) ==> exists|m: int|
                        0 <= m < idx.len() && idx[m] == j,
            decreases self.tasks.len() - i,
        {
            let ghost idx0 = idx;
            let st = self.tasks[i].status;
            if st == TaskStatus::DelegableAutoApproved || (st == TaskStatus::Pending
                && self.tasks[i].released) {
                out.push((self.tasks[i].task_id.clone(), self.tasks[i].plan.copy()));
                proof {
                    idx = idx.push(i as int);
                }
            }
            proof {
                assert forall|j: int| 0 <= j < i + 1 && ready((#[trigger] s[j])@) implies exists|m: int|
                    0 <= m < idx.len() && idx[m] == j by {
                    if j < i {
                        let m = choose|m: int| 0 <= m < idx0.len() && idx0[m] == j;
                        assert(idx[m] == idx0[m]);
                    } else {
                        assert(idx[idx.len() - 1] == j);
                    }
                }
            }
            i = i + 1;
        }
        proof {
            assert forall|m: int| 0 <= m < out@.len() implies (self.task((#[trigger] out@[m]).0@) matches Some(
                t,
            ) && ready(t) && out@[m].1@ == t.plan) by {
                lemma_index_of_at(s, idx[m]);
            }
            assert forall|k: Seq<char>|
                #![trigger self.task(k)]
                (self.task(k) matches Some(t) && ready(t)) implies exists|m: int|
                0 <= m < out@.len() && (#[trigger] out@[m]).0@ == k by {
                lemma_index_of(s, k);
                let j = index_of(s, k);
                assert(ready(s[j]@));
                let m = choose|m: int| 0 <= m < idx.len() && idx[m] == j;
                assert(out@[m].0@ == k);
            }
            assert forall|m: int, n: int| 0 <= m < n < out@.len() implies (#[trigger] out@[m]).0@
                != (#[trigger] out@[n]).0@ by {
                assert(idx[m] < idx[n]);
                assert(s[idx[m]].task_id@ != s[idx[n]].task_id@);
            }
        }
        out
    }
}

/// What the timeout sweep at `now` does: every task moves by `sweep_step`,
/// and `r` lists, once each, the id and plan of exactly the tasks it
/// auto-approved.
pub open spec fn sweep_post(
    before: PendingPlans,
    after: PendingPlans,
    now: nat,
    r: Seq<(String, ExecutionPlan)>,
) -> bool {
    &&& after.timeout_spec() == before.timeout_spec()
    &&& forall|k: Seq<char>|
        #![trigger after.task(k)]
        match before.task(k) {
            Some(t) => after.task(k) == Some(sweep_step(t, now, before.timeout_spec())),
            None => after.task(k) is None,
        }
    &&& forall|m: int|
        0 <= m < r.len() ==> (before.task((#[trigger] r[m]).0@) matches Some(t) && sweep_fires(
            t,
            now,
            before.timeout_spec(),
        ) && r[m].1@ == t.plan)
    &&& forall|k: Seq<char>|
        #![trigger before.task(k)]
        (before.task(k) matches Some(t) && sweep_fires(t, now, before.timeout_spec())) ==> exists|
            m: int,
        | 0 <= m < r.len() && (#[trigger] r[m]).0@ == k
    &&& forall|m: int, n: int| 0 <= m < n < r.len() ==> (#[trigger] r[m]).0@ != (#[trigger] r[n]).0@
}

/// What recording an execution result for `id` does.
pub open spec fn record_post(
    before: PendingPlans,
    after: PendingPlans,
    id: Seq<char>,
    result: ExecutionOutcome,
    r: Result<(), LoopError>,
) -> bool {
    &&& after.timeout_spec() == before.timeout_spec()
    &&& before.task(id) is None ==> (r matches Err(LoopError::TaskNotFound(s)) && s@ == id)
        && forall|k: Seq<char>| #[trigger] after.task(k) == before.task(k)
    &&& before.task(id) matches Some(t) ==> r is Ok && after.task(id) == Some(
        execution_step(t, result),
    )
    &&& forall|k: Seq<char>| k != id ==> #[trigger] after.task(k) == before.task(k)
}

/// A task that may run: auto-approved after its window, or released by the
/// owner and not run yet. A delegable task still inside its window is not
/// ready.
pub open spec fn ready(t: TaskView) -> bool {
    t.status == TaskStatus::DelegableAutoApproved || (t.status == TaskStatus::Pending && t.released)
}

/// The delegation timeout for a configured value of the timeout variable (the
/// caller reads the environment): the default of 120 s when it is absent or
/// does not parse.
pub fn delegation_timeout(configured: Option<&str>) -> (d: Duration)
    ensures
        d.wf(),
        d@ == timeout_secs_from(
            match configured {
                Some(v) => Some(v@),
                None => None,
            },
        ) as nat * 1_000_000_000,
{
    gatekeeper_timeout_from(configured)
}

/// The reply owed to a maestro message; the caller serialises it.
#[derive(Debug, Clone, PartialEq, Eq)]
pub enum MaestroReply {
    Ack(TaskSubmitAck),
    QueryResult(TaskQueryResult),
}

/// Whether the gatekeeper can decide on `msg`: a plan's policy decision must
/// be computable; a query always can be answered.
pub open spec fn message_decidable(msg: MaestroMessage) -> bool {
    match msg {
        MaestroMessage::ExecutionPlan(plan) => plan_eval(plan.command_seqs(), default_patterns_spec()) is Some,
        MaestroMessage::TaskQuery(_) => true,
    }
}

/// Handles a maestro message: a plan is ingested and acknowledged at once; a
/// query is answered with the task's status and result.
pub fn process_maestro_message(pending: &mut PendingPlans, now: Instant, msg: MaestroMessage) -> (r:
    Result<MaestroReply, LoopError>)
    requires
        old(pending).wf(),
        now.wf(),
        message_decidable(msg),
    ensures
        final(pending).wf(),
        final(pending).timeout_spec() == old(pending).timeout_spec(),
        msg matches MaestroMessage::ExecutionPlan(plan) ==> ({
            let step = ingest_step(
                old(pending).task(plan.task_id@),
                plan@,
                policy_spec(plan, default_patterns_spec()),
                now@,
                old(pending).timeout_spec(),
            );
            &&& r matches Ok(MaestroReply::Ack(ack)) && ack.task_id@ == plan.task_id@
            &&& final(pending).task(plan.task_id@) == Some(step.1)
            &&& forall|k: Seq<char>| k != plan.task_id@ ==> #[trigger] final(pending).task(k)
                == old(pending).task(k)
        }),
        msg matches MaestroMessage::TaskQuery(q) ==> ({
            &&& forall|k: Seq<char>| #[trigger] final(pending).task(k) == old(pending).task(k)
            &&& old(pending).task(q.task_id@) is None ==> (r matches Err(LoopError::TaskNotFound(s))
                && s@ == q.task_id@)
            &&& old(pending).task(q.task_id@) matches Some(t) ==> (r matches Ok(
                MaestroReply::QueryResult(res),
            ) && res.task_id@ == t.task_id && res.status == t.status && res.result
                == t.execution_result)
        }),
{
    match msg {
        MaestroMessage::ExecutionPlan(plan) => {
            let (_verdict, ack) = pending.ingest(&plan, now);
            Ok(MaestroReply::Ack(ack))
        },
        MaestroMessage::TaskQuery(query) => match pending.query(query.task_id.as_str()) {
            Ok(res) => Ok(MaestroReply::QueryResult(res)),
            Err(e) => Err(e),
        },
    }
}

/// Handles the owner's answer for a held task.
pub fn process_task_resolved(pending: &mut PendingPlans, resolved: TaskResolved) -> (r: Result<
    Option<ExecutionPlan>,
    LoopError,
>)
    requires
        old(pending).wf(),
    ensures
        final(pending).wf(),
        old(pending).task(resolved.task_id@) is None ==> (r matches Err(LoopError::TaskNotFound(s))
            && s@ == resolved.task_id@) && forall|k: Seq<char>| #[trigger] final(pending).task(k)
            == old(pending).task(k),
        old(pending).task(resolved.task_id@) matches Some(t) ==> ({
            let step = owner_step(t, resolved.approved);
            &&& final(pending).task(resolved.task_id@) == Some(step.0)
            &&& r matches Ok(released) && (released is Some == step.1) && (released matches Some(p)
                ==> p@ == t.plan)
        }),
        forall|k: Seq<char>| k != resolved.task_id@ ==> #[trigger] final(pending).task(k) == old(
            pending,
        ).task(k),
{
    pending.handle_owner_decision(resolved.task_id.as_str(), resolved.approved)
}

/// A copy of an optional execution outcome.
pub fn copy_outcome(o: &Option<ExecutionOutcome>) -> (r: Option<ExecutionOutcome>)
    ensures
        r == *o,
{
    match o {
        Some(x) => Some(x.copy()),
        None => None,
    }
}

} // verus!

verus! {

// ---------------------------------------------------------------------------
// Laws
// ---------------------------------------------------------------------------

/// A non-delegable plan is held for the owner, whenever it arrives and
/// whatever was tracked under its id before.
pub proof fn lemma_non_delegable_plan_is_held(
    existing: Option<TaskView>,
    plan: (Seq<char>, Seq<char>, Seq<Seq<char>>),
    now: nat,
    timeout: nat,
)
    ensures
        ingest_step(existing, plan, PolicyDecision::NonDelegable, now, timeout).0
            == GatekeeperVerdict::HeldForManualApproval,
        ingest_step(existing, plan, PolicyDecision::NonDelegable, now, timeout).1.status
            == TaskStatus::HeldForManualApproval,
{
}

/// The timeout sweep never releases a task held for the owner, however much
/// time has passed, and never approves a non-delegable task.
pub proof fn lemma_sweep_keeps_held_tasks(t: TaskView, now: nat, timeout: nat)
    ensures
        t.status == TaskStatus::HeldForManualApproval ==> sweep_step(t, now, timeout) == t,
        t.decision == PolicyDecision::NonDelegable ==> sweep_step(t, now, timeout) == t,
{
}

/// A delegable plan seen again once its window (counted from when it was
/// first tracked) has elapsed is auto-approved; before that, under a
/// non-zero timeout, it is pending.
pub proof fn lemma_delegable_plan_approved_after_window(
    t: TaskView,
    plan: (Seq<char>, Seq<char>, Seq<Seq<char>>),
    now: nat,
    timeout: nat,
)
    ensures
        now >= t.created_at + timeout ==> ingest_step(
            Some(t),
            plan,
            PolicyDecision::Delegable,
            now,
            timeout,
        ).0 == GatekeeperVerdict::AutoApproved,
        0 < timeout && now < t.created_at + timeout ==> ingest_step(
            Some(t),
            plan,
            PolicyDecision::Delegable,
            now,
            timeout,
        ).0 == GatekeeperVerdict::PendingTimeout,
{
}

/// The owner's decision releases a plan at most once: after any decision,
/// a second one releases nothing.
pub proof fn lemma_owner_releases_at_most_once(t: TaskView, first: bool, second: bool)
    ensures
        !owner_step(owner_step(t, first).0, second).1,
        owner_step(t, first).1 ==> first && t.status == TaskStatus::HeldForManualApproval,
{
}

/// Recording an execution result keeps the task's plan and decision.
pub proof fn lemma_execution_keeps_plan(t: TaskView, result: ExecutionOutcome)
    ensures
        execution_step(t, result).plan == t.plan,
        execution_step(t, result).decision == t.decision,
        execution_step(t, result).task_id == t.task_id,
{
}

/// The timeout sweep moves only pending tasks: a task in any other status
/// (auto-approved, held, executed, failed or rejected) is left as it was and
/// is not handed out for execution.
pub proof fn lemma_sweep_leaves_settled_tasks(
    before: PendingPlans,
    after: PendingPlans,
    now: nat,
    r: Seq<(String, ExecutionPlan)>,
    k: Seq<char>,
)
    requires
        sweep_post(before, after, now, r),
        before.task(k) matches Some(t) && t.status != TaskStatus::Pending,
    ensures
        after.task(k) == before.task(k),
        forall|m: int| 0 <= m < r.len() ==> (#[trigger] r[m]).0@ != k,
{
    let t = before.task(k).unwrap();
    assert(after.task(k) == Some(sweep_step(t, now, before.timeout_spec())));
    assert forall|m: int| 0 <= m < r.len() implies (#[trigger] r[m]).0@ != k by {
        if r[m].0@ == k {
            assert(sweep_fires(t, now, before.timeout_spec()));
        }
    }
}

/// A plan whose execution result was recorded is never swept again: the
/// next sweep leaves its task as it is and does not hand it out.
pub proof fn lemma_recorded_task_is_not_swept_again(
    p0: PendingPlans,
    p1: PendingPlans,
    p2: PendingPlans,
    id: Seq<char>,
    result: ExecutionOutcome,
    rr: Result<(), LoopError>,
    now: nat,
    r: Seq<(String, ExecutionPlan)>,
)
    requires
        record_post(p0, p1, id, result, rr),
        p0.task(id) is Some,
        sweep_post(p1, p2, now, r),
    ensures
        p1.task(id) matches Some(t) && (t.status == TaskStatus::Executed || t.status
            == TaskStatus::ExecutionFailed),
        p2.task(id) == p1.task(id),
        forall|m: int| 0 <= m < r.len() ==> (#[trigger] r[m]).0@ != id,
{
    lemma_sweep_leaves_settled_tasks(p1, p2, now, r, id);
}

/// The sweep auto-approves a pending delegable task once its window has
/// elapsed, and hands it out for execution.
pub proof fn lemma_sweep_approves_elapsed_delegable_tasks(
    before: PendingPlans,
    after: PendingPlans,
    now: nat,
    r: Seq<(String, ExecutionPlan)>,
    k: Seq<char>,
)
    requires
        sweep_post(before, after, now, r),
        before.task(k) matches Some(t) && t.decision == PolicyDecision::Delegable && t.status
            == TaskStatus::Pending && now >= t.created_at + before.timeout_spec(),
    ensures
        after.task(k) matches Some(u) && u.status == TaskStatus::DelegableAutoApproved,
        exists|m: int| 0 <= m < r.len() && (#[trigger] r[m]).0@ == k,
{
    let t = before.task(k).unwrap();
    assert(sweep_fires(t, now, before.timeout_spec()));
    assert(after.task(k) == Some(sweep_step(t, now, before.timeout_spec())));
}

/// The sweep leaves alone a task still inside its window, and any task of
/// a non-delegable plan, even one the owner released.
pub proof fn lemma_sweep_waits_for_the_window(
    before: PendingPlans,
    after: PendingPlans,
    now: nat,
    r: Seq<(String, ExecutionPlan)>,
    k: Seq<char>,
)
    requires
        sweep_post(before, after, now, r),
        before.task(k) matches Some(t) && (t.created_at <= now < t.created_at + before.timeout_spec()
            || t.decision == PolicyDecision::NonDelegable),
    ensures
        after.task(k) == before.task(k),
        forall|m: int| 0 <= m < r.len() ==> (#[trigger] r[m]).0@ != k,
{
    let t = before.task(k).unwrap();
    assert(!sweep_fires(t, now, before.timeout_spec()));
    assert(after.task(k) == Some(sweep_step(t, now, before.timeout_spec())));
    assert forall|m: int| 0 <= m < r.len() implies (#[trigger] r[m]).0@ != k by {
        if r[m].0@ == k {
            assert(sweep_fires(t, now, before.timeout_spec()));
        }
    }
}

} // verus!
