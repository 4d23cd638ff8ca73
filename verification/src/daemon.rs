//! The daemon's decisions between socket reads and writes: which kind of
//! maestro message a parsed value is, what the gatekeeper answers and what it
//! runs, and one state step per event of the event loop.
use vstd::prelude::*;

use crate::channels::{ChannelError, ChannelName};
use crate::criteria::{default_patterns_spec, plan_eval};
use crate::event_loop::{
    ingest_step, owner_step, record_post, route_branch_request, route_post, sweep_post,
    BranchRegistry, GatekeeperVerdict, LoopError, PendingPlans,
};
use crate::hand_eye::{allows, Allowlist};
use crate::json::{get_spec, json_parse, parse_json, JsonValue};
use crate::policy::policy_spec;
use crate::protocol::{
    ExecutionOutcome, ExecutionPlan, SubChatOpenRequest, SubChatResult, TaskQuery, TaskQueryResult,
    TaskResolved, TaskSubmitAck,
};
use crate::text::{owned, push_str, str_eq, string_from_chars, trim, trim_str};
use crate::time::{Duration, Instant};

verus! {

/// The task id of the root task that the two branches serve.
pub const ROOT_TASK_ID: &'static str = "root-task";

/// The shapes a maestro message is tried as, in order.
#[derive(Debug, Clone, Copy, PartialEq, Eq, Structural)]
pub enum MaestroCandidate {
    /// The owner's answer for a held task (the value has `approved`); a
    /// value of this shape that does not parse is an error.
    Resolved,
    /// A tagged message (`type` is `execution_plan` or `task_query`); tried,
    /// and skipped when it does not parse.
    Typed,
    /// A bare execution plan (the value has `commands`); a value of this
    /// shape that does not parse is an error.
    PlainPlan,
    /// A bare query (an object whose only key is `task_id`); skipped when it
    /// does not parse.
    PlainQuery,
    /// A last try as a tagged message; when it fails, the message is
    /// invalid.
    Fallback,
}

/// The value names a tagged maestro message.
pub open spec fn typed_message(v: JsonValue) -> bool {
    match get_spec(v, "type"@) {
        Some(JsonValue::Str(t)) => t@ == "execution_plan"@ || t@ == "task_query"@,
        _ => false,
    }
}

pub open spec fn single_entry_object(v: JsonValue) -> bool {
    match v {
        JsonValue::Object(entries) => entries@.len() == 1,
        _ => false,
    }
}

/// The shapes to try for a parsed maestro message, in order.
pub open spec fn candidates_spec(v: JsonValue) -> Seq<MaestroCandidate> {
    if get_spec(v, "approved"@) is Some {
        seq![MaestroCandidate::Resolved]
    } else {
        let typed = if typed_message(v) {
            seq![MaestroCandidate::Typed]
        } else {
            Seq::empty()
        };
        if get_spec(v, "commands"@) is Some {
            typed + seq![MaestroCandidate::PlainPlan]
        } else {
            let query = if get_spec(v, "task_id"@) is Some && single_entry_object(v) {
                seq![MaestroCandidate::PlainQuery]
            } else {
                Seq::empty()
            };
            typed + query + seq![MaestroCandidate::Fallback]
        }
    }
}

/// The JSON value of a maestro message: its text, trimmed, must parse.
pub fn maestro_value(raw: &str) -> (r: Result<JsonValue, ChannelError>)
    ensures
        json_parse(trim(raw@)) matches Some(v) ==> r matches Ok(x) && x == v,
        json_parse(trim(raw@)) is None ==> r matches Err(ChannelError::Json(_)),
{
    let t = trim_str(raw);
    let text = string_from_chars(&t);
    match parse_json(text.as_str()) {
        Ok(v) => Ok(v),
        Err(m) => Err(ChannelError::Json(m)),
    }
}

/// Lists the shapes that a parsed maestro message is tried as.
pub fn maestro_candidates(v: &JsonValue) -> (r: Vec<MaestroCandidate>)
    ensures
        r@ == candidates_spec(*v),
{
    let mut r: Vec<MaestroCandidate> = Vec::new();
    if v.has_key("approved") {
        r.push(MaestroCandidate::Resolved);
        assert(r@ =~= candidates_spec(*v));
        return r;
    }
    let typed = match v.get("type") {
        Some(t) => match t.as_str() {
            Some(s) => str_eq(s, "execution_plan") || str_eq(s, "task_query"),
            None => false,
        },
        None => false,
    };
    assert(typed == typed_message(*v));
    if typed {
        r.push(MaestroCandidate::Typed);
    }
    if v.has_key("commands") {
        r.push(MaestroCandidate::PlainPlan);
        assert(r@ =~= candidates_spec(*v));
        return r;
    }
    let single = match v.object_len() {
        Some(n) => n == 1,
        None => false,
    };
    assert(single == single_entry_object(*v));
    if v.has_key("task_id") && single {
        r.push(MaestroCandidate::PlainQuery);
    }
    r.push(MaestroCandidate::Fallback);
    assert(r@ =~= candidates_spec(*v));
    r
}

/// A maestro message once parsed.
#[derive(Debug, Clone, PartialEq, Eq)]
pub enum MaestroInbound {
    Resolved(TaskResolved),
    Plan(ExecutionPlan),
    Query(TaskQuery),
}

/// The answer written back to the maestro.
#[derive(Debug, Clone, PartialEq, Eq)]
pub enum MaestroResponse {
    Submitted(TaskSubmitAck),
    Queried(TaskQueryResult),
    Resolved { task_id: String, approved: bool, status: &'static str },
}

/// The answer and, when the gatekeeper lets a plan run now, the plan.
#[derive(Debug, Clone, PartialEq, Eq)]
pub struct MaestroHandled {
    pub response: MaestroResponse,
    pub execute: Option<(String, ExecutionPlan)>,
}

/// A message can be handled: a plan's policy decision must be computable.
pub open spec fn inbound_decidable(inbound: MaestroInbound) -> bool {
    match inbound {
        MaestroInbound::Plan(p) => plan_eval(p.command_seqs(), default_patterns_spec()) is Some,
        _ => true,
    }
}

/// What handling a maestro message does to the task table and answers.
pub open spec fn maestro_post(
    before: PendingPlans,
    after: PendingPlans,
    inbound: MaestroInbound,
    now: nat,
    r: Result<MaestroHandled, LoopError>,
) -> bool {
    &&& after.timeout_spec() == before.timeout_spec()
    &&& match inbound {
        MaestroInbound::Resolved(res) => {
            let id = res.task_id@;
            &&& before.task(id) is None ==> (r matches Err(LoopError::TaskNotFound(s)) && s@ == id)
                && forall|k: Seq<char>| #[trigger] after.task(k) == before.task(k)
            &&& before.task(id) matches Some(t) ==> {
                let step = owner_step(t, res.approved);
                &&& after.task(id) == Some(step.0)
                &&& r matches Ok(h)
                &&& (h.execute is Some <==> res.approved && step.1)
                &&& h.execute matches Some(e) ==> e.0@ == id && e.1@ == t.plan
                &&& h.response matches MaestroResponse::Resolved { task_id, approved, status }
                &&& task_id@ == id
                &&& approved == res.approved
                &&& status@ == (if res.approved {
                    "approved"@
                } else {
                    "rejected"@
                })
            }
            &&& forall|k: Seq<char>| k != id ==> #[trigger] after.task(k) == before.task(k)
        },
        MaestroInbound::Plan(p) => {
            let step = ingest_step(
                before.task(p.task_id@),
                p@,
                policy_spec(p, default_patterns_spec()),
                now,
                before.timeout_spec(),
            );
            &&& after.task(p.task_id@) == Some(step.1)
            &&& forall|k: Seq<char>| k != p.task_id@ ==> #[trigger] after.task(k) == before.task(k)
            &&& r matches Ok(h)
            &&& (h.execute is Some <==> step.0 == GatekeeperVerdict::AutoApproved)
            &&& h.execute matches Some(e) ==> e.0@ == p.task_id@ && e.1@ == p@
            &&& h.response matches MaestroResponse::Submitted(ack)
            &&& ack.task_id@ == p.task_id@
        },
        MaestroInbound::Query(q) => {
            &&& forall|k: Seq<char>| #[trigger] after.task(k) == before.task(k)
            &&& before.task(q.task_id@) is None ==> (r matches Err(LoopError::TaskNotFound(s)) && s@
                == q.task_id@)
            &&& before.task(q.task_id@) matches Some(t) ==> {
                &&& r matches Ok(h)
                &&& h.execute is None
                &&& h.response matches MaestroResponse::Queried(res)
                &&& res.task_id@ == t.task_id
                &&& res.status == t.status
                &&& res.result == t.execution_result
            }
        },
    }
}

/// Handles one parsed maestro message: the owner's answer for a held task, a
/// plan to ingest, or a status query.
pub fn handle_maestro_inbound(pending: &mut PendingPlans, inbound: MaestroInbound, now: Instant) -> (r:
    Result<MaestroHandled, LoopError>)
    requires
        old(pending).wf(),
        now.wf(),
        inbound_decidable(inbound),
    ensures
        final(pending).wf(),
        maestro_post(*old(pending), *final(pending), inbound, now@, r),
{
    match inbound {
        MaestroInbound::Resolved(res) => {
            let released = pending.handle_owner_decision(res.task_id.as_str(), res.approved);
            match released {
                Err(e) => Err(e),
                Ok(plan) => {
                    let status = if res.approved {
                        "approved"
                    } else {
                        "rejected"
                    };
                    proof {
                        reveal_strlit("approved");
                        reveal_strlit("rejected");
                    }
                    let execute = if res.approved {
                        match plan {
                            Some(p) => Some((res.task_id.clone(), p)),
                            None => None,
                        }
                    } else {
                        None
                    };
                    Ok(
                        MaestroHandled {
                            response: MaestroResponse::Resolved {
                                task_id: res.task_id,
                                approved: res.approved,
                                status,
                            },
                            execute,
                        },
                    )
                },
            }
        },
        MaestroInbound::Plan(plan) => {
            let (verdict, ack) = pending.ingest(&plan, now);
            let execute = match verdict {
                GatekeeperVerdict::AutoApproved => Some((plan.task_id.clone(), plan)),
                _ => None,
            };
            Ok(MaestroHandled { response: MaestroResponse::Submitted(ack), execute })
        },
        MaestroInbound::Query(q) => match pending.query(q.task_id.as_str()) {
            Ok(res) => Ok(MaestroHandled { response: MaestroResponse::Queried(res), execute: None }),
            Err(e) => Err(e),
        },
    }
}

// ---------------------------------------------------------------------------
// Running plans
// ---------------------------------------------------------------------------

/// How one command of a plan ran.
#[derive(Debug, Clone, PartialEq, Eq)]
pub enum CommandRun {
    /// The process ran; `code` is its exit code when it had one.
    Finished { code: Option<i32>, success: bool, stdout: String, stderr: String },
    /// The command could not be run.
    Failed(String),
}

/// The exit code a run reports: its own code, or 0 or 1 by its success
/// when it was ended by a signal; 1 when it could not run.
pub open spec fn run_exit(run: CommandRun) -> i32 {
    match run {
        CommandRun::Finished { code, success, .. } => match code {
            Some(c) => c,
            None => if success {
                0
            } else {
                1
            },
        },
        CommandRun::Failed(_) => 1,
    }
}

/// The outcome of a plan from the runs of its commands: outputs are
/// concatenated in order, a failed run adds `execution error: ` and its
/// message to stderr, the exit code is the last one, and the plan succeeds
/// only when every run did.
pub open spec fn combined_outcome(runs: Seq<CommandRun>) -> (Seq<char>, Seq<char>, i32, bool)
    decreases runs.len(),
{
    if runs.len() == 0 {
        (Seq::empty(), Seq::empty(), 0, true)
    } else {
        let prev = combined_outcome(runs.drop_last());
        match runs.last() {
            CommandRun::Finished { code, success, stdout, stderr } => (
                prev.0 + stdout@,
                prev.1 + stderr@,
                run_exit(runs.last()),
                prev.3 && success,
            ),
            CommandRun::Failed(msg) => (
                prev.0,
                prev.1 + "execution error: "@ + msg@,
                1,
                false,
            ),
        }
    }
}

/// Combines the runs of a plan's commands into its execution outcome.
pub fn combine_runs(runs: &Vec<CommandRun>) -> (o: ExecutionOutcome)
    ensures
        (o.stdout@, o.stderr@, o.exit_code, o.success) == combined_outcome(runs@),
{
    let mut out: Vec<char> = Vec::new();
    let mut err: Vec<char> = Vec::new();
    let mut last_exit: i32 = 0;
    let mut success = true;
    let mut i: usize = 0;
    while i < runs.len()
        invariant
            i <= runs@.len(),
            (out@, err@, last_exit, success) == combined_outcome(runs@.take(i as int)),
        decreases runs.len() - i,
    {
        assert(runs@.take(i + 1).drop_last() =~= runs@.take(i as int));
        match &runs[i] {
            CommandRun::Finished { code, success: ok, stdout, stderr } => {
                last_exit = match code {
                    Some(c) => *c,
                    None => if *ok {
                        0
                    } else {
                        1
                    },
                };
                if !*ok {
                    success = false;
                }
                push_str(&mut out, stdout.as_str());
                push_str(&mut err, stderr.as_str());
            },
            CommandRun::Failed(msg) => {
                success = false;
                push_str(&mut err, "execution error: ");
                push_str(&mut err, msg.as_str());
                last_exit = 1;
            },
        }
        i = i + 1;
        proof {
            let ghost prev = combined_outcome(runs@.take(i - 1));
            assert(out@ =~= combined_outcome(runs@.take(i as int)).0);
            assert(err@ =~= combined_outcome(runs@.take(i as int)).1);
        }
    }
    assert(runs@.take(runs@.len() as int) =~= runs@);
    ExecutionOutcome {
        stdout: string_from_chars(&out),
        stderr: string_from_chars(&err),
        exit_code: last_exit,
        success,
    }
}

// ---------------------------------------------------------------------------
// Start-up checks
// ---------------------------------------------------------------------------

/// The application that drives each channel.
pub open spec fn channel_app(channel: ChannelName) -> Seq<char> {
    match channel {
        ChannelName::PrivateA => "org.gnome.Terminal"@,
        ChannelName::PrivateB => "org.gnome.Terminal"@,
        ChannelName::PublicMaestro => "org.mozilla.firefox"@,
    }
}

pub fn channel_app_id(channel: ChannelName) -> (r: &'static str)
    ensures
        r@ == channel_app(channel),
{
    match channel {
        ChannelName::PrivateA => "org.gnome.Terminal",
        ChannelName::PrivateB => "org.gnome.Terminal",
        ChannelName::PublicMaestro => "org.mozilla.firefox",
    }
}

/// How many of the three channels have their application allowed.
pub open spec fn authorized_count_spec(apps: Seq<crate::hand_eye::AllowlistRule>) -> nat {
    (if allows(apps, channel_app(ChannelName::PrivateA)) {
        1nat
    } else {
        0nat
    }) + (if allows(apps, channel_app(ChannelName::PrivateB)) {
        1nat
    } else {
        0nat
    }) + (if allows(apps, channel_app(ChannelName::PublicMaestro)) {
        1nat
    } else {
        0nat
    })
}

/// Counts the channels whose application the allowlist authorises.
pub fn authorized_target_count(allowlist: &Allowlist) -> (n: usize)
    ensures
        n == authorized_count_spec(allowlist.apps@),
{
    let mut n: usize = 0;
    if allowlist.is_allowed(channel_app_id(ChannelName::PrivateA)) {
        n = n + 1;
    }
    if allowlist.is_allowed(channel_app_id(ChannelName::PrivateB)) {
        n = n + 1;
    }
    if allowlist.is_allowed(channel_app_id(ChannelName::PublicMaestro)) {
        n = n + 1;
    }
    n
}

/// The event loop starts only when the maestro's browser may use the portal.
pub fn startup_check(allowlist: &Allowlist) -> (r: Result<(), String>)
    ensures
        r is Ok <==> allows(allowlist.apps@, "org.mozilla.firefox"@),
        r matches Err(m) ==> m@ == "firefox is not authorized for portal actions"@,
{
    if !allowlist.is_allowed("org.mozilla.firefox") {
        return Err(owned("firefox is not authorized for portal actions"));
    }
    Ok(())
}

// ---------------------------------------------------------------------------
// The event loop
// ---------------------------------------------------------------------------

/// What the loop hands the daemon: a timer tick, a parsed maestro message, a
/// branch request, or the outcome of a plan that was run.
#[derive(Debug)]
pub enum DaemonEvent {
    Tick(Instant),
    Maestro(MaestroInbound, Instant),
    Branch(ChannelName, SubChatOpenRequest),
    Executed(String, ExecutionOutcome),
}

/// What the loop must do next.
#[derive(Debug)]
pub enum DaemonAction {
    /// Run these plans (auto-approved by the sweep).
    Execute(Vec<(String, ExecutionPlan)>),
    /// Answer the maestro, and run the plan if one is released.
    AnswerMaestro(Result<MaestroHandled, LoopError>),
    /// Answer the branch.
    AnswerBranch(Result<SubChatResult, LoopError>),
    /// The outcome was recorded (or its task was unknown).
    Recorded(Result<(), LoopError>),
}

/// The daemon's state between events.
#[derive(Debug)]
pub struct Daemon {
    pub pending: PendingPlans,
    pub registry: BranchRegistry,
}

/// An event the daemon can take.
/// The times an event carries are well formed.
pub open spec fn event_times_ok(event: DaemonEvent) -> bool {
    match event {
        DaemonEvent::Tick(now) => now.wf(),
        DaemonEvent::Maestro(_, now) => now.wf(),
        _ => true,
    }
}

pub open spec fn event_ok(event: DaemonEvent) -> bool {
    match event {
        DaemonEvent::Tick(now) => now.wf(),
        DaemonEvent::Maestro(inbound, now) => now.wf() && inbound_decidable(inbound),
        _ => true,
    }
}

impl Daemon {
    /// A daemon serving `task_id` with no tracked plans.
    pub fn new(task_id: String) -> (d: Daemon)
        ensures
            d.pending.wf(),
            d.pending.timeout_spec() == crate::timers::DEFAULT_GATEKEEPER_TIMEOUT_SECS as nat
                * 1_000_000_000,
            forall|id: Seq<char>| d.pending.task(id) is None,
            d.registry.branch_a.task_id@ == task_id@,
            d.registry.branch_b.task_id@ == task_id@,
            d.registry.branch_a.sub_chat_counter == 0,
            d.registry.branch_b.sub_chat_counter == 0,
    {
        Daemon { pending: PendingPlans::new(), registry: BranchRegistry::new(task_id) }
    }

    /// A daemon serving `task_id` with no tracked plans, whose delegable
    /// plans wait `timeout` for the owner before they are auto-approved.
    pub fn with_delegation_timeout(task_id: String, timeout: Duration) -> (d: Daemon)
        requires
            timeout.wf(),
        ensures
            d.pending.wf(),
            d.pending.timeout_spec() == timeout@,
            forall|id: Seq<char>| d.pending.task(id) is None,
            d.registry.branch_a.task_id@ == task_id@,
            d.registry.branch_b.task_id@ == task_id@,
            d.registry.branch_a.sub_chat_counter == 0,
            d.registry.branch_b.sub_chat_counter == 0,
    {
        Daemon {
            pending: PendingPlans::with_delegation_timeout(timeout),
            registry: BranchRegistry::new(task_id),
        }
    }

    /// Takes one event when its plan, if it carries one, can be evaluated:
    /// `None`, with nothing changed, when a default criteria pattern that
    /// the evaluation reaches does not compile; otherwise what `step` does.
    pub fn try_step(&mut self, event: DaemonEvent) -> (a: Option<DaemonAction>)
        requires
            old(self).pending.wf(),
            event_times_ok(event),
        ensures
            final(self).pending.wf(),
            a is None <==> !event_ok(event),
            a is None ==> *final(self) == *old(self),
            a matches Some(x) ==> match event {
                DaemonEvent::Tick(now) => x matches DaemonAction::Execute(list) && sweep_post(
                    old(self).pending,
                    final(self).pending,
                    now@,
                    list@,
                ) && final(self).registry == old(self).registry,
                DaemonEvent::Maestro(inbound, now) => x matches DaemonAction::AnswerMaestro(r)
                    && maestro_post(old(self).pending, final(self).pending, inbound, now@, r)
                    && final(self).registry == old(self).registry,
                DaemonEvent::Branch(channel, request) => x matches DaemonAction::AnswerBranch(r)
                    && route_post(old(self).registry, final(self).registry, channel, request, r)
                    && final(self).pending == old(self).pending,
                DaemonEvent::Executed(id, outcome) => x matches DaemonAction::Recorded(r)
                    && record_post(old(self).pending, final(self).pending, id@, outcome, r)
                    && final(self).registry == old(self).registry,
            },
    {
        let defined = match &event {
            DaemonEvent::Maestro(MaestroInbound::Plan(p), _) => crate::criteria::evaluation_defined(
                p,
                &crate::criteria::CriteriaConfig::default_patterns(),
            ),
            _ => true,
        };
        if !defined {
            return None;
        }
        Some(self.step(event))
    }

    /// Takes one event and says what to do.
    pub fn step(&mut self, event: DaemonEvent) -> (a: DaemonAction)
        requires
            old(self).pending.wf(),
            event_ok(event),
        ensures
            final(self).pending.wf(),
            match event {
                DaemonEvent::Tick(now) => a matches DaemonAction::Execute(list) && sweep_post(
                    old(self).pending,
                    final(self).pending,
                    now@,
                    list@,
                ) && final(self).registry == old(self).registry,
                DaemonEvent::Maestro(inbound, now) => a matches DaemonAction::AnswerMaestro(r)
                    && maestro_post(old(self).pending, final(self).pending, inbound, now@, r)
                    && final(self).registry == old(self).registry,
                DaemonEvent::Branch(channel, request) => a matches DaemonAction::AnswerBranch(r)
                    && route_post(old(self).registry, final(self).registry, channel, request, r)
                    && final(self).pending == old(self).pending,
                DaemonEvent::Executed(id, outcome) => a matches DaemonAction::Recorded(r)
                    && record_post(old(self).pending, final(self).pending, id@, outcome, r)
                    && final(self).registry == old(self).registry,
            },
    {
        match event {
            DaemonEvent::Tick(now) => DaemonAction::Execute(self.pending.check_timeouts(now)),
            DaemonEvent::Maestro(inbound, now) => DaemonAction::AnswerMaestro(
                handle_maestro_inbound(&mut self.pending, inbound, now),
            ),
            DaemonEvent::Branch(channel, request) => DaemonAction::AnswerBranch(
                route_branch_request(&mut self.registry, channel, &request),
            ),
            DaemonEvent::Executed(id, outcome) => DaemonAction::Recorded(
                self.pending.record_execution(id.as_str(), outcome),
            ),
        }
    }
}

} // verus!
