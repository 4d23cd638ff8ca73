//! Tasks blocked on the owner's decision: each waits with a one-shot channel
//! on which its agent is told whether to run; the dashboard's answer
//! resolves it.
use vstd::prelude::*;

use crate::criteria::Criterion;
use crate::protocol::TaskResolved;
use crate::text::str_eq;

verus! {

#[verifier::external_type_specification]
#[verifier::external_body]
#[verifier::reject_recursive_types(T)]
pub struct ExOneshotSender<T>(tokio::sync::oneshot::Sender<T>);

/// Calls `tokio::sync::oneshot::Sender::send` with `approved` and gives
/// back the value it sent. Whether the agent was still waiting (the send's
/// outcome) is not used and not claimed.
#[verifier::external_body]
fn send_decision(sender: tokio::sync::oneshot::Sender<bool>, approved: bool) -> (sent: bool)
    ensures
        sent == approved,
{
    let _ = sender.send(approved);
    approved
}

/// A task blocked on the owner, as shown to the dashboard.
#[derive(Debug, Clone, PartialEq, Eq)]
pub struct PendingTask {
    pub task_id: String,
    pub app_name: String,
    pub command: String,
    pub risk_level: String,
    /// Critical tasks wait for the owner indefinitely.
    pub is_critical: bool,
    /// The criteria that held the task.
    pub triggered: Vec<Criterion>,
}

impl PendingTask {
    /// A field-for-field copy.
    pub fn copy(&self) -> (r: PendingTask)
        ensures
            r.task_id == self.task_id,
            r.app_name == self.app_name,
            r.command == self.command,
            r.risk_level == self.risk_level,
            r.is_critical == self.is_critical,
            r.triggered@ == self.triggered@,
    {
        let mut triggered: Vec<Criterion> = Vec::new();
        let mut i: usize = 0;
        while i < self.triggered.len()
            invariant
                i <= self.triggered@.len(),
                triggered@ == self.triggered@.take(i as int),
            decreases self.triggered.len() - i,
        {
            triggered.push(self.triggered[i]);
            i = i + 1;
            assert(triggered@ =~= self.triggered@.take(i as int));
        }
        assert(self.triggered@.take(self.triggered@.len() as int) =~= self.triggered@);
        PendingTask {
            task_id: self.task_id.clone(),
            app_name: self.app_name.clone(),
            command: self.command.clone(),
            risk_level: self.risk_level.clone(),
            is_critical: self.is_critical,
            triggered,
        }
    }

    /// The labels of the criteria that held the task, in order.
    pub fn triggered_labels(&self) -> (r: Vec<&'static str>)
        ensures
            r@.len() == self.triggered@.len(),
            forall|i: int|
                0 <= i < r@.len() ==> (#[trigger] r@[i])@ == self.triggered@[i].label_spec(),
    {
        let mut r: Vec<&'static str> = Vec::new();
        let mut i: usize = 0;
        while i < self.triggered.len()
            invariant
                i <= self.triggered@.len(),
                r@.len() == i,
                forall|j: int| 0 <= j < i ==> (#[trigger] r@[j])@ == self.triggered@[j].label_spec(),
            decreases self.triggered.len() - i,
        {
            r.push(self.triggered[i].label());
            i = i + 1;
        }
        r
    }
}

struct TaskEntry {
    info: PendingTask,
    sender: tokio::sync::oneshot::Sender<bool>,
}

/// The position of the task `id` among `ids`, or -1.
pub open spec fn id_index(ids: Seq<Seq<char>>, id: Seq<char>) -> int
    decreases ids.len(),
{
    if ids.len() == 0 {
        -1
    } else if ids.last() == id {
        ids.len() - 1
    } else {
        id_index(ids.drop_last(), id)
    }
}

pub proof fn lemma_id_index(ids: Seq<Seq<char>>, id: Seq<char>)
    ensures
        -1 <= id_index(ids, id) < ids.len(),
        id_index(ids, id) >= 0 ==> ids[id_index(ids, id)] == id,
        id_index(ids, id) == -1 ==> forall|i: int| 0 <= i < ids.len() ==> ids[i] != id,
    decreases ids.len(),
{
    if ids.len() > 0 && ids.last() != id {
        lemma_id_index(ids.drop_last(), id);
        assert forall|i: int| 0 <= i < ids.len() - 1 implies ids[i] == ids.drop_last()[i] by {}
    }
}

pub open spec fn distinct(ids: Seq<Seq<char>>) -> bool {
    forall|i: int, j: int| 0 <= i < j < ids.len() ==> #[trigger] ids[i] != #[trigger] ids[j]
}

pub proof fn lemma_id_index_at(ids: Seq<Seq<char>>, i: int)
    requires
        distinct(ids),
        0 <= i < ids.len(),
    ensures
        id_index(ids, ids[i]) == i,
{
    lemma_id_index(ids, ids[i]);
    let k = id_index(ids, ids[i]);
    if k != i {
        if k < i {
            assert(ids[k] != ids[i]);
        } else {
            assert(ids[i] != ids[k]);
        }
    }
}

/// The tasks currently blocked on the owner, by task id.
pub struct ActiveTasks {
    pending: Vec<TaskEntry>,
    /// The decisions sent to waiting agents so far, in order.
    sent: Ghost<Seq<(Seq<char>, bool)>>,
}

impl ActiveTasks {
    closed spec fn ids(self) -> Seq<Seq<char>> {
        self.pending@.map_values(|e: TaskEntry| e.info.task_id@)
    }

    pub closed spec fn wf(self) -> bool {
        distinct(self.ids())
    }

    /// The task waiting under `id`, if any.
    pub closed spec fn task(self, id: Seq<char>) -> Option<PendingTask> {
        let k = id_index(self.ids(), id);
        if k >= 0 {
            Some(self.pending@[k].info)
        } else {
            None
        }
    }

    /// The decisions handed to waiting agents so far: task id and answer.
    pub closed spec fn delivered(self) -> Seq<(Seq<char>, bool)> {
        self.sent@
    }

    /// The number of waiting tasks.
    pub closed spec fn count(self) -> nat {
        self.pending@.len()
    }

    pub fn new() -> (t: ActiveTasks)
        ensures
            t.wf(),
            t.count() == 0,
            forall|id: Seq<char>| t.task(id) is None,
            t.delivered() == Seq::<(Seq<char>, bool)>::empty(),
    {
        ActiveTasks { pending: Vec::new(), sent: Ghost(Seq::empty()) }
    }

    fn find(&self, id: &str) -> (r: Option<usize>)
        requires
            self.wf(),
        ensures
            r matches Some(i) ==> i == id_index(self.ids(), id@) && i < self.pending@.len(),
            r is None ==> id_index(self.ids(), id@) == -1,
    {
        let mut i: usize = 0;
        while i < self.pending.len()
            invariant
                self.wf(),
                i <= self.pending@.len(),
                forall|j: int| 0 <= j < i ==> (#[trigger] self.ids()[j]) != id@,
            decreases self.pending.len() - i,
        {
            assert(self.ids()[i as int] == self.pending@[i as int].info.task_id@);
            if str_eq(self.pending[i].info.task_id.as_str(), id) {
                proof {
                    lemma_id_index_at(self.ids(), i as int);
                }
                return Some(i);
            }
            i = i + 1;
        }
        proof {
            lemma_id_index(self.ids(), id@);
        }
        None
    }

    /// Registers a task blocked on the owner, with the channel on which its
    /// agent waits; a task already waiting under the same id is replaced.
    pub fn register(&mut self, task: PendingTask, tx: tokio::sync::oneshot::Sender<bool>)
        requires
            old(self).wf(),
        ensures
            final(self).wf(),
            final(self).task(task.task_id@) == Some(task),
            forall|k: Seq<char>| k != task.task_id@ ==> #[trigger] final(self).task(k) == old(self).task(k),
            old(self).task(task.task_id@) is Some ==> final(self).count() == old(self).count(),
            old(self).task(task.task_id@) is None ==> final(self).count() == old(self).count() + 1,
            final(self).delivered() == old(self).delivered(),
    {
        let ghost id = task.task_id@;
        let ghost before = self.ids();
        let found = self.find(task.task_id.as_str());
        let ghost old_pending = self.pending@;
        let entry = TaskEntry { info: task, sender: tx };
        match found {
            Some(i) => {
                self.pending.set(i, entry);
                proof {
                    let after = self.ids();
                    lemma_id_index(before, id);
                    assert forall|j: int| 0 <= j < after.len() implies #[trigger] after[j] == before[j] by {
                        if j != i {
                            assert(self.pending@[j] == old_pending[j]);
                        }
                    }
                    assert(after =~= before);
                    assert forall|k: Seq<char>| k != id implies #[trigger] self.task(k) == old(self).task(k) by {
                        lemma_id_index(before, k);
                        if id_index(before, k) >= 0 {
                            assert(id_index(before, k) != i);
                            assert(self.pending@[id_index(before, k)] == old_pending[id_index(before, k)]);
                        }
                    }
                }
            },
            None => {
                proof {
                    lemma_id_index(before, id);
                }
                self.pending.push(entry);
                proof {
                    let after = self.ids();
                    assert(after =~= before.push(id));
                    assert(after.drop_last() =~= before);
                    assert(distinct(after)) by {
                        assert forall|a: int, b: int| 0 <= a < b < after.len() implies #[trigger] after[a]
                            != #[trigger] after[b] by {
                            if b < before.len() {
                                assert(before[a] != before[b]);
                            } else {
                                assert(before[a] != id);
                            }
                        }
                    }
                    assert forall|k: Seq<char>| k != id implies #[trigger] self.task(k) == old(self).task(k) by {
                        lemma_id_index(before, k);
                        if id_index(before, k) >= 0 {
                            assert(self.pending@[id_index(before, k)] == old_pending[id_index(before, k)]);
                        }
                    }
                }
            },
        }
    }

    /// Whether a task is still waiting under `id`.
    pub fn contains(&self, id: &str) -> (b: bool)
        requires
            self.wf(),
        ensures
            b == (self.task(id@) is Some),
    {
        self.find(id).is_some()
    }

    /// Copies of the waiting tasks, in registration order.
    pub fn pending_tasks(&self) -> (r: Vec<PendingTask>)
        requires
            self.wf(),
        ensures
            r@.len() == self.count(),
            forall|i: int|
                0 <= i < r@.len() ==> (self.task((#[trigger] r@[i]).task_id@) matches Some(t)
                    && r@[i].app_name == t.app_name && r@[i].command == t.command && r@[i].risk_level
                    == t.risk_level && r@[i].is_critical == t.is_critical && r@[i].triggered@
                    == t.triggered@),
    {
        let mut r: Vec<PendingTask> = Vec::new();
        let mut i: usize = 0;
        while i < self.pending.len()
            invariant
                self.wf(),
                i <= self.pending@.len(),
                r@.len() == i,
                forall|j: int|
                    0 <= j < i ==> (#[trigger] r@[j]).task_id == self.pending@[j].info.task_id
                        && r@[j].app_name == self.pending@[j].info.app_name && r@[j].command
                        == self.pending@[j].info.command && r@[j].risk_level
                        == self.pending@[j].info.risk_level && r@[j].is_critical
                        == self.pending@[j].info.is_critical && r@[j].triggered@
                        == self.pending@[j].info.triggered@,
            decreases self.pending.len() - i,
        {
            r.push(self.pending[i].info.copy());
            i = i + 1;
        }
        proof {
            assert forall|j: int| 0 <= j < r@.len() implies (self.task((#[trigger] r@[j]).task_id@) matches Some(
                t,
            ) && r@[j].app_name == t.app_name && r@[j].command == t.command && r@[j].risk_level
                == t.risk_level && r@[j].is_critical == t.is_critical && r@[j].triggered@
                == t.triggered@) by {
                assert(self.ids()[j] == self.pending@[j].info.task_id@);
                lemma_id_index_at(self.ids(), j);
            }
        }
        r
    }

    /// Resolves a waiting task: the agent is told `approved` and the task
    /// leaves the registry. `None` when no task waits under `id`.
    pub fn resolve(&mut self, id: &str, approved: bool) -> (r: Option<()>)
        requires
            old(self).wf(),
        ensures
            final(self).wf(),
            old(self).task(id@) is None ==> r is None && final(self).count() == old(self).count()
                && final(self).delivered() == old(self).delivered() && forall|k: Seq<char>|
                #[trigger] final(self).task(k) == old(self).task(k),
            old(self).task(id@) is Some ==> r is Some && final(self).task(id@) is None
                && final(self).count() + 1 == old(self).count() && final(self).delivered()
                == old(self).delivered().push((id@, approved)),
            forall|k: Seq<char>| k != id@ ==> #[trigger] final(self).task(k) == old(self).task(k),
    {
        match self.find(id) {
            None => None,
            Some(i) => {
                let ghost before = self.ids();
                let ghost old_pending = self.pending@;
                proof {
                    lemma_id_index(before, id@);
                }
                let entry = self.pending.remove(i);
                let sent = send_decision(entry.sender, approved);
                proof {
                    self.sent@ = self.sent@.push((id@, sent));
                }
                proof {
                    let after = self.ids();
                    assert(after =~= before.remove(i as int));
                    assert(distinct(after)) by {
                        assert forall|a: int, b: int| 0 <= a < b < after.len() implies #[trigger] after[a]
                            != #[trigger] after[b] by {
                            let a0 = if a < i { a } else { a + 1 };
                            let b0 = if b < i { b } else { b + 1 };
                            assert(after[a] == before[a0]);
                            assert(after[b] == before[b0]);
                            assert(before[a0] != before[b0]);
                        }
                    }
                    lemma_id_index(after, id@);
                    if id_index(after, id@) >= 0 {
                        let a = id_index(after, id@);
                        let a0 = if a < i { a } else { a + 1 };
                        assert(after[a] == before[a0]);
                        assert(before[a0] != before[i as int]);
                    }
                    assert forall|k: Seq<char>| k != id@ implies #[trigger] self.task(k) == old(self).task(k) by {
                        lemma_id_index(before, k);
                        lemma_id_index(after, k);
                        if id_index(before, k) >= 0 {
                            let j = id_index(before, k);
                            assert(j != i);
                            let j1 = if j < i { j } else { j - 1 };
                            assert(after[j1] == before[j]);
                            lemma_id_index_at(after, j1);
                            assert(self.pending@[j1] == old_pending[j]);
                        } else {
                            if id_index(after, k) >= 0 {
                                let a = id_index(after, k);
                                let a0 = if a < i { a } else { a + 1 };
                                assert(after[a] == before[a0]);
                            }
                        }
                    }
                }
                Some(())
            },
        }
    }

    pub fn len(&self) -> (n: usize)
        ensures
            n == self.count(),
    {
        self.pending.len()
    }

    pub fn is_empty(&self) -> (b: bool)
        ensures
            b == (self.count() == 0),
    {
        self.pending.len() == 0
    }
}

/// Handles the dashboard's decision on a task: the waiting task is resolved
/// with it and its id reported; `None` when no task waits under that id.
pub fn handle_resolution(resolved: TaskResolved, tasks: &mut ActiveTasks) -> (r: Option<String>)
    requires
        old(tasks).wf(),
    ensures
        final(tasks).wf(),
        r == if old(tasks).task(resolved.task_id@) is Some {
            Some(resolved.task_id)
        } else {
            None
        },
        final(tasks).task(resolved.task_id@) is None,
        old(tasks).task(resolved.task_id@) is Some ==> final(tasks).delivered() == old(
            tasks,
        ).delivered().push((resolved.task_id@, resolved.approved)),
        old(tasks).task(resolved.task_id@) is None ==> final(tasks).delivered() == old(tasks).delivered(),
        old(tasks).task(resolved.task_id@) is None ==> final(tasks).count() == old(tasks).count(),
        old(tasks).task(resolved.task_id@) is Some ==> final(tasks).count() + 1 == old(tasks).count(),
        forall|k: Seq<char>| k != resolved.task_id@ ==> #[trigger] final(tasks).task(k) == old(tasks).task(k),
{
    match tasks.resolve(resolved.task_id.as_str(), resolved.approved) {
        Some(()) => Some(resolved.task_id),
        None => None,
    }
}

} // verus!
