//! The dashboard's state logic: role assignments (at most one maestro), the
//! list of tasks awaiting the owner, and manual plans built from tagged
//! command rows.
use vstd::prelude::*;

use crate::criteria::CriteriaPatterns;
use crate::policy::{policy_spec, PolicyDecision};
use crate::protocol::{ExecutionPlan, Symbol};
use crate::text::{owned, push_str, string_from_chars, trim, trim_str};

verus! {

/// What the gatekeeper tells the dashboard.
#[derive(Debug, Clone, PartialEq, Eq)]
pub enum GatekeeperEvent {
    TaskPending {
        task_id: String,
        app_name: String,
        command: String,
        risk_level: String,
        is_critical: bool,
        triggered: Vec<String>,
    },
    TaskResolved { task_id: String, approved: bool },
}

/// A task shown to the owner for a decision.
#[derive(Debug, Clone, PartialEq, Eq)]
pub struct PendingTask {
    pub task_id: String,
    pub app_name: String,
    pub command: String,
    pub risk_level: String,
    pub is_critical: bool,
    pub triggered: Vec<String>,
}

/// What the dashboard's background tasks report.
#[derive(Debug)]
pub enum UiEvent {
    SocketStatusUpdate { maestro_online: bool, sub_a_online: bool, sub_b_online: bool },
    Gatekeeper(GatekeeperEvent),
}

/// What the dashboard sends to the gatekeeper.
#[derive(Debug, Clone, PartialEq, Eq)]
pub enum OutboundEvent {
    TaskResolved { task_id: String, approved: bool },
    ExecutionPlan { task_id: String, description: String, commands: Vec<String> },
}

/// The tasks awaiting the owner after `id` was resolved: every other task,
/// in order.
pub open spec fn without_task(s: Seq<PendingTask>, id: Seq<char>) -> Seq<PendingTask>
    decreases s.len(),
{
    if s.len() == 0 {
        s
    } else {
        let rest = without_task(s.drop_last(), id);
        if s.last().task_id@ != id {
            rest.push(s.last())
        } else {
            rest
        }
    }
}

pub open spec fn has_task(s: Seq<PendingTask>, id: Seq<char>) -> bool {
    exists|i: int| 0 <= i < s.len() && (#[trigger] s[i]).task_id@ == id
}

/// Applies a gatekeeper event to the list of tasks awaiting the owner: a
/// new pending task is added once, a resolved one is removed.
#[verifier::loop_isolation(false)]
pub fn apply_gatekeeper_event(pending: &mut Vec<PendingTask>, event: GatekeeperEvent)
    ensures
        event matches GatekeeperEvent::TaskPending {
            task_id,
            app_name,
            command,
            risk_level,
            is_critical,
            triggered,
        } ==> (has_task(old(pending)@, task_id@) ==> final(pending)@ == old(pending)@) && (!has_task(
            old(pending)@,
            task_id@,
        ) ==> final(pending)@ == old(pending)@.push(
            PendingTask { task_id, app_name, command, risk_level, is_critical, triggered },
        )),
        event matches GatekeeperEvent::TaskResolved { task_id, .. } ==> final(pending)@
            == without_task(old(pending)@, task_id@),
{
    match event {
        GatekeeperEvent::TaskPending {
            task_id,
            app_name,
            command,
            risk_level,
            is_critical,
            triggered,
        } => {
            let mut i: usize = 0;
            while i < pending.len()
                invariant
                    i <= pending@.len(),
                    pending@ == old(pending)@,
                    forall|j: int| 0 <= j < i ==> (#[trigger] pending@[j]).task_id@ != task_id@,
                decreases pending.len() - i,
            {
                if pending[i].task_id == task_id {
                    assert(has_task(old(pending)@, task_id@)) by {
                        assert(pending@[i as int].task_id@ == task_id@);
                    }
                    return;
                }
                i = i + 1;
            }
            pending.push(PendingTask { task_id, app_name, command, risk_level, is_critical, triggered });
        },
        GatekeeperEvent::TaskResolved { task_id, .. } => {
            let mut rest: Vec<PendingTask> = Vec::new();
            std::mem::swap(pending, &mut rest);
            let ghost orig = rest@;
            let ghost mut k: int = 0;
            assert(orig.take(0) =~= Seq::<PendingTask>::empty());
            while rest.len() > 0
                invariant
                    0 <= k <= orig.len(),
                    rest@ == orig.skip(k),
                    pending@ == without_task(orig.take(k), task_id@),
                decreases rest.len(),
            {
                let t = rest.remove(0);
                proof {
                    assert(t == orig[k]);
                    assert(orig.take(k + 1).drop_last() =~= orig.take(k));
                    assert(orig.skip(k).remove(0) =~= orig.skip(k + 1));
                    k = k + 1;
                }
                if t.task_id != task_id {
                    pending.push(t);
                }
            }
            assert(orig.take(k) =~= orig);
        },
    }
}

// ---------------------------------------------------------------------------
// Roles
// ---------------------------------------------------------------------------

#[derive(Debug, Clone, Copy, PartialEq, Eq, Structural)]
pub enum BranchRole {
    /// No role assigned.
    NoRole,
    Maestro,
    BranchA,
    BranchB,
}

#[derive(Debug, Clone, PartialEq, Eq)]
pub struct RoleAssignment {
    pub app_id: String,
    pub role: BranchRole,
}

impl View for RoleAssignment {
    type V = (Seq<char>, BranchRole);

    open spec fn view(&self) -> (Seq<char>, BranchRole) {
        (self.app_id@, self.role)
    }
}

#[derive(Debug, Clone, Default, PartialEq, Eq)]
pub struct RoleAssignmentSet {
    pub roles: Vec<RoleAssignment>,
}

/// The assignments as (application, role) pairs.
pub open spec fn role_pairs(s: Seq<RoleAssignment>) -> Seq<(Seq<char>, BranchRole)> {
    s.map_values(|r: RoleAssignment| r@)
}

/// The assignments with every entry for `app` removed.
pub open spec fn without_app(s: Seq<(Seq<char>, BranchRole)>, app: Seq<char>) -> Seq<(Seq<char>, BranchRole)>
    decreases s.len(),
{
    if s.len() == 0 {
        s
    } else {
        let rest = without_app(s.drop_last(), app);
        if s.last().0 != app {
            rest.push(s.last())
        } else {
            rest
        }
    }
}

/// The position of the first entry for `app`, or -1.
pub open spec fn first_app_index(s: Seq<(Seq<char>, BranchRole)>, app: Seq<char>) -> int
    decreases s.len(),
{
    if s.len() == 0 {
        -1
    } else if s[0].0 == app {
        0
    } else {
        let r = first_app_index(s.drop_first(), app);
        if r < 0 {
            -1
        } else {
            r + 1
        }
    }
}

/// The position of the first maestro, or -1.
pub open spec fn first_maestro_index(s: Seq<(Seq<char>, BranchRole)>) -> int
    decreases s.len(),
{
    if s.len() == 0 {
        -1
    } else if s[0].1 == BranchRole::Maestro {
        0
    } else {
        let r = first_maestro_index(s.drop_first());
        if r < 0 {
            -1
        } else {
            r + 1
        }
    }
}

/// The assignments after `app` is promoted to maestro: every other maestro
/// loses its role, then the first entry for `app` becomes maestro, or a new
/// maestro entry for it is added at the end.
pub open spec fn promoted(s: Seq<(Seq<char>, BranchRole)>, app: Seq<char>) -> Seq<(Seq<char>, BranchRole)> {
    let demoted = s.map_values(
        |e: (Seq<char>, BranchRole)|
            if e.1 == BranchRole::Maestro && e.0 != app {
                (e.0, BranchRole::NoRole)
            } else {
                e
            },
    );
    let k = first_app_index(s, app);
    if k >= 0 {
        demoted.update(k, (app, BranchRole::Maestro))
    } else {
        demoted.push((app, BranchRole::Maestro))
    }
}

/// No application has two entries.
pub open spec fn unique_apps(s: Seq<(Seq<char>, BranchRole)>) -> bool {
    forall|i: int, j: int| 0 <= i < j < s.len() ==> #[trigger] s[i].0 != #[trigger] s[j].0
}

pub proof fn lemma_first_app_index(s: Seq<(Seq<char>, BranchRole)>, app: Seq<char>)
    ensures
        -1 <= first_app_index(s, app) < s.len(),
        first_app_index(s, app) >= 0 ==> s[first_app_index(s, app)].0 == app,
        first_app_index(s, app) >= 0 ==> forall|j: int|
            0 <= j < first_app_index(s, app) ==> (#[trigger] s[j]).0 != app,
        first_app_index(s, app) == -1 ==> forall|j: int| 0 <= j < s.len() ==> (#[trigger] s[j]).0 != app,
    decreases s.len(),
{
    if s.len() > 0 && s[0].0 != app {
        lemma_first_app_index(s.drop_first(), app);
        assert forall|j: int| 0 < j < s.len() implies s[j] == s.drop_first()[j - 1] by {}
    }
}

pub proof fn lemma_first_maestro_index(s: Seq<(Seq<char>, BranchRole)>)
    ensures
        -1 <= first_maestro_index(s) < s.len(),
        first_maestro_index(s) >= 0 ==> s[first_maestro_index(s)].1 == BranchRole::Maestro,
        first_maestro_index(s) >= 0 ==> forall|j: int|
            0 <= j < first_maestro_index(s) ==> (#[trigger] s[j]).1 != BranchRole::Maestro,
        first_maestro_index(s) == -1 ==> forall|j: int|
            0 <= j < s.len() ==> (#[trigger] s[j]).1 != BranchRole::Maestro,
    decreases s.len(),
{
    if s.len() > 0 && s[0].1 != BranchRole::Maestro {
        lemma_first_maestro_index(s.drop_first());
        assert forall|j: int| 0 < j < s.len() implies s[j] == s.drop_first()[j - 1] by {}
    }
}

pub proof fn lemma_without_app(s: Seq<(Seq<char>, BranchRole)>, app: Seq<char>)
    ensures
        forall|i: int| 0 <= i < without_app(s, app).len() ==> (#[trigger] without_app(s, app)[i]).0 != app,
        forall|i: int|
            0 <= i < without_app(s, app).len() ==> exists|j: int|
                0 <= j < s.len() && s[j] == #[trigger] without_app(s, app)[i],
        unique_apps(s) ==> unique_apps(without_app(s, app)),
    decreases s.len(),
{
    if s.len() > 0 {
        let p = s.drop_last();
        lemma_without_app(p, app);
        let w = without_app(s, app);
        let wp = without_app(p, app);
        assert forall|i: int| 0 <= i < w.len() implies exists|j: int|
            0 <= j < s.len() && s[j] == #[trigger] w[i] by {
            if i < wp.len() {
                let j = choose|j: int| 0 <= j < p.len() && p[j] == wp[i];
                assert(s[j] == w[i]);
            } else {
                assert(s[s.len() - 1] == w[i]);
            }
        }
        if unique_apps(s) {
            assert(unique_apps(p)) by {
                assert forall|i: int, j: int| 0 <= i < j < p.len() implies #[trigger] p[i].0
                    != #[trigger] p[j].0 by {
                    assert(s[i].0 != s[j].0);
                }
            }
            assert forall|i: int, j: int| 0 <= i < j < w.len() implies #[trigger] w[i].0
                != #[trigger] w[j].0 by {
                if j < wp.len() {
                } else {
                    let a = choose|a: int| 0 <= a < p.len() && p[a] == wp[i];
                    assert(s[a].0 != s[s.len() - 1].0);
                }
            }
        }
    }
}

impl RoleAssignmentSet {
    /// Gives `app_id` the role `role`: any previous entry for it goes, and a
    /// new entry is added at the end unless the role is `NoRole`.
    pub fn set_role(&mut self, app_id: String, role: BranchRole)
        ensures
            role == BranchRole::NoRole ==> role_pairs(final(self).roles@) == without_app(
                role_pairs(old(self).roles@),
                app_id@,
            ),
            role != BranchRole::NoRole ==> role_pairs(final(self).roles@) == without_app(
                role_pairs(old(self).roles@),
                app_id@,
            ).push((app_id@, role)),
    {
        let mut rest: Vec<RoleAssignment> = Vec::new();
        std::mem::swap(&mut self.roles, &mut rest);
        let ghost orig = rest@;
        let ghost mut k: int = 0;
        assert(role_pairs(orig.take(0)) =~= Seq::<(Seq<char>, BranchRole)>::empty());
        while rest.len() > 0
            invariant
                0 <= k <= orig.len(),
                rest@ == orig.skip(k),
                role_pairs(self.roles@) == without_app(role_pairs(orig.take(k)), app_id@),
            decreases rest.len(),
        {
            let e = rest.remove(0);
            proof {
                assert(e == orig[k]);
                assert(role_pairs(orig.take(k + 1)).drop_last() =~= role_pairs(orig.take(k)));
                assert(orig.skip(k).remove(0) =~= orig.skip(k + 1));
                k = k + 1;
            }
            if e.app_id != app_id {
                self.roles.push(e);
                proof {
                    assert(role_pairs(self.roles@) =~= without_app(role_pairs(orig.take(k)), app_id@));
                }
            }
        }
        assert(orig.take(k) =~= orig);
        if role != BranchRole::NoRole {
            self.roles.push(RoleAssignment { app_id, role });
            proof {
                assert(role_pairs(self.roles@) =~= without_app(role_pairs(orig), app_id@).push(
                    (app_id@, role),
                ));
            }
        }
    }

    /// The first assignment holding the maestro role.
    #[verifier::loop_isolation(false)]
    pub fn current_maestro(&self) -> (r: Option<&RoleAssignment>)
        ensures
            first_maestro_index(role_pairs(self.roles@)) == -1 ==> r is None,
            first_maestro_index(role_pairs(self.roles@)) >= 0 ==> (r matches Some(x) && x@ == role_pairs(
                self.roles@,
            )[first_maestro_index(role_pairs(self.roles@))]),
    {
        proof {
            lemma_first_maestro_index(role_pairs(self.roles@));
        }
        let mut i: usize = 0;
        while i < self.roles.len()
            invariant
                i <= self.roles@.len(),
                forall|j: int| 0 <= j < i ==> (#[trigger] self.roles@[j]).role != BranchRole::Maestro,
            decreases self.roles.len() - i,
        {
            if self.roles[i].role == BranchRole::Maestro {
                proof {
                    let k = first_maestro_index(role_pairs(self.roles@));
                    assert(role_pairs(self.roles@)[i as int] == self.roles@[i as int]@);
                    if 0 <= k < i {
                        assert(role_pairs(self.roles@)[k] == self.roles@[k]@);
                        assert(self.roles@[k].role != BranchRole::Maestro);
                    }
                }
                return Some(&self.roles[i]);
            }
            i = i + 1;
        }
        proof {
            let k = first_maestro_index(role_pairs(self.roles@));
            if k >= 0 {
                assert(role_pairs(self.roles@)[k] == self.roles@[k]@);
                assert(self.roles@[k].role != BranchRole::Maestro);
            }
        }
        None
    }

    /// Makes `app_id` the maestro; see `promoted`.
    pub fn promote_maestro(&mut self, app_id: &str)
        ensures
            role_pairs(final(self).roles@) == promoted(role_pairs(old(self).roles@), app_id@),
    {
        let ghost orig = role_pairs(self.roles@);
        let mut i: usize = 0;
        let mut found: Option<usize> = None;
        proof {
            lemma_first_app_index(orig, app_id@);
        }
        while i < self.roles.len()
            invariant
                i <= self.roles@.len(),
                self.roles@.len() == orig.len(),
                forall|j: int|
                    0 <= j < i ==> (#[trigger] role_pairs(self.roles@)[j]) == (if orig[j].1
                        == BranchRole::Maestro && orig[j].0 != app_id@ {
                        (orig[j].0, BranchRole::NoRole)
                    } else {
                        orig[j]
                    }),
                forall|j: int| i <= j < orig.len() ==> (#[trigger] role_pairs(self.roles@)[j]) == orig[j],
                found is None ==> forall|j: int| 0 <= j < i ==> (#[trigger] orig[j]).0 != app_id@,
                found matches Some(f) ==> f < i && f == first_app_index(orig, app_id@),
                -1 <= first_app_index(orig, app_id@) < orig.len(),
                first_app_index(orig, app_id@) >= 0 ==> orig[first_app_index(orig, app_id@)].0 == app_id@
                    && forall|j: int|
                    0 <= j < first_app_index(orig, app_id@) ==> (#[trigger] orig[j]).0 != app_id@,
                first_app_index(orig, app_id@) == -1 ==> forall|j: int|
                    0 <= j < orig.len() ==> (#[trigger] orig[j]).0 != app_id@,
            decreases self.roles.len() - i,
        {
            let same = crate::text::str_eq(self.roles[i].app_id.as_str(), app_id);
            assert(role_pairs(self.roles@)[i as int] == orig[i as int]);
            assert(role_pairs(self.roles@)[i as int] == self.roles@[i as int]@);
            assert(same == (orig[i as int].0 == app_id@));
            let ghost prev = self.roles@;
            if self.roles[i].role == BranchRole::Maestro && !same {
                let app = self.roles[i].app_id.clone();
                self.roles.set(i, RoleAssignment { app_id: app, role: BranchRole::NoRole });
            }
            proof {
                assert forall|j: int| 0 <= j < self.roles@.len() && j != i implies #[trigger] role_pairs(
                    self.roles@,
                )[j] == role_pairs(prev)[j] by {
                    assert(self.roles@[j] == prev[j]);
                }
                assert(role_pairs(self.roles@)[i as int] == self.roles@[i as int]@);
            }
            if same && found.is_none() {
                found = Some(i);
            }
            i = i + 1;
        }
        let ghost demoted = role_pairs(self.roles@);
        assert(demoted =~= orig.map_values(
            |e: (Seq<char>, BranchRole)|
                if e.1 == BranchRole::Maestro && e.0 != app_id@ {
                    (e.0, BranchRole::NoRole)
                } else {
                    e
                },
        ));
        match found {
            Some(f) => {
                let app = self.roles[f].app_id.clone();
                let ghost prev = self.roles@;
                proof {
                    assert(role_pairs(prev)[f as int] == prev[f as int]@);
                    assert(orig[f as int].0 == app_id@);
                }
                self.roles.set(f, RoleAssignment { app_id: app, role: BranchRole::Maestro });
                proof {
                    assert forall|j: int| 0 <= j < self.roles@.len() implies #[trigger] role_pairs(
                        self.roles@,
                    )[j] == demoted.update(f as int, (app_id@, BranchRole::Maestro))[j] by {
                        if j != f {
                            assert(self.roles@[j] == prev[j]);
                        }
                    }
                }
                assert(role_pairs(self.roles@) =~= demoted.update(f as int, (app_id@, BranchRole::Maestro)));
            },
            None => {
                self.roles.push(RoleAssignment { app_id: owned(app_id), role: BranchRole::Maestro });
                assert(role_pairs(self.roles@) =~= demoted.push((app_id@, BranchRole::Maestro)));
            },
        }
    }

    /// The role of `app_id`: that of its first entry, or `NoRole`.
    #[verifier::loop_isolation(false)]
    pub fn role_for_app(&self, app_id: &str) -> (r: BranchRole)
        ensures
            first_app_index(role_pairs(self.roles@), app_id@) == -1 ==> r == BranchRole::NoRole,
            first_app_index(role_pairs(self.roles@), app_id@) >= 0 ==> r == role_pairs(
                self.roles@,
            )[first_app_index(role_pairs(self.roles@), app_id@)].1,
    {
        proof {
            lemma_first_app_index(role_pairs(self.roles@), app_id@);
        }
        let mut i: usize = 0;
        while i < self.roles.len()
            invariant
                i <= self.roles@.len(),
                forall|j: int| 0 <= j < i ==> (#[trigger] self.roles@[j]).app_id@ != app_id@,
            decreases self.roles.len() - i,
        {
            if crate::text::str_eq(self.roles[i].app_id.as_str(), app_id) {
                proof {
                    let k = first_app_index(role_pairs(self.roles@), app_id@);
                    assert(role_pairs(self.roles@)[i as int] == self.roles@[i as int]@);
                    if 0 <= k < i {
                        assert(role_pairs(self.roles@)[k] == self.roles@[k]@);
                        assert(self.roles@[k].app_id@ != app_id@);
                    }
                }
                return self.roles[i].role;
            }
            i = i + 1;
        }
        proof {
            let k = first_app_index(role_pairs(self.roles@), app_id@);
            if k >= 0 {
                assert(role_pairs(self.roles@)[k] == self.roles@[k]@);
                assert(self.roles@[k].app_id@ != app_id@);
            }
        }
        BranchRole::NoRole
    }
}

/// After a promotion, among assignments with distinct applications, the
/// promoted application is the one and only maestro.
pub proof fn lemma_promotion_leaves_single_maestro(s: Seq<(Seq<char>, BranchRole)>, app: Seq<char>)
    requires
        unique_apps(s),
    ensures
        unique_apps(promoted(s, app)),
        forall|i: int|
            0 <= i < promoted(s, app).len() ==> ((#[trigger] promoted(s, app)[i]).1
                == BranchRole::Maestro <==> promoted(s, app)[i].0 == app),
        exists|i: int| 0 <= i < promoted(s, app).len() && (#[trigger] promoted(s, app)[i]).0 == app,
{
    lemma_first_app_index(s, app);
    let p = promoted(s, app);
    let k = first_app_index(s, app);
    if k >= 0 {
        assert(p[k].0 == app);
        assert forall|i: int| 0 <= i < p.len() implies ((#[trigger] p[i]).1 == BranchRole::Maestro
            <==> p[i].0 == app) by {
            if i != k && s[i].0 == app {
                if i < k {
                } else {
                    assert(s[k].0 != s[i].0);
                }
            }
        }
        assert forall|i: int, j: int| 0 <= i < j < p.len() implies #[trigger] p[i].0 != #[trigger] p[j].0 by {
            assert(s[i].0 != s[j].0);
        }
    } else {
        assert(p[p.len() - 1].0 == app);
        assert forall|i: int, j: int| 0 <= i < j < p.len() implies #[trigger] p[i].0 != #[trigger] p[j].0 by {
            if j < s.len() {
                assert(s[i].0 != s[j].0);
            }
        }
    }
}

/// Setting a role keeps applications distinct and leaves exactly the new
/// entry for the application (none for `NoRole`).
pub proof fn lemma_set_role_keeps_apps_distinct(
    s: Seq<(Seq<char>, BranchRole)>,
    app: Seq<char>,
    role: BranchRole,
)
    requires
        unique_apps(s),
    ensures
        unique_apps(without_app(s, app)),
        role != BranchRole::NoRole ==> unique_apps(without_app(s, app).push((app, role))),
        forall|i: int|
            0 <= i < without_app(s, app).len() ==> (#[trigger] without_app(s, app)[i]).0 != app,
{
    lemma_without_app(s, app);
    let w = without_app(s, app);
    if role != BranchRole::NoRole {
        let q = w.push((app, role));
        assert forall|i: int, j: int| 0 <= i < j < q.len() implies #[trigger] q[i].0 != #[trigger] q[j].0 by {
            if j < w.len() {
                assert(w[i].0 != w[j].0);
            } else {
                assert(w[i].0 != app);
            }
        }
    }
}

// ---------------------------------------------------------------------------
// Manual plans
// ---------------------------------------------------------------------------

/// A command row of a manual plan: the command and the symbol it is tagged
/// with.
#[derive(Debug, Clone, PartialEq, Eq)]
pub struct ManualCommandRow {
    pub command: String,
    pub symbol: Symbol,
}

/// The commands of a manual plan: each non-blank row, tagged with its
/// symbol, in order.
pub open spec fn manual_commands(rows: Seq<ManualCommandRow>) -> Seq<Seq<char>>
    decreases rows.len(),
{
    if rows.len() == 0 {
        Seq::empty()
    } else {
        let rest = manual_commands(rows.drop_last());
        let row = rows.last();
        if trim(row.command@).len() == 0 {
            rest
        } else {
            rest.push(row.symbol.with_tag_spec(row.command@))
        }
    }
}

/// The plan the dashboard sends for its command rows, or `None` when every
/// row is blank. It takes the same path as a plan sent by a remote maestro.
pub fn build_manual_plan(task_id: String, description: String, rows: &Vec<ManualCommandRow>) -> (r:
    Option<ExecutionPlan>)
    ensures
        manual_commands(rows@).len() == 0 ==> r is None,
        manual_commands(rows@).len() > 0 ==> (r matches Some(p) && p.task_id == task_id
            && p.description == description && p.command_seqs() == manual_commands(rows@)),
{
    let mut commands: Vec<String> = Vec::new();
    let mut i: usize = 0;
    while i < rows.len()
        invariant
            i <= rows@.len(),
            commands@.map_values(|c: String| c@) == manual_commands(rows@.take(i as int)),
        decreases rows.len() - i,
    {
        assert(rows@.take(i + 1).drop_last() =~= rows@.take(i as int));
        let row = &rows[i];
        if trim_str(row.command.as_str()).len() != 0 {
            let tagged = row.symbol.with_tag(row.command.as_str());
            commands.push(tagged);
        }
        i = i + 1;
        assert(commands@.map_values(|c: String| c@) =~= manual_commands(rows@.take(i as int)));
    }
    assert(rows@.take(rows@.len() as int) =~= rows@);
    if commands.len() == 0 {
        return None;
    }
    Some(ExecutionPlan { task_id, description, commands })
}

/// A manual plan ready to send, or the message shown instead: a blank
/// description and an all-blank row list are refused.
pub fn manual_plan_request(description: &str, task_id: String, rows: &Vec<ManualCommandRow>) -> (r: Result<
    ExecutionPlan,
    String,
>)
    ensures
        trim(description@).len() == 0 ==> (r matches Err(m) && m@
            == "A description is required before submitting a manual plan."@),
        trim(description@).len() > 0 && manual_commands(rows@).len() == 0 ==> (r matches Err(m)
            && m@ == "Add at least one non-empty command before sending the manual plan."@),
        trim(description@).len() > 0 && manual_commands(rows@).len() > 0 ==> (r matches Ok(p)
            && p.task_id == task_id && p.description@ == trim(description@) && p.command_seqs()
            == manual_commands(rows@)),
{
    let d = trim_str(description);
    if d.len() == 0 {
        return Err(owned("A description is required before submitting a manual plan."));
    }
    match build_manual_plan(task_id, crate::text::string_from_chars(&d), rows) {
        Some(plan) => Ok(plan),
        None => Err(owned("Add at least one non-empty command before sending the manual plan.")),
    }
}

/// The gatekeeper judges a plan by its commands alone: a manual plan gets
/// the same decision as a remote plan with the same commands.
pub proof fn lemma_policy_depends_only_on_commands(
    a: ExecutionPlan,
    b: ExecutionPlan,
    cfg: CriteriaPatterns,
)
    requires
        a.command_seqs() == b.command_seqs(),
    ensures
        policy_spec(a, cfg) == policy_spec(b, cfg),
{
}

// ---------------------------------------------------------------------------
// Safety controls
// ---------------------------------------------------------------------------

#[derive(Debug, Clone, Copy, PartialEq, Eq, Structural)]
pub enum SafetyModeUi {
    Armed,
    Disarmed,
}

impl Default for SafetyModeUi {
    fn default() -> (m: SafetyModeUi)
        ensures
            m == SafetyModeUi::Armed,
    {
        SafetyModeUi::Armed
    }
}

#[derive(Debug, Clone, PartialEq, Eq)]
pub struct SafetyUiState {
    pub mode: SafetyModeUi,
    pub override_reason: String,
    pub audit_entries: Vec<String>,
}

impl Default for SafetyUiState {
    fn default() -> (s: SafetyUiState)
        ensures
            s.mode == SafetyModeUi::Armed,
            s.override_reason@.len() == 0,
            s.audit_entries@.len() == 0,
    {
        SafetyUiState { mode: SafetyModeUi::Armed, override_reason: String::new(), audit_entries: Vec::new() }
    }
}

impl SafetyUiState {
    /// The safety controls as the dashboard starts: armed, with the startup
    /// recorded in the trail.
    pub fn at_startup() -> (s: SafetyUiState)
        ensures
            s.mode == SafetyModeUi::Armed,
            s.override_reason@.len() == 0,
            s.audit_entries@.len() == 1,
            s.audit_entries@[0]@ == "Safety lock defaulted to Armed at startup"@,
    {
        let mut audit_entries: Vec<String> = Vec::new();
        audit_entries.push(owned("Safety lock defaulted to Armed at startup"));
        SafetyUiState { mode: SafetyModeUi::Armed, override_reason: String::new(), audit_entries }
    }

    /// The owner armed the safety lock at time `now`; returns the message
    /// shown.
    pub fn arm(&mut self, now: &str) -> (message: String)
        ensures
            final(self).mode == SafetyModeUi::Armed,
            final(self).override_reason == old(self).override_reason,
            final(self).audit_entries@.len() == old(self).audit_entries@.len() + 1,
            final(self).audit_entries@.drop_last() == old(self).audit_entries@,
            final(self).audit_entries@.last()@ == now@ + " :: user armed safety lock"@,
            message@ == "Safety lock armed by user"@,
    {
        self.mode = SafetyModeUi::Armed;
        let mut line: Vec<char> = Vec::new();
        push_str(&mut line, now);
        push_str(&mut line, " :: user armed safety lock");
        self.audit_entries.push(string_from_chars(&line));
        owned("Safety lock armed by user")
    }

    /// The owner disarmed the safety lock at time `now`; returns the
    /// message shown.
    pub fn disarm(&mut self, now: &str) -> (message: String)
        ensures
            final(self).mode == SafetyModeUi::Disarmed,
            final(self).override_reason == old(self).override_reason,
            final(self).audit_entries@.len() == old(self).audit_entries@.len() + 1,
            final(self).audit_entries@.drop_last() == old(self).audit_entries@,
            final(self).audit_entries@.last()@ == now@ + " :: user disarmed safety lock"@,
            message@ == "Safety lock disarmed by user"@,
    {
        self.mode = SafetyModeUi::Disarmed;
        let mut line: Vec<char> = Vec::new();
        push_str(&mut line, now);
        push_str(&mut line, " :: user disarmed safety lock");
        self.audit_entries.push(string_from_chars(&line));
        owned("Safety lock disarmed by user")
    }

    /// The owner asked for an override at time `now`. Without a reason
    /// nothing changes; with one, the override and its reason are recorded
    /// and the reason is cleared. Returns the message shown.
    pub fn override_and_execute(&mut self, now: &str) -> (message: String)
        ensures
            trim(old(self).override_reason@).len() == 0 ==> *final(self) == *old(self) && message@
                == "Override requires a clear human reason"@,
            trim(old(self).override_reason@).len() > 0 ==> {
                &&& final(self).mode == old(self).mode
                &&& final(self).override_reason@.len() == 0
                &&& final(self).audit_entries@.len() == old(self).audit_entries@.len() + 1
                &&& final(self).audit_entries@.drop_last() == old(self).audit_entries@
                &&& final(self).audit_entries@.last()@ == now@ + " :: override granted :: "@
                    + old(self).override_reason@
                &&& message@ == "Human override logged and requires the same secure execution path"@
            },
    {
        if trim_str(self.override_reason.as_str()).len() == 0 {
            return owned("Override requires a clear human reason");
        }
        let mut line: Vec<char> = Vec::new();
        push_str(&mut line, now);
        push_str(&mut line, " :: override granted :: ");
        push_str(&mut line, self.override_reason.as_str());
        self.audit_entries.push(string_from_chars(&line));
        self.override_reason = String::new();
        owned("Human override logged and requires the same secure execution path")
    }
}

/// Sending a message as the maestro: `Ok` with the message shown when a
/// maestro is assigned, else `Err` with the reason.
pub fn maestro_send_status(roles: &RoleAssignmentSet, message: &str) -> (r: Result<String, String>)
    ensures
        first_maestro_index(role_pairs(roles.roles@)) >= 0 ==> (r matches Ok(m) && m@
            == "Message sent as Maestro: "@ + message@),
        first_maestro_index(role_pairs(roles.roles@)) < 0 ==> (r matches Err(m) && m@
            == "No Maestro is currently assigned. Assign a Maestro before sending."@),
{
    proof {
        lemma_first_maestro_index(role_pairs(roles.roles@));
    }
    match roles.current_maestro() {
        Some(_) => {
            let mut line: Vec<char> = Vec::new();
            push_str(&mut line, "Message sent as Maestro: ");
            push_str(&mut line, message);
            Ok(string_from_chars(&line))
        },
        None => Err(owned("No Maestro is currently assigned. Assign a Maestro before sending.")),
    }
}

/// A role as the dashboard names it in its messages.
pub open spec fn role_name(role: BranchRole) -> Seq<char> {
    match role {
        BranchRole::NoRole => "None"@,
        BranchRole::Maestro => "Maestro"@,
        BranchRole::BranchA => "BranchA"@,
        BranchRole::BranchB => "BranchB"@,
    }
}

fn role_name_text(role: BranchRole) -> (s: &'static str)
    ensures
        s@ == role_name(role),
{
    match role {
        BranchRole::NoRole => "None",
        BranchRole::Maestro => "Maestro",
        BranchRole::BranchA => "BranchA",
        BranchRole::BranchB => "BranchB",
    }
}

impl RoleAssignmentSet {
    /// Assigns a role from the dashboard: the maestro role by promotion (so
    /// that at most one maestro remains), any other role directly. Returns
    /// the message shown once the assignments are saved.
    pub fn assign_from_dashboard(&mut self, app_id: String, role: BranchRole) -> (message: String)
        ensures
            role == BranchRole::Maestro ==> role_pairs(final(self).roles@) == promoted(
                role_pairs(old(self).roles@),
                app_id@,
            ),
            role == BranchRole::NoRole ==> role_pairs(final(self).roles@) == without_app(
                role_pairs(old(self).roles@),
                app_id@,
            ),
            role != BranchRole::Maestro && role != BranchRole::NoRole ==> role_pairs(
                final(self).roles@,
            ) == without_app(role_pairs(old(self).roles@), app_id@).push((app_id@, role)),
            message@ == "Role updated: "@ + app_id@ + " -> "@ + role_name(role),
    {
        let mut out: Vec<char> = Vec::new();
        push_str(&mut out, "Role updated: ");
        push_str(&mut out, app_id.as_str());
        push_str(&mut out, " -> ");
        push_str(&mut out, role_name_text(role));
        match role {
            BranchRole::Maestro => self.promote_maestro(app_id.as_str()),
            _ => self.set_role(app_id, role),
        }
        string_from_chars(&out)
    }
}

/// A policy decision as the dashboard names it in its messages.
pub open spec fn decision_name(d: PolicyDecision) -> Seq<char> {
    match d {
        PolicyDecision::Delegable => "Delegable"@,
        PolicyDecision::NonDelegable => "NonDelegable"@,
    }
}

/// The message shown once a manual plan was sent to the gatekeeper.
pub fn manual_plan_queued_message(task_id: &str, decision: PolicyDecision) -> (s: String)
    ensures
        s@ == "Manual plan "@ + task_id@ + " queued through the maestro socket path; policy result: "@
            + decision_name(decision),
{
    let mut out: Vec<char> = Vec::new();
    push_str(&mut out, "Manual plan ");
    push_str(&mut out, task_id);
    push_str(&mut out, " queued through the maestro socket path; policy result: ");
    match decision {
        PolicyDecision::Delegable => push_str(&mut out, "Delegable"),
        PolicyDecision::NonDelegable => push_str(&mut out, "NonDelegable"),
    }
    string_from_chars(&out)
}

} // verus!
