//! The executor: in which order the actions of a plan run, and what becomes of each.
//!
//! The executor decides; it runs nothing itself. A driver asks it for the next thing to
//! do, does it, and reports how it went. Actions run phase by phase over all projects;
//! when an action fails, the later actions of its project are cancelled, and the other
//! projects go on.

use crate::action::{Action, ActionStatusView, ActionView, Phase};
use vstd::prelude::*;

verus! {

/// How a run is to be carried out.
#[derive(Debug, Clone, Copy, PartialEq, Eq, Structural)]
pub struct Settings {
    /// Requests to the service manager are not made; each counts as done.
    pub safe_mode: bool,
    /// Nothing is carried out; each action is only reported.
    pub dry_run: bool,
}

/// How something that the driver did went.
#[derive(Debug, Clone, PartialEq)]
pub enum Outcome {
    Done,
    Fail(String),
}

impl View for Outcome {
    type V = ActionStatusView;

    /// The status that an action has after this outcome.
    open spec fn view(&self) -> ActionStatusView {
        match self {
            Outcome::Done => ActionStatusView::Done,
            Outcome::Fail(reason) => ActionStatusView::Fail(reason@),
        }
    }
}

/// How a child process ended, as the driver saw it.
#[derive(Debug, Clone, PartialEq)]
pub enum Ended {
    /// The process ran to its end: whether it reported success, and what it wrote to its
    /// error stream.
    Exited { success: bool, errors: String },
    /// The process could not be started, and why.
    NotStarted(String),
}

/// The outcome of an action that was carried out by a child process: done where the
/// process reported success; failed otherwise, with what the process wrote to its error
/// stream as the reason, or with the reason why it could not be started.
pub fn outcome_of(ended: Ended) -> (r: Outcome)
    ensures
        match ended {
            Ended::Exited { success, errors } => if success {
                r@ == ActionStatusView::Done
            } else {
                r@ == ActionStatusView::Fail(errors@)
            },
            Ended::NotStarted(reason) => r@ == ActionStatusView::Fail(reason@),
        },
{
    match ended {
        Ended::Exited { success, errors } => if success {
            Outcome::Done
        } else {
            Outcome::Fail(errors)
        },
        Ended::NotStarted(reason) => Outcome::Fail(reason),
    }
}

/// What the driver is to do next.
#[derive(Debug, Clone, Copy, PartialEq, Eq, Structural)]
pub enum Directive {
    /// Make sure that the directories of the run exist. Nothing is to be reported back;
    /// a driver that cannot create them gives the run up.
    Prepare,
    /// Have the service manager read its units again, and report how it went.
    Reload,
    /// Carry out the action at this index, and report how it went.
    Run(usize),
    /// Say that the action at this index would run. Nothing is to be reported back.
    Report(usize),
    /// Nothing is left to do. The driver now writes the declared state as the new
    /// state, whatever became of the actions.
    Finished,
}

/// Whether the service manager has read its units again.
#[derive(Debug, Clone, Copy, PartialEq, Eq, Structural)]
pub enum Reload {
    Pending,
    Done,
    Failed,
}

/// What the executor waits to hear of.
#[derive(Debug, Clone, Copy, PartialEq, Eq, Structural)]
pub enum Waiting {
    Nothing,
    Reload,
    Action,
}

/// Whether action `i` runs before action `j`: its phase is earlier, or the phases are the
/// same and it stands earlier in the plan.
pub open spec fn runs_before(actions: Seq<ActionView>, i: int, j: int) -> bool {
    actions[i].phase.rank() < actions[j].phase.rank() || (actions[i].phase == actions[j].phase && i
        < j)
}

/// Whether `order` is the order in which `actions` run: it holds every index once, phase
/// by phase in the fixed order of the phases, and within a phase in the order of the plan.
pub open spec fn arranged(actions: Seq<ActionView>, order: Seq<usize>) -> bool {
    &&& forall|k: int| 0 <= k < order.len() ==> 0 <= #[trigger] order[k] < actions.len()
    &&& forall|i: int| 0 <= i < actions.len() ==> #[trigger] has_index(order, i)
    &&& forall|a: int, b: int|
        0 <= a < b < order.len() ==> runs_before(
            actions,
            #[trigger] order[a] as int,
            #[trigger] order[b] as int,
        )
}

/// Whether `i` stands somewhere in `order`.
pub open spec fn has_index(order: Seq<usize>, i: int) -> bool {
    exists|k: int| 0 <= k < order.len() && order[k] == i
}

/// Whether an action of the project `name` that runs before place `k` has failed.
pub open spec fn failed_before(
    actions: Seq<ActionView>,
    order: Seq<usize>,
    k: int,
    name: Seq<char>,
) -> bool {
    exists|j: int| 0 <= j < k && fails_at(actions, order, j, name)
}

/// Whether the action at place `j` of the order belongs to the project `name` and failed.
pub open spec fn fails_at(actions: Seq<ActionView>, order: Seq<usize>, j: int, name: Seq<char>) -> bool {
    &&& 0 <= j < order.len()
    &&& actions[order[j] as int].project_name == name
    &&& actions[order[j] as int].status is Fail
}

/// Whether the action at place `k` of the order is not to run: an earlier action of its
/// project failed, or it belongs to the start phase and the service manager could not
/// read its units again.
pub open spec fn blocked(actions: Seq<ActionView>, order: Seq<usize>, reload: Reload, k: int) -> bool {
    let a = actions[order[k] as int];
    failed_before(actions, order, k, a.project_name) || (a.phase == Phase::Start && reload
        == Reload::Failed)
}

/// Whether the action is a request to the service manager that safe mode answers itself.
pub open spec fn answered_by_safe_mode(settings: Settings, a: ActionView) -> bool {
    settings.safe_mode && a.kind is SystemCtl
}

/// Whether the action at place `k`, which the run has passed, has the status that it is
/// to have: cancelled where it was blocked, done where safe mode answered it, and done or
/// failed as the driver reported otherwise.
pub open spec fn settled(
    actions: Seq<ActionView>,
    order: Seq<usize>,
    settings: Settings,
    reload: Reload,
    k: int,
) -> bool {
    let a = actions[order[k] as int];
    if blocked(actions, order, reload, k) {
        a.status is Cancelled
    } else if answered_by_safe_mode(settings, a) {
        a.status is Done
    } else {
        a.status is Done || a.status is Fail
    }
}

/// The action at place `k` of the order.
pub open spec fn place(actions: Seq<ActionView>, order: Seq<usize>, k: int) -> ActionView {
    actions[order[k] as int]
}

/// What holds of a run that has passed `pos` places of its order: the actions to come are
/// still to do, those passed are settled, and the failed projects are those of which an
/// action that was passed has failed.
pub open spec fn sound(
    actions: Seq<ActionView>,
    order: Seq<usize>,
    pos: int,
    failed: Seq<Seq<char>>,
    settings: Settings,
    reload: Reload,
) -> bool {
    &&& arranged(actions, order)
    &&& 0 <= pos <= order.len()
    &&& forall|k: int| pos <= k < order.len() ==> (#[trigger] place(actions, order, k)).status is Todo
    &&& settings.dry_run ==> forall|k: int|
        0 <= k < pos ==> (#[trigger] place(actions, order, k)).status is Todo
    &&& !settings.dry_run ==> forall|k: int|
        0 <= k < pos ==> #[trigger] settled(actions, order, settings, reload, k)
    &&& forall|name: Seq<char>|
        failed.contains(name) <==> #[trigger] failed_before(actions, order, pos, name)
    &&& reload == Reload::Pending && !settings.dry_run ==> forall|k: int|
        0 <= k < pos ==> (#[trigger] place(actions, order, k)).phase != Phase::Start
    &&& settings.safe_mode || settings.dry_run ==> reload != Reload::Failed
    &&& settings.dry_run ==> failed.len() == 0
}

/// Whether the actions outside the places from `from` up to `to` are as they were.
pub open spec fn kept_outside(
    before: Seq<ActionView>,
    after: Seq<ActionView>,
    order: Seq<usize>,
    from: int,
    to: int,
) -> bool {
    forall|k: int|
        (0 <= k < from || to <= k < order.len()) ==> #[trigger] place(after, order, k) == place(
            before,
            order,
            k,
        )
}

/// Whether each action at the places from `from` up to `to` was passed without the
/// driver: cancelled, or a request to the service manager that safe mode counted as done.
pub open spec fn passed_over(
    actions: Seq<ActionView>,
    order: Seq<usize>,
    settings: Settings,
    from: int,
    to: int,
) -> bool {
    forall|k: int|
        from <= k < to ==> (#[trigger] place(actions, order, k)).status is Cancelled || (
        answered_by_safe_mode(settings, place(actions, order, k)) && place(
            actions,
            order,
            k,
        ).status is Done)
}

/// The state of a run.
#[derive(Debug)]
pub struct Executor {
    actions: Vec<Action>,
    order: Vec<usize>,
    pos: usize,
    failed: Vec<String>,
    settings: Settings,
    dirs: Vec<String>,
    prepared: bool,
    reload: Reload,
    waiting: Waiting,
}

impl Executor {
    /// The actions of the run, in the order of the plan.
    pub closed spec fn actions(&self) -> Seq<ActionView> {
        self.actions.deep_view()
    }

    /// The order in which the actions run, as indices into the plan.
    pub closed spec fn order(&self) -> Seq<usize> {
        self.order@
    }

    /// How many places of the order the run has passed.
    pub closed spec fn pos(&self) -> int {
        self.pos as int
    }

    /// The names of the projects of which an action has failed.
    pub closed spec fn failed(&self) -> Seq<Seq<char>> {
        self.failed.deep_view()
    }

    /// How the run is carried out.
    pub closed spec fn settings(&self) -> Settings {
        self.settings
    }

    /// The directories that the run needs.
    pub closed spec fn dirs(&self) -> Seq<Seq<char>> {
        self.dirs.deep_view()
    }

    /// Whether the driver has been told to prepare the directories.
    pub closed spec fn prepared(&self) -> bool {
        self.prepared
    }

    /// Whether the service manager has read its units again.
    pub closed spec fn reload(&self) -> Reload {
        self.reload
    }

    /// What the executor waits to hear of.
    pub closed spec fn waiting(&self) -> Waiting {
        self.waiting
    }

    /// The action at place `k` of the order.
    pub open spec fn at(&self, k: int) -> ActionView {
        place(self.actions(), self.order(), k)
    }

    /// What holds of every state of a run.
    pub open spec fn wf(&self) -> bool {
        &&& sound(
            self.actions(),
            self.order(),
            self.pos(),
            self.failed(),
            self.settings(),
            self.reload(),
        )
        &&& self.waiting() == Waiting::Action ==> self.expects_action()
        &&& self.waiting() == Waiting::Reload ==> self.expects_reload()
    }

    /// The action at the place that the run has reached is with the driver.
    pub open spec fn expects_action(&self) -> bool {
        &&& self.pos() < self.order().len()
        &&& self.prepared()
        &&& !self.settings().dry_run
        &&& !blocked(self.actions(), self.order(), self.reload(), self.pos())
        &&& !answered_by_safe_mode(self.settings(), self.at(self.pos()))
        &&& self.at(self.pos()).phase == Phase::Start ==> self.reload() == Reload::Done
    }

    /// The run has reached the start phase, and the driver is asked to have the units
    /// read again.
    pub open spec fn expects_reload(&self) -> bool {
        &&& self.pos() < self.order().len()
        &&& self.prepared()
        &&& !self.settings().dry_run
        &&& !self.settings().safe_mode
        &&& self.reload() == Reload::Pending
        &&& self.at(self.pos()).phase == Phase::Start
    }

    /// Whether two states differ in nothing but the statuses of actions, the place
    /// reached and what the executor waits for.
    pub open spec fn same_run(&self, other: &Executor) -> bool {
        &&& self.order() == other.order()
        &&& self.settings() == other.settings()
        &&& self.dirs() == other.dirs()
        &&& self.actions().len() == other.actions().len()
        &&& forall|i: int|
            0 <= i < self.actions().len() ==> (#[trigger] self.actions()[i]).with_status(
                ActionStatusView::Todo,
            ) == other.actions()[i].with_status(ActionStatusView::Todo)
    }
}

/// In the order of a run, an action of an earlier phase stands before every action of a
/// later phase, whatever projects they belong to.
pub proof fn lemma_phases_in_order(e: &Executor, a: int, b: int)
    requires
        e.wf(),
        0 <= a < e.order().len(),
        0 <= b < e.order().len(),
        e.at(a).phase.rank() < e.at(b).phase.rank(),
    ensures
        a < b,
{
    if b < a {
        assert(runs_before(e.actions(), e.order()[b] as int, e.order()[a] as int));
    }
}

/// The run passes the places of the order one by one, so what it has passed never
/// belongs to a later phase than what is still to come.
pub proof fn lemma_passed_is_earlier(e: &Executor, a: int, b: int)
    requires
        e.wf(),
        0 <= a < e.pos(),
        e.pos() <= b < e.order().len(),
    ensures
        e.at(a).phase.rank() <= e.at(b).phase.rank(),
        !(e.at(a).status is Todo) || e.settings().dry_run,
        e.at(b).status is Todo,
{
    assert(runs_before(e.actions(), e.order()[a] as int, e.order()[b] as int));
    if !e.settings().dry_run {
        assert(settled(e.actions(), e.order(), e.settings(), e.reload(), a));
    }
}

/// Every action has its place in the order, and only one.
pub proof fn lemma_order_is_complete(e: &Executor, i: int) -> (k: int)
    requires
        e.wf(),
        0 <= i < e.actions().len(),
    ensures
        0 <= k < e.order().len(),
        e.order()[k] == i,
        forall|j: int| 0 <= j < e.order().len() && e.order()[j] == i ==> j == k,
{
    assert(has_index(e.order(), i));
    let k = choose|k: int| 0 <= k < e.order().len() && e.order()[k] == i;
    assert forall|j: int| 0 <= j < e.order().len() && e.order()[j] == i implies j == k by {
        if j < k {
            assert(runs_before(e.actions(), e.order()[j] as int, e.order()[k] as int));
        } else if k < j {
            assert(runs_before(e.actions(), e.order()[k] as int, e.order()[j] as int));
        }
    }
    k
}

/// Once an action of a project has failed, every later action of that project that the
/// run has passed is cancelled.
pub proof fn lemma_failure_cancels_the_rest(e: &Executor, a: int, b: int)
    requires
        e.wf(),
        0 <= a < b < e.pos(),
        e.at(a).project_name == e.at(b).project_name,
        e.at(a).status is Fail,
    ensures
        e.at(b).status is Cancelled,
{
    if e.settings().dry_run {
        assert(e.at(a).status is Todo);
    } else {
        assert(fails_at(e.actions(), e.order(), a, e.at(b).project_name));
        assert(settled(e.actions(), e.order(), e.settings(), e.reload(), b));
    }
}

/// A failure touches no other project: an action that the run has passed is cancelled
/// only if an earlier action of its own project failed, or if it belongs to the start
/// phase and the service manager could not read its units again.
pub proof fn lemma_others_unaffected(e: &Executor, b: int)
    requires
        e.wf(),
        !e.settings().dry_run,
        0 <= b < e.pos(),
        forall|a: int| 0 <= a < b && e.at(a).project_name == e.at(b).project_name ==> !(e.at(
            a,
        ).status is Fail),
        !(e.at(b).phase == Phase::Start && e.reload() == Reload::Failed),
    ensures
        e.at(b).status is Done || e.at(b).status is Fail,
{
    assert(settled(e.actions(), e.order(), e.settings(), e.reload(), b));
    if failed_before(e.actions(), e.order(), b, e.at(b).project_name) {
        let j = choose|j: int| 0 <= j < b && fails_at(e.actions(), e.order(), j, e.at(b).project_name);
        assert(e.at(j).status is Fail);
    }
}

/// In safe mode the service manager is never called: it is not asked to read its units
/// again, and no request to it is handed to the driver.
pub proof fn lemma_safe_mode_calls_nothing(e: &Executor)
    requires
        e.wf(),
        e.settings().safe_mode,
    ensures
        e.waiting() != Waiting::Reload,
        e.reload() != Reload::Failed,
        e.waiting() == Waiting::Action ==> !(e.at(e.pos()).kind is SystemCtl),
{
}

/// In safe mode every request to the service manager that the run has passed is done,
/// unless an earlier action of its project failed.
pub proof fn lemma_safe_mode_is_done(e: &Executor, k: int)
    requires
        e.wf(),
        e.settings().safe_mode,
        !e.settings().dry_run,
        0 <= k < e.pos(),
        e.at(k).kind is SystemCtl,
        !failed_before(e.actions(), e.order(), k, e.at(k).project_name),
    ensures
        e.at(k).status is Done,
{
    assert(settled(e.actions(), e.order(), e.settings(), e.reload(), k));
}

/// The order in which the actions run: phase by phase, and within a phase as they stand.
pub fn arrange(actions: &Vec<Action>) -> (order: Vec<usize>)
    ensures
        arranged(actions.deep_view(), order@),
{
    let ghost views = actions.deep_view();
    let n = actions.len();
    let mut order: Vec<usize> = Vec::new();
    let mut r: u8 = 0;
    while r < 6
        invariant
            r <= 6,
            n == actions.len(),
            views == actions.deep_view(),
            forall|k: int|
                0 <= k < order.len() ==> (#[trigger] order[k]) < n && views[order[k] as int].phase.rank()
                    < r,
            forall|i: int|
                0 <= i < n && views[i].phase.rank() < r ==> #[trigger] has_index(order@, i),
            forall|a: int, b: int|
                0 <= a < b < order.len() ==> runs_before(
                    views,
                    #[trigger] order[a] as int,
                    #[trigger] order[b] as int,
                ),
        decreases 6 - r,
    {
        let mut i: usize = 0;
        while i < n
            invariant
                i <= n,
                r < 6,
                n == actions.len(),
                views == actions.deep_view(),
                forall|k: int|
                    0 <= k < order.len() ==> (#[trigger] order[k]) < n && (views[order[k] as int].phase.rank()
                        < r || (views[order[k] as int].phase.rank() == r && order[k] < i)),
                forall|j: int|
                    0 <= j < n && (views[j].phase.rank() < r || (views[j].phase.rank() == r && j < i))
                        ==> #[trigger] has_index(order@, j),
                forall|a: int, b: int|
                    0 <= a < b < order.len() ==> runs_before(
                        views,
                        #[trigger] order[a] as int,
                        #[trigger] order[b] as int,
                    ),
            decreases n - i,
        {
            if actions[i].phase.ordinal() == r {
                let ghost before = order@;
                order.push(i);
                proof {
                    assert forall|j: int|
                        0 <= j < n && (views[j].phase.rank() < r || (views[j].phase.rank() == r && j
                            < i + 1)) implies #[trigger] has_index(order@, j) by {
                        if j == i {
                            assert(order@[before.len() as int] == j);
                        } else {
                            assert(has_index(before, j));
                            let k = choose|k: int| 0 <= k < before.len() && before[k] == j;
                            assert(order@[k] == j);
                        }
                    }
                }
            }
            i += 1;
        }
        r += 1;
    }
    order
}

/// Whether `name` is among `names`.
fn listed(names: &Vec<String>, name: &str) -> (r: bool)
    ensures
        r == names.deep_view().contains(name@),
{
    crate::reconcile::contains_name(names, name)
}

impl Executor {
    /// A run of `actions` that has not begun: every action is still to do. `dirs` are the
    /// directories that the driver is to create before the first action.
    pub fn new(actions: Vec<Action>, settings: Settings, dirs: Vec<String>) -> (e: Self)
        ensures
            e.wf(),
            e.pos() == 0,
            e.settings() == settings,
            e.dirs() == dirs.deep_view(),
            e.waiting() == Waiting::Nothing,
            e.reload() == Reload::Pending,
            !e.prepared(),
            e.failed().len() == 0,
            e.actions().len() == actions.len(),
            forall|i: int|
                0 <= i < actions.len() ==> #[trigger] e.actions()[i] == actions[i]@.with_status(
                    ActionStatusView::Todo,
                ),
    {
        let mut actions = actions;
        let ghost given = actions.deep_view();
        let mut i: usize = 0;
        while i < actions.len()
            invariant
                i <= actions.len(),
                actions.len() == given.len(),
                forall|j: int|
                    0 <= j < i ==> (#[trigger] actions[j])@ == given[j].with_status(
                        ActionStatusView::Todo,
                    ),
                forall|j: int| i <= j < actions.len() ==> (#[trigger] actions[j])@ == given[j],
            decreases actions.len() - i,
        {
            actions[i].mark_todo();
            i += 1;
        }
        let order = arrange(&actions);
        let e = Executor {
            actions,
            order,
            pos: 0,
            failed: Vec::new(),
            settings,
            dirs,
            prepared: false,
            reload: Reload::Pending,
            waiting: Waiting::Nothing,
        };
        proof {
            assert(e.failed() =~= Seq::<Seq<char>>::empty());
            assert forall|name: Seq<char>|
                e.failed().contains(name) <==> #[trigger] failed_before(
                    e.actions(),
                    e.order(),
                    e.pos(),
                    name,
                ) by {}
        }
        e
    }

    /// The actions of the run, in the order of the plan, each with its status.
    pub fn actions_so_far(&self) -> (r: &Vec<Action>)
        ensures
            r.deep_view() == self.actions(),
    {
        &self.actions
    }

    /// The action at index `i` of the plan.
    pub fn action(&self, i: usize) -> (r: Option<&Action>)
        ensures
            r is Some <==> i < self.actions().len(),
            r is Some ==> r->0@ == self.actions()[i as int],
    {
        if i < self.actions.len() {
            Some(&self.actions[i])
        } else {
            None
        }
    }

    /// The actions of the run, each with its status, when the run is over or given up.
    pub fn into_actions(self) -> (r: Vec<Action>)
        ensures
            r.deep_view() == self.actions(),
    {
        self.actions
    }

    /// The directories that the driver is to create before the first action.
    pub fn directories(&self) -> (r: &Vec<String>)
        ensures
            r.deep_view() == self.dirs(),
    {
        &self.dirs
    }

    /// The names of the projects of which an action has failed.
    pub fn failed_projects(&self) -> (r: &Vec<String>)
        ensures
            r.deep_view() == self.failed(),
    {
        &self.failed
    }

    /// Whether every action has been passed.
    pub fn is_finished(&self) -> (r: bool)
        ensures
            r == (self.pos() >= self.order().len()),
    {
        self.pos >= self.order.len()
    }

    /// Whether the action at the place that the run has reached is not to run.
    fn blocked_here(&self) -> (r: bool)
        requires
            self.wf(),
            self.pos() < self.order().len(),
        ensures
            r == blocked(self.actions(), self.order(), self.reload(), self.pos()),
    {
        let i = self.order[self.pos];
        let action = &self.actions[i];
        let failed = listed(&self.failed, action.project_name.as_str());
        let start = match action.phase {
            Phase::Start => true,
            _ => false,
        };
        let reload_failed = match self.reload {
            Reload::Failed => true,
            _ => false,
        };
        failed || (start && reload_failed)
    }

    /// What the driver is to do next.
    ///
    /// The first call of a run that is no dry run asks for the directories. From then on
    /// the executor goes through the order of the run: it cancels each action that is
    /// blocked and, in safe mode, counts each request to the service manager as done,
    /// until it comes to an action for the driver. Before the first action of the start
    /// phase it asks once for the service manager to read its units again; in safe mode it
    /// takes that as done. In a dry run each action is reported and none is carried out.
    /// While the executor waits for an outcome, it gives the same answer again.
    pub fn next(&mut self) -> (r: Directive)
        requires
            old(self).wf(),
        ensures
            final(self).wf(),
            final(self).same_run(old(self)),
            final(self).failed() == old(self).failed(),
            old(self).pos() <= final(self).pos() <= final(self).order().len(),
            kept_outside(
                old(self).actions(),
                final(self).actions(),
                final(self).order(),
                old(self).pos(),
                final(self).pos(),
            ),
            !final(self).settings().dry_run ==> passed_over(
                final(self).actions(),
                final(self).order(),
                final(self).settings(),
                old(self).pos(),
                final(self).pos(),
            ),
            final(self).reload() == old(self).reload() || (old(self).reload() == Reload::Pending
                && final(self).reload() == Reload::Done && final(self).settings().safe_mode),
            r == Directive::Prepare <==> (old(self).waiting() == Waiting::Nothing && !old(self).prepared() && !old(self).settings().dry_run),
            r == Directive::Prepare ==> final(self).pos() == old(self).pos() && final(self).waiting() == Waiting::Nothing,
            final(self).prepared(),
            r == Directive::Reload <==> final(self).waiting() == Waiting::Reload,
            r is Run <==> final(self).waiting() == Waiting::Action,
            r is Run ==> r->Run_0 == final(self).order()[final(self).pos()],
            old(self).waiting() != Waiting::Nothing ==> final(self).waiting() == old(self).waiting() && final(self).pos() == old(self).pos(),
            r is Report <==> (old(self).settings().dry_run && old(self).pos() < old(self).order().len()),
            r is Report ==> r->Report_0 == old(self).order()[old(self).pos()] && final(self).pos()
                == old(self).pos() + 1,
            r == Directive::Finished ==> final(self).pos() == final(self).order().len(),
    {
        match self.waiting {
            Waiting::Reload => {
                return Directive::Reload;
            },
            Waiting::Action => {
                return Directive::Run(self.order[self.pos]);
            },
            Waiting::Nothing => {},
        }
        if !self.prepared {
            self.prepared = true;
            if !self.settings.dry_run {
                return Directive::Prepare;
            }
        }
        if self.settings.dry_run {
            if self.pos < self.order.len() {
                let i = self.order[self.pos];
                proof {
                    lemma_dry_step(
                        self.actions(),
                        self.order(),
                        self.pos(),
                        self.failed(),
                        self.settings(),
                        self.reload(),
                    );
                }
                self.pos = self.pos + 1;
                return Directive::Report(i);
            }
            return Directive::Finished;
        }
        while self.pos < self.order.len()
            invariant
                self.wf(),
                self.same_run(old(self)),
                old(self).waiting() == Waiting::Nothing,
                self.failed() == old(self).failed(),
                self.waiting() == Waiting::Nothing,
                self.prepared(),
                !self.settings().dry_run,
                old(self).pos() <= self.pos() <= self.order().len(),
                old(self).prepared(),
                kept_outside(
                    old(self).actions(),
                    self.actions(),
                    self.order(),
                    old(self).pos(),
                    self.pos(),
                ),
                passed_over(
                    self.actions(),
                    self.order(),
                    self.settings(),
                    old(self).pos(),
                    self.pos(),
                ),
                self.reload() == old(self).reload() || (old(self).reload() == Reload::Pending
                    && self.reload() == Reload::Done && self.settings().safe_mode),
            decreases self.order.len() - self.pos,
        {
            let i = self.order[self.pos];
            let is_start = match self.actions[i].phase {
                Phase::Start => true,
                _ => false,
            };
            let pending = match self.reload {
                Reload::Pending => true,
                _ => false,
            };
            if is_start && pending {
                if self.settings.safe_mode {
                    proof {
                        lemma_reload_settles(
                            self.actions(),
                            self.order(),
                            self.pos(),
                            self.failed(),
                            self.settings(),
                            Reload::Done,
                        );
                    }
                    self.reload = Reload::Done;
                } else {
                    self.waiting = Waiting::Reload;
                    return Directive::Reload;
                }
            }
            let ghost before = *self;
            if self.blocked_here() {
                self.actions[i].mark_cancelled();
                self.pos = self.pos + 1;
                proof {
                    assert(self.actions() =~= before.actions().update(
                        i as int,
                        before.at(before.pos()).with_status(ActionStatusView::Cancelled),
                    ));
                    lemma_step(
                        before.actions(),
                        before.order(),
                        before.pos(),
                        before.failed(),
                        before.settings(),
                        before.reload(),
                        ActionStatusView::Cancelled,
                        self.actions(),
                        self.failed(),
                    );
                    lemma_passed_on(
                        old(self).actions(),
                        before.actions(),
                        self.actions(),
                        self.order(),
                        self.settings(),
                        old(self).pos(),
                        before.pos(),
                    );
                }
            } else {
                let service = match &self.actions[i].kind {
                    crate::action::ActionKind::SystemCtl(_) => true,
                    _ => false,
                };
                if self.settings.safe_mode && service {
                    self.actions[i].mark_done();
                    self.pos = self.pos + 1;
                    proof {
                        assert(self.actions() =~= before.actions().update(
                            i as int,
                            before.at(before.pos()).with_status(ActionStatusView::Done),
                        ));
                        lemma_step(
                            before.actions(),
                            before.order(),
                            before.pos(),
                            before.failed(),
                            before.settings(),
                            before.reload(),
                            ActionStatusView::Done,
                            self.actions(),
                            self.failed(),
                        );
                        lemma_passed_on(
                            old(self).actions(),
                            before.actions(),
                            self.actions(),
                            self.order(),
                            self.settings(),
                            old(self).pos(),
                            before.pos(),
                        );
                    }
                } else {
                    self.waiting = Waiting::Action;
                    return Directive::Run(i);
                }
            }
        }
        Directive::Finished
    }

    /// Takes note of how the thing that the driver was asked to do went. The answer is
    /// `false`, and nothing changes, where the executor was not waiting for an outcome.
    ///
    /// After a reload the outcome is kept: where it failed, every action of the start
    /// phase will be cancelled. After an action the outcome becomes the action's status,
    /// the run moves on by one place, and the project of a failed action joins the failed
    /// projects.
    pub fn record(&mut self, outcome: Outcome) -> (r: bool)
        requires
            old(self).wf(),
        ensures
            final(self).wf(),
            final(self).same_run(old(self)),
            final(self).prepared() == old(self).prepared(),
            final(self).waiting() == Waiting::Nothing,
            r == (old(self).waiting() != Waiting::Nothing),
            old(self).waiting() == Waiting::Nothing ==> final(self).actions() == old(self).actions() && final(self).pos() == old(self).pos() && final(self).failed() == old(self).failed() && final(self).reload() == old(self).reload(),
            old(self).waiting() == Waiting::Reload ==> final(self).actions() == old(self).actions() && final(self).pos() == old(self).pos() && final(self).failed() == old(self).failed() && final(self).reload() == (if outcome is Done {
                Reload::Done
            } else {
                Reload::Failed
            }),
            old(self).waiting() == Waiting::Action ==> final(self).pos() == old(self).pos() + 1
                && final(self).reload() == old(self).reload() && final(self).actions() == old(self).actions().update(
                old(self).order()[old(self).pos()] as int,
                old(self).at(old(self).pos()).with_status(outcome@),
            ) && final(self).failed() == (if outcome is Done {
                old(self).failed()
            } else {
                old(self).failed().push(old(self).at(old(self).pos()).project_name)
            }),
    {
        match self.waiting {
            Waiting::Nothing => false,
            Waiting::Reload => {
                let ghost before = *self;
                assert(before.expects_reload());
                match outcome {
                    Outcome::Done => {
                        self.reload = Reload::Done;
                    },
                    Outcome::Fail(_) => {
                        self.reload = Reload::Failed;
                    },
                }
                proof {
                    lemma_reload_settles(
                        before.actions(),
                        before.order(),
                        before.pos(),
                        before.failed(),
                        before.settings(),
                        self.reload(),
                    );
                }
                self.waiting = Waiting::Nothing;
                true
            },
            Waiting::Action => {
                let ghost before = *self;
                let ghost status = outcome@;
                assert(before.expects_action());
                let i = self.order[self.pos];
                self.waiting = Waiting::Nothing;
                assert(self.pos < self.order.len());
                match outcome {
                    Outcome::Done => {
                        self.actions[i].mark_done();
                    },
                    Outcome::Fail(reason) => {
                        let name = self.actions[i].project_name.clone();
                        self.actions[i].mark_failed(reason);
                        self.failed.push(name);
                        assert(self.failed() =~= before.failed().push(
                            before.at(before.pos()).project_name,
                        ));
                    },
                }
                assert(self.order@ == before.order@);
                assert(self.pos == before.pos);
                self.pos = self.pos + 1;
                proof {
                    assert(self.actions() =~= before.actions().update(
                        i as int,
                        before.at(before.pos()).with_status(status),
                    ));
                    assert forall|name: Seq<char>|
                        self.failed().contains(name) <==> (before.failed().contains(name) || (
                        status is Fail && name == before.at(before.pos()).project_name)) by {
                        if status is Fail {
                            let added = before.at(before.pos()).project_name;
                            assert(self.failed() == before.failed().push(added));
                            assert(self.failed()[before.failed().len() as int] == added);
                            if before.failed().contains(name) {
                                let j = before.failed().index_of(name);
                                assert(self.failed()[j] == name);
                            }
                        }
                    }
                    lemma_step(
                        before.actions(),
                        before.order(),
                        before.pos(),
                        before.failed(),
                        before.settings(),
                        before.reload(),
                        status,
                        self.actions(),
                        self.failed(),
                    );
                }
                true
            },
        }
    }
}

/// While the reload is pending no action of the start phase has been passed, so what has
/// been passed stays settled whatever becomes of the reload.
proof fn lemma_reload_settles(
    actions: Seq<ActionView>,
    order: Seq<usize>,
    pos: int,
    failed: Seq<Seq<char>>,
    settings: Settings,
    reload: Reload,
)
    requires
        sound(actions, order, pos, failed, settings, Reload::Pending),
        reload == Reload::Failed ==> !settings.safe_mode && !settings.dry_run,
    ensures
        sound(actions, order, pos, failed, settings, reload),
        pos < order.len() && reload != Reload::Failed ==> (blocked(actions, order, reload, pos)
            == blocked(actions, order, Reload::Pending, pos)),
{
    if !settings.dry_run {
        assert forall|k: int| 0 <= k < pos implies #[trigger] settled(
            actions,
            order,
            settings,
            reload,
            k,
        ) by {
            assert(settled(actions, order, settings, Reload::Pending, k));
            assert(place(actions, order, k).phase != Phase::Start);
        }
    }
}

/// After one more place is passed without the driver, the places passed so are one
/// more, and the rest is as it was.
proof fn lemma_passed_on(
    first: Seq<ActionView>,
    before: Seq<ActionView>,
    after: Seq<ActionView>,
    order: Seq<usize>,
    settings: Settings,
    from: int,
    pos: int,
)
    requires
        0 <= from <= pos < order.len(),
        kept_outside(first, before, order, from, pos),
        passed_over(before, order, settings, from, pos),
        forall|k: int|
            0 <= k < order.len() && k != pos ==> #[trigger] place(after, order, k) == place(
                before,
                order,
                k,
            ),
        place(after, order, pos).status is Cancelled || (answered_by_safe_mode(
            settings,
            place(after, order, pos),
        ) && place(after, order, pos).status is Done),
    ensures
        kept_outside(first, after, order, from, pos + 1),
        passed_over(after, order, settings, from, pos + 1),
{
    assert forall|k: int| (0 <= k < from || pos + 1 <= k < order.len()) implies #[trigger] place(
        after,
        order,
        k,
    ) == place(first, order, k) by {
        assert(place(before, order, k) == place(first, order, k));
    }
    assert forall|k: int| from <= k < pos + 1 implies (#[trigger] place(
        after,
        order,
        k,
    )).status is Cancelled || (answered_by_safe_mode(settings, place(after, order, k)) && place(
        after,
        order,
        k,
    ).status is Done) by {
        if k < pos {
            assert(place(after, order, k) == place(before, order, k));
        }
    }
}

/// In a dry run a place is passed and nothing changes.
proof fn lemma_dry_step(
    actions: Seq<ActionView>,
    order: Seq<usize>,
    pos: int,
    failed: Seq<Seq<char>>,
    settings: Settings,
    reload: Reload,
)
    requires
        sound(actions, order, pos, failed, settings, reload),
        pos < order.len(),
        settings.dry_run,
    ensures
        sound(actions, order, pos + 1, failed, settings, reload),
{
    assert forall|k: int| 0 <= k < pos + 1 implies (#[trigger] place(actions, order, k)).status is Todo by {}
    assert forall|name: Seq<char>|
        failed.contains(name) <==> #[trigger] failed_before(actions, order, pos + 1, name) by {
        if failed_before(actions, order, pos + 1, name) {
            let j = choose|j: int| 0 <= j < pos + 1 && fails_at(actions, order, j, name);
            assert(place(actions, order, j).status is Todo);
        }
    }
}

/// One place further: the action at the place reached gets the status that is due to
/// it, and everything that holds of a run holds again.
proof fn lemma_step(
    actions: Seq<ActionView>,
    order: Seq<usize>,
    pos: int,
    failed: Seq<Seq<char>>,
    settings: Settings,
    reload: Reload,
    status: ActionStatusView,
    new_actions: Seq<ActionView>,
    new_failed: Seq<Seq<char>>,
)
    requires
        sound(actions, order, pos, failed, settings, reload),
        pos < order.len(),
        !settings.dry_run,
        place(actions, order, pos).phase == Phase::Start ==> reload != Reload::Pending,
        new_actions == actions.update(
            order[pos] as int,
            place(actions, order, pos).with_status(status),
        ),
        status is Cancelled <==> blocked(actions, order, reload, pos),
        status is Done || status is Fail || status is Cancelled,
        answered_by_safe_mode(settings, place(actions, order, pos)) ==> status is Done
            || status is Cancelled,
        forall|name: Seq<char>|
            new_failed.contains(name) <==> (failed.contains(name) || (status is Fail && name
                == place(actions, order, pos).project_name)),
    ensures
        sound(new_actions, order, pos + 1, new_failed, settings, reload),
        forall|k: int|
            0 <= k < order.len() && k != pos ==> #[trigger] place(new_actions, order, k) == place(
                actions,
                order,
                k,
            ),
        place(new_actions, order, pos) == place(actions, order, pos).with_status(status),
        new_actions.len() == actions.len(),
        forall|i: int|
            0 <= i < actions.len() ==> (#[trigger] new_actions[i]).with_status(
                ActionStatusView::Todo,
            ) == actions[i].with_status(ActionStatusView::Todo),
{
    let p = pos;
    assert forall|k: int| 0 <= k < order.len() && k != p implies #[trigger] place(
        new_actions,
        order,
        k,
    ) == place(actions, order, k) by {
        if k < p {
            assert(runs_before(actions, order[k] as int, order[p] as int));
        } else {
            assert(runs_before(actions, order[p] as int, order[k] as int));
        }
    }
    assert forall|a: int, b: int| 0 <= a < b < order.len() implies runs_before(
        new_actions,
        #[trigger] order[a] as int,
        #[trigger] order[b] as int,
    ) by {
        assert(runs_before(actions, order[a] as int, order[b] as int));
    }
    assert forall|x: int| 0 <= x < new_actions.len() implies #[trigger] has_index(order, x) by {
        assert(has_index(order, x));
    }
    assert forall|k: int, name: Seq<char>| 0 <= k <= p implies (#[trigger] failed_before(
        new_actions,
        order,
        k,
        name,
    ) <==> failed_before(actions, order, k, name)) by {
        if failed_before(new_actions, order, k, name) {
            let j = choose|j: int| 0 <= j < k && fails_at(new_actions, order, j, name);
            assert(place(new_actions, order, j) == place(actions, order, j));
            assert(fails_at(actions, order, j, name));
        }
        if failed_before(actions, order, k, name) {
            let j = choose|j: int| 0 <= j < k && fails_at(actions, order, j, name);
            assert(place(new_actions, order, j) == place(actions, order, j));
            assert(fails_at(new_actions, order, j, name));
        }
    }
    assert forall|k: int| 0 <= k < p + 1 implies #[trigger] settled(
        new_actions,
        order,
        settings,
        reload,
        k,
    ) by {
        let name = place(actions, order, k).project_name;
        assert(failed_before(new_actions, order, k, name) <==> failed_before(
            actions,
            order,
            k,
            name,
        ));
        if k < p {
            assert(settled(actions, order, settings, reload, k));
            assert(place(new_actions, order, k) == place(actions, order, k));
        }
    }
    assert forall|name: Seq<char>|
        new_failed.contains(name) <==> #[trigger] failed_before(
            new_actions,
            order,
            p + 1,
            name,
        ) by {
        assert(failed_before(new_actions, order, p, name) <==> failed_before(
            actions,
            order,
            p,
            name,
        ));
        if failed_before(new_actions, order, p + 1, name) {
            let j = choose|j: int| 0 <= j < p + 1 && fails_at(new_actions, order, j, name);
            if j < p {
                assert(failed_before(new_actions, order, p, name));
            }
        }
        if failed.contains(name) {
            assert(failed_before(actions, order, p, name));
            let j = choose|j: int| 0 <= j < p && fails_at(new_actions, order, j, name);
            assert(fails_at(new_actions, order, j, name));
        }
        if status is Fail && name == place(actions, order, p).project_name {
            assert(fails_at(new_actions, order, p, name));
        }
    }
    assert forall|k: int| p + 1 <= k < order.len() implies (#[trigger] place(
        new_actions,
        order,
        k,
    )).status is Todo by {
        assert(place(new_actions, order, k) == place(actions, order, k));
    }
    if reload == Reload::Pending {
        assert forall|k: int| 0 <= k < p + 1 implies (#[trigger] place(
            new_actions,
            order,
            k,
        )).phase != Phase::Start by {
            if k < p {
                assert(place(new_actions, order, k) == place(actions, order, k));
            }
        }
    }
}

} // verus!
