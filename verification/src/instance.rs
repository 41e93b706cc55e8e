//! An instance: a configuration and the place it was read from, and the runs that it
//! can start.
//!
//! A run decides; it starts no process itself. A driver asks it for the next move, makes
//! it, and reports how the process ended. When a command of a project fails, by its own
//! report or because it could not be started, the run leaves out everything else of that
//! project, and the other projects go on.

use crate::config::{
    steps_plan, AssembleError, AssembleErrorView, Config, ConfigView, PhasePlan, PhasePlanView,
    StepView,
};
use crate::paths::dir_of;
use crate::reconcile::{is_visible, visible};
use crate::{Invocation, InvocationView};
use vstd::prelude::*;
use vstd::string::StringExecFns;

verus! {

/// What there is to do at one place of a run.
#[derive(Debug, Clone, PartialEq)]
pub enum UnitKind {
    /// A child process to run.
    Command(Invocation),
    /// A step that could not be put together; the run cannot go past it.
    Broken(AssembleError),
    /// A global command that the configuration does not have; the run cannot go past it.
    Missing,
}

/// An [`UnitKind`] as a mathematical value: its strings as sequences of characters,
/// its lists as sequences.
pub enum UnitKindView {
    Command(InvocationView),
    Broken(AssembleErrorView),
    Missing,
}

impl View for UnitKind {
    type V = UnitKindView;

    open spec fn view(&self) -> UnitKindView {
        match self {
            UnitKind::Command(invocation) => UnitKindView::Command(invocation@),
            UnitKind::Broken(error) => UnitKindView::Broken(error@),
            UnitKind::Missing => UnitKindView::Missing,
        }
    }
}

/// One place of a run: what there is to do, and for whom. The owner is the name of the
/// project, or of the global command.
#[derive(Debug, Clone, PartialEq)]
pub struct Unit {
    pub owner: String,
    pub kind: UnitKind,
}

/// An [`Unit`] as a mathematical value: its strings as sequences of characters,
/// its lists as sequences.
pub struct UnitView {
    pub owner: Seq<char>,
    pub kind: UnitKindView,
}

impl View for Unit {
    type V = UnitView;

    open spec fn view(&self) -> UnitView {
        UnitView { owner: self.owner@, kind: self.kind@ }
    }
}

impl DeepView for Unit {
    type V = UnitView;

    open spec fn deep_view(&self) -> UnitView {
        self@
    }
}

/// How a child process ended.
#[derive(Debug, Clone, Copy, PartialEq, Eq, Structural)]
pub enum Ran {
    /// It ran and reported success.
    Success,
    /// It ran and reported failure.
    Failure,
    /// It could not be started; this is a failure like the one that a process reports.
    NotStarted,
}

/// Why a run stops before its end.
#[derive(Debug, Clone, Copy, PartialEq, Eq, Structural)]
pub enum Cause {
    /// A step could not be put together.
    Broken,
    /// A global command is not in the configuration.
    Missing,
    /// A process of a global command reported failure.
    Failed,
    /// A process of a global command could not be started.
    NotStarted,
}

/// What is said when a run stops before its end. `owner` is the global command at
/// which it stops. For a process that could not be started, `reason` is why; for a step
/// that could not be put together, `reason` is the message of its error, and that alone
/// is said.
pub open spec fn failure_text(owner: Seq<char>, cause: Cause, reason: Seq<char>) -> Seq<char> {
    match cause {
        Cause::Missing => "global command '"@ + owner + "' not found"@,
        Cause::Failed => "global command '"@ + owner + "' failed"@,
        Cause::NotStarted => "global command '"@ + owner + "' error: "@ + reason,
        Cause::Broken => reason,
    }
}

/// What is said when a run stops before its end.
pub fn failure_message(owner: &str, cause: Cause, reason: &str) -> (r: String)
    ensures
        r@ == failure_text(owner@, cause, reason@),
{
    match cause {
        Cause::Broken => reason.to_owned(),
        _ => {
            let mut r = "global command '".to_owned();
            r.append(owner);
            match cause {
                Cause::Missing => {
                    r.append("' not found");
                },
                Cause::Failed => {
                    r.append("' failed");
                },
                _ => {
                    r.append("' error: ");
                    r.append(reason);
                },
            }
            r
        },
    }
}

/// What the driver is to do next.
#[derive(Debug, Clone, Copy, PartialEq, Eq, Structural)]
pub enum Move {
    /// Run the process of the unit at this index, and report how it ended.
    Run(usize),
    /// Say that the process of the unit at this index would run.
    Announce(usize),
    /// Give the run up at the unit at this index.
    Abort(usize, Cause),
    /// Nothing is left to do.
    Finished,
}

/// The units of a plan: its processes, and behind them its failure if it has one.
pub open spec fn plan_units(owner: Seq<char>, plan: PhasePlanView) -> Seq<UnitView> {
    let commands = Seq::new(
        plan.invocations.len(),
        |i: int| UnitView { owner, kind: UnitKindView::Command(plan.invocations[i]) },
    );
    match plan.failure {
        Some(e) => commands.push(UnitView { owner, kind: UnitKindView::Broken(e) }),
        None => commands,
    }
}

/// The units of one phase of one project: those of the phase's plan, where the run looks
/// at the project and the project has the phase.
pub open spec fn project_units(
    config: ConfigView,
    name: Seq<char>,
    phase: Seq<char>,
    filter: Option<Seq<Seq<char>>>,
) -> Seq<UnitView> {
    if visible(filter, name) && config.projects.dom().contains(name)
        && config.projects[name].phases.dom().contains(phase) {
        plan_units(
            name,
            steps_plan(
                config,
                config.projects[name].phases[phase].steps,
                config.projects[name].dir,
                name,
            ),
        )
    } else {
        seq![]
    }
}

/// The units of one phase over the given projects, project after project.
pub open spec fn phase_units(
    config: ConfigView,
    names: Seq<Seq<char>>,
    phase: Seq<char>,
    filter: Option<Seq<Seq<char>>>,
) -> Seq<UnitView>
    decreases names.len(),
{
    if names.len() == 0 {
        seq![]
    } else {
        phase_units(config, names.drop_last(), phase, filter) + project_units(
            config,
            names.last(),
            phase,
            filter,
        )
    }
}

/// The units of a run over projects: phase after phase as the phases are given, and
/// within each phase project after project.
pub open spec fn run_units(
    config: ConfigView,
    names: Seq<Seq<char>>,
    phases: Seq<Seq<char>>,
    filter: Option<Seq<Seq<char>>>,
) -> Seq<UnitView>
    decreases phases.len(),
{
    if phases.len() == 0 {
        seq![]
    } else {
        run_units(config, names, phases.drop_last(), filter) + phase_units(
            config,
            names,
            phases.last(),
            filter,
        )
    }
}

/// The units of one global command: those of the plan of its steps, run in `dir` under
/// the name `global`; a single unit that says so where the command is not there.
pub open spec fn global_command_units(config: ConfigView, dir: Seq<char>, key: Seq<char>) -> Seq<
    UnitView,
> {
    if config.global.dom().contains(key) {
        plan_units(key, steps_plan(config, config.global[key], dir, "global"@))
    } else {
        seq![UnitView { owner: key, kind: UnitKindView::Missing }]
    }
}

/// The units of a run of global commands, command after command.
pub open spec fn global_units(config: ConfigView, dir: Seq<char>, keys: Seq<Seq<char>>) -> Seq<
    UnitView,
>
    decreases keys.len(),
{
    if keys.len() == 0 {
        seq![]
    } else {
        global_units(config, dir, keys.drop_last()) + global_command_units(config, dir, keys.last())
    }
}

/// Whether the owner of each unit from `from` up to `to` is among the ignored.
pub open spec fn skipped(units: Seq<UnitView>, ignored: Seq<Seq<char>>, from: int, to: int) -> bool {
    forall|k: int| from <= k < to ==> ignored.contains((#[trigger] units[k]).owner)
}

/// The state of a run of commands.
#[derive(Debug)]
pub struct Run {
    units: Vec<Unit>,
    pos: usize,
    ignored: Vec<String>,
    dry_run: bool,
    global: bool,
    waiting: bool,
    halted: bool,
}

impl Run {
    /// The units of the run, in the order in which the run goes through them.
    pub closed spec fn units(&self) -> Seq<UnitView> {
        self.units.deep_view()
    }

    /// The place that the run has reached.
    pub closed spec fn pos(&self) -> int {
        self.pos as int
    }

    /// The owners of which a command has failed.
    pub closed spec fn ignored(&self) -> Seq<Seq<char>> {
        self.ignored.deep_view()
    }

    /// Whether the commands are only announced.
    pub closed spec fn dry_run(&self) -> bool {
        self.dry_run
    }

    /// Whether the run is one of global commands, which stops at the first failure.
    pub closed spec fn global(&self) -> bool {
        self.global
    }

    /// Whether the run waits to hear how a process ended.
    pub closed spec fn waiting(&self) -> bool {
        self.waiting
    }

    /// Whether the run was given up.
    pub closed spec fn halted(&self) -> bool {
        self.halted
    }

    /// What holds of every state of a run.
    pub open spec fn wf(&self) -> bool {
        &&& 0 <= self.pos() <= self.units().len()
        &&& self.global() ==> self.ignored().len() == 0
        &&& self.waiting() ==> {
            &&& self.pos() < self.units().len()
            &&& self.units()[self.pos()].kind is Command
            &&& !self.ignored().contains(self.units()[self.pos()].owner)
            &&& !self.dry_run()
            &&& !self.halted()
        }
    }

    /// Whether two states belong to the same run.
    pub open spec fn same_run(&self, other: &Run) -> bool {
        &&& self.units() == other.units()
        &&& self.dry_run() == other.dry_run()
        &&& self.global() == other.global()
    }

    /// A run over the given units that has not begun.
    pub fn new(units: Vec<Unit>, dry_run: bool, global: bool) -> (r: Self)
        ensures
            r.wf(),
            r.units() == units.deep_view(),
            r.pos() == 0,
            r.ignored() == Seq::<Seq<char>>::empty(),
            r.dry_run() == dry_run,
            r.global() == global,
            !r.waiting(),
            !r.halted(),
    {
        let r = Run {
            units,
            pos: 0,
            ignored: Vec::new(),
            dry_run,
            global,
            waiting: false,
            halted: false,
        };
        assert(r.ignored() =~= Seq::<Seq<char>>::empty());
        r
    }

    /// The unit at index `i`.
    pub fn unit(&self, i: usize) -> (r: Option<&Unit>)
        ensures
            r is Some <==> i < self.units().len(),
            r is Some ==> r->0@ == self.units()[i as int],
    {
        if i < self.units.len() {
            Some(&self.units[i])
        } else {
            None
        }
    }

    /// How many units the run has.
    pub fn len(&self) -> (n: usize)
        ensures
            n == self.units().len(),
    {
        self.units.len()
    }

    /// The owners of which a command has failed.
    pub fn ignored_owners(&self) -> (r: &Vec<String>)
        ensures
            r.deep_view() == self.ignored(),
    {
        &self.ignored
    }

    /// What the driver is to do next.
    ///
    /// The run goes through its units in order and leaves out those whose owner is among
    /// the ignored. At a process it asks the driver to run it, or in a dry run to announce
    /// it. At a step that could not be put together, or a global command that is not
    /// there, it gives up. While it waits to hear how a process ended it gives the same
    /// answer again, and once given up it has nothing more to do.
    pub fn next(&mut self) -> (r: Move)
        requires
            old(self).wf(),
        ensures
            final(self).wf(),
            final(self).same_run(old(self)),
            final(self).ignored() == old(self).ignored(),
            old(self).pos() <= final(self).pos() <= final(self).units().len(),
            old(self).waiting() ==> r is Run && r->Run_0 as int == old(self).pos() && final(self).pos() == old(self).pos() && final(self).waiting() && !final(self).halted(),
            old(self).halted() ==> r == Move::Finished && final(self).pos() == old(self).pos()
                && final(self).halted() && !final(self).waiting(),
            !old(self).waiting() && !old(self).halted() ==> match r {
                Move::Run(i) => {
                    &&& i == final(self).pos()
                    &&& i < final(self).units().len()
                    &&& skipped(final(self).units(), final(self).ignored(), old(self).pos(), i as int)
                    &&& !final(self).ignored().contains(final(self).units()[i as int].owner)
                    &&& final(self).units()[i as int].kind is Command
                    &&& !final(self).dry_run()
                    &&& final(self).waiting()
                    &&& !final(self).halted()
                },
                Move::Announce(i) => {
                    &&& old(self).pos() <= i
                    &&& i + 1 == final(self).pos()
                    &&& skipped(final(self).units(), final(self).ignored(), old(self).pos(), i as int)
                    &&& !final(self).ignored().contains(final(self).units()[i as int].owner)
                    &&& final(self).units()[i as int].kind is Command
                    &&& final(self).dry_run()
                    &&& !final(self).waiting()
                    &&& !final(self).halted()
                },
                Move::Abort(i, cause) => {
                    &&& i == final(self).pos()
                    &&& i < final(self).units().len()
                    &&& skipped(final(self).units(), final(self).ignored(), old(self).pos(), i as int)
                    &&& !final(self).ignored().contains(final(self).units()[i as int].owner)
                    &&& match final(self).units()[i as int].kind {
                        UnitKindView::Broken(_) => cause == Cause::Broken,
                        UnitKindView::Missing => cause == Cause::Missing,
                        UnitKindView::Command(_) => false,
                    }
                    &&& !final(self).waiting()
                    &&& final(self).halted()
                },
                Move::Finished => {
                    &&& final(self).pos() == final(self).units().len()
                    &&& skipped(
                        final(self).units(),
                        final(self).ignored(),
                        old(self).pos(),
                        final(self).pos(),
                    )
                    &&& !final(self).waiting()
                    &&& !final(self).halted()
                },
            },
    {
        if self.waiting {
            return Move::Run(self.pos);
        }
        if self.halted {
            return Move::Finished;
        }
        while self.pos < self.units.len()
            invariant
                self.wf(),
                self.same_run(old(self)),
                self.ignored() == old(self).ignored(),
                !self.waiting(),
                !self.halted(),
                !old(self).waiting(),
                !old(self).halted(),
                old(self).pos() <= self.pos() <= self.units().len(),
                skipped(self.units(), self.ignored(), old(self).pos(), self.pos()),
            decreases self.units.len() - self.pos,
        {
            let i = self.pos;
            if crate::reconcile::contains_name(&self.ignored, self.units[i].owner.as_str()) {
                self.pos = i + 1;
            } else {
                match &self.units[i].kind {
                    UnitKind::Command(_) => {
                        if self.dry_run {
                            self.pos = i + 1;
                            return Move::Announce(i);
                        }
                        self.waiting = true;
                        return Move::Run(i);
                    },
                    UnitKind::Broken(_) => {
                        self.halted = true;
                        return Move::Abort(i, Cause::Broken);
                    },
                    UnitKind::Missing => {
                        self.halted = true;
                        return Move::Abort(i, Cause::Missing);
                    },
                }
            }
        }
        Move::Finished
    }

    /// Takes note of how the process that the driver was asked to run ended. Where the
    /// run was not waiting for that, nothing changes.
    ///
    /// A process that reported failure and a process that could not be started have both
    /// failed. In a run over projects the failure puts the project among the ignored, so
    /// that nothing more of it runs. In a run of global commands the failure ends the run,
    /// and the answer says which of the two it was.
    pub fn record(&mut self, ran: Ran) -> (r: Option<Cause>)
        requires
            old(self).wf(),
        ensures
            final(self).wf(),
            final(self).same_run(old(self)),
            !final(self).waiting(),
            !old(self).waiting() ==> r is None && final(self).pos() == old(self).pos() && final(self).ignored() == old(self).ignored() && final(self).halted() == old(self).halted(),
            old(self).waiting() ==> {
                let owner = old(self).units()[old(self).pos()].owner;
                let stops = old(self).global() && ran != Ran::Success;
                &&& final(self).halted() == stops
                &&& final(self).pos() == (if stops {
                    old(self).pos()
                } else {
                    old(self).pos() + 1
                })
                &&& final(self).ignored() == (if !old(self).global() && ran != Ran::Success {
                    old(self).ignored().push(owner)
                } else {
                    old(self).ignored()
                })
                &&& !old(self).global() && ran != Ran::Success ==> final(self).ignored().contains(
                    owner,
                )
                &&& r == (if !stops {
                    None
                } else if ran == Ran::Failure {
                    Some(Cause::Failed)
                } else {
                    Some(Cause::NotStarted)
                })
            },
    {
        if !self.waiting {
            return None;
        }
        assert(self.pos < self.units.len());
        self.waiting = false;
        match ran {
            Ran::Success => {
                self.pos = self.pos + 1;
                None
            },
            _ => {
                if self.global {
                    self.halted = true;
                    match ran {
                        Ran::Failure => Some(Cause::Failed),
                        _ => Some(Cause::NotStarted),
                    }
                } else {
                    let ghost before = self.ignored();
                    let owner = self.units[self.pos].owner.clone();
                    self.ignored.push(owner);
                    assert(self.ignored() =~= before.push(self.units()[self.pos()].owner));
                    assert(self.ignored()[before.len() as int] == self.units()[self.pos()].owner);
                    self.pos = self.pos + 1;
                    None
                }
            },
        }
    }
}

/// While a run waits for a process, the owner of that process has not failed before:
/// after a failure nothing more of its owner is handed to the driver.
pub proof fn lemma_no_run_after_failure(r: &Run)
    requires
        r.wf(),
        r.waiting(),
    ensures
        !r.ignored().contains(r.units()[r.pos()].owner),
{
}

/// Appends the units of a plan to `units`.
fn push_plan(units: &mut Vec<Unit>, owner: &str, plan: PhasePlan)
    ensures
        final(units).deep_view() == old(units).deep_view() + plan_units(owner@, plan@),
{
    let ghost had = units.deep_view();
    let ghost commands = Seq::new(
        plan@.invocations.len(),
        |i: int| UnitView { owner: owner@, kind: UnitKindView::Command(plan@.invocations[i]) },
    );
    let mut i: usize = 0;
    while i < plan.invocations.len()
        invariant
            i <= plan.invocations.len(),
            units.len() == had.len() + i,
            forall|j: int| 0 <= j < had.len() ==> units[j]@ == had[j],
            forall|j: int| 0 <= j < i ==> units[had.len() + j]@ == commands[j],
            commands.len() == plan.invocations.len(),
            forall|j: int|
                0 <= j < commands.len() ==> commands[j] == (UnitView {
                    owner: owner@,
                    kind: UnitKindView::Command(plan.invocations[j]@),
                }),
        decreases plan.invocations.len() - i,
    {
        units.push(Unit { owner: owner.to_owned(), kind: UnitKind::Command(plan.invocations[i].copy()) });
        i += 1;
    }
    assert(units.deep_view() =~= had + commands);
    match &plan.failure {
        Some(e) => {
            units.push(Unit { owner: owner.to_owned(), kind: UnitKind::Broken(e.copy()) });
            assert(units.deep_view() =~= had + plan_units(owner@, plan@));
        },
        None => {},
    }
}

/// A configuration and the place it was read from.
#[derive(Debug, Clone)]
pub struct Instance {
    config: Config,
    path: String,
}

impl Default for Instance {
    /// An instance with an empty configuration that was read from nowhere.
    fn default() -> (r: Self)
        ensures
            r.path() == Seq::<char>::empty(),
            r.config()@.projects == Map::<Seq<char>, crate::config::ProjectView>::empty(),
            r.config()@.tasks == Map::<Seq<char>, crate::config::TaskView>::empty(),
            r.config()@.global == Map::<Seq<char>, Seq<StepView>>::empty(),
            r.config()@.task_count == 0,
    {
        Instance { path: String::new(), config: Config::default() }
    }
}

impl Instance {
    /// The configuration of the instance.
    pub closed spec fn config(&self) -> Config {
        self.config
    }

    /// The place that the configuration was read from.
    pub closed spec fn path(&self) -> Seq<char> {
        self.path@
    }

    /// An instance for the configuration file at `path`, with an empty configuration.
    pub fn new(path: String) -> (r: Self)
        ensures
            r.path() == path@,
            r.config()@.projects == Map::<Seq<char>, crate::config::ProjectView>::empty(),
            r.config()@.tasks == Map::<Seq<char>, crate::config::TaskView>::empty(),
            r.config()@.global == Map::<Seq<char>, Seq<StepView>>::empty(),
            r.config()@.task_count == 0,
    {
        Instance { path, config: Config::default() }
    }

    /// An instance for the configuration `config`, read from the file at `path`.
    pub fn with_config(path: String, config: Config) -> (r: Self)
        ensures
            r.path() == path@,
            r.config() == config,
    {
        Instance { path, config }
    }

    /// The configuration of the instance.
    pub fn configuration(&self) -> (r: &Config)
        ensures
            *r == self.config(),
    {
        &self.config
    }

    /// The place that the configuration was read from.
    pub fn location(&self) -> (r: &String)
        ensures
            r@ == self.path(),
    {
        &self.path
    }

    /// A run of the given phases over the projects: phase after phase as they are given,
    /// and within each phase the projects in ascending order of name. With a filter, only
    /// the projects in it take part. A project that lacks a phase takes no part in it.
    pub fn cmd_run(
        &self,
        phase_strings: Vec<String>,
        project_filter: Option<Vec<String>>,
        dry_run: bool,
    ) -> (r: Run)
        ensures
            r.wf(),
            r.units() == run_units(
                self.config()@,
                self.config().projects.keys(),
                phase_strings.deep_view(),
                project_filter.deep_view(),
            ),
            r.pos() == 0,
            r.ignored() == Seq::<Seq<char>>::empty(),
            r.dry_run() == dry_run,
            !r.global(),
            !r.waiting(),
            !r.halted(),
    {
        let filter: Option<&Vec<String>> = match &project_filter {
            Some(names) => Some(names),
            None => None,
        };
        let ghost config = self.config@;
        let ghost names = self.config.projects.keys();
        let ghost phases = phase_strings.deep_view();
        let ghost fil = project_filter.deep_view();
        let mut units: Vec<Unit> = Vec::new();
        let n = self.config.projects.len();
        let mut p: usize = 0;
        proof {
            assert(units.deep_view() =~= run_units(config, names, phases.take(0), fil));
        }
        while p < phase_strings.len()
            invariant
                p <= phase_strings.len(),
                n == names.len(),
                config == self.config@,
                names == self.config.projects.keys(),
                self.config.projects.wf(),
                phases == phase_strings.deep_view(),
                fil == project_filter.deep_view(),
                fil == filter.deep_view(),
                units.deep_view() == run_units(config, names, phases.take(p as int), fil),
            decreases phase_strings.len() - p,
        {
            let phase = &phase_strings[p];
            let ghost had = units.deep_view();
            proof {
                assert(phases.take(p + 1).drop_last() =~= phases.take(p as int));
                assert(phases.take(p + 1).last() == phase@);
                assert(had + phase_units(config, names.take(0), phase@, fil) =~= had);
            }
            let mut i: usize = 0;
            while i < n
                invariant
                    i <= n,
                    n == names.len(),
                    config == self.config@,
                    names == self.config.projects.keys(),
                    self.config.projects.wf(),
                    fil == filter.deep_view(),
                    units.deep_view() == had + phase_units(config, names.take(i as int), phase@, fil),
                decreases n - i,
            {
                let name = self.config.projects.key_at(i);
                let project = self.config.projects.value_at(i);
                proof {
                    assert(names.take(i + 1).drop_last() =~= names.take(i as int));
                    assert(names.take(i + 1).last() == name@);
                    crate::dict::lemma_entry(&self.config.projects, i as int);
                }
                let ghost so_far = units.deep_view();
                if is_visible(filter, name.as_str()) {
                    match project.phases.get(phase.as_str()) {
                        Some(steps) => {
                            let plan = steps.plan(&self.config, project, name.as_str());
                            push_plan(&mut units, name.as_str(), plan);
                        },
                        None => {},
                    }
                }
                proof {
                    let more = project_units(config, name@, phase@, fil);
                    assert(units.deep_view() =~= so_far + more);
                    assert(had + (phase_units(config, names.take(i as int), phase@, fil) + more)
                        =~= so_far + more);
                }
                i += 1;
            }
            proof {
                assert(names.take(n as int) =~= names);
            }
            p += 1;
        }
        proof {
            assert(phases.take(phase_strings.len() as int) =~= phases);
        }
        Run::new(units, dry_run, false)
    }

    /// A run of the global commands named by `keys`, command after command, in the
    /// directory that holds the configuration file. The run stops at the first command
    /// that is not in the configuration, and at the first process that fails.
    pub fn cmd_run_global(&self, keys: Vec<String>, dry_run: bool) -> (r: Run)
        ensures
            r.wf(),
            r.units() == global_units(self.config()@, dir_of(self.path()), keys.deep_view()),
            r.pos() == 0,
            r.ignored() == Seq::<Seq<char>>::empty(),
            r.dry_run() == dry_run,
            r.global(),
            !r.waiting(),
            !r.halted(),
    {
        let config_dir = crate::paths::parent_or_here(self.path.as_str());
        let ghost config = self.config@;
        let ghost all = keys.deep_view();
        let mut units: Vec<Unit> = Vec::new();
        let mut i: usize = 0;
        proof {
            assert(units.deep_view() =~= global_units(config, config_dir@, all.take(0)));
        }
        while i < keys.len()
            invariant
                i <= keys.len(),
                config == self.config@,
                all == keys.deep_view(),
                units.deep_view() == global_units(config, config_dir@, all.take(i as int)),
            decreases keys.len() - i,
        {
            let key = &keys[i];
            proof {
                assert(all.take(i + 1).drop_last() =~= all.take(i as int));
                assert(all.take(i + 1).last() == key@);
            }
            let ghost so_far = units.deep_view();
            match self.config.global.get(key.as_str()) {
                Some(steps) => {
                    let plan = crate::config::plan_steps(
                        &self.config,
                        steps,
                        config_dir.as_str(),
                        "global",
                    );
                    push_plan(&mut units, key.as_str(), plan);
                },
                None => {
                    units.push(Unit { owner: key.clone(), kind: UnitKind::Missing });
                    assert(units.deep_view() =~= so_far + global_command_units(
                        config,
                        config_dir@,
                        key@,
                    ));
                },
            }
            i += 1;
        }
        proof {
            assert(all.take(keys.len() as int) =~= all);
        }
        Run::new(units, dry_run, true)
    }
}

} // verus!
