//! The configuration of a set of projects: phases made of steps, steps that run
//! commands or call tasks, and tasks that are lists of steps with arguments.

use crate::dict::Dict;
use crate::paths::{path_cleaned, path_join};
use crate::text::{joined, replaced};
use crate::{shell_invocation, Invocation, InvocationView};
use vstd::prelude::*;
use vstd::string::StringExecFns;

verus! {

/// One command or a list of commands.
#[derive(Debug, Clone, PartialEq)]
pub enum Cmds {
    Single(String),
    Many(Vec<String>),
}

/// A [`Cmds`] as a mathematical value: its strings as sequences of characters,
/// its lists as sequences.
pub enum CmdsView {
    Single(Seq<char>),
    Many(Seq<Seq<char>>),
}

impl CmdsView {
    /// The commands, in order.
    pub open spec fn items(self) -> Seq<Seq<char>> {
        match self {
            CmdsView::Single(cmd) => seq![cmd],
            CmdsView::Many(cmds) => cmds,
        }
    }
}

impl View for Cmds {
    type V = CmdsView;

    open spec fn view(&self) -> CmdsView {
        match self {
            Cmds::Single(cmd) => CmdsView::Single(cmd@),
            Cmds::Many(cmds) => CmdsView::Many(cmds.deep_view()),
        }
    }
}

impl DeepView for Cmds {
    type V = CmdsView;

    open spec fn deep_view(&self) -> CmdsView {
        self@
    }
}

impl Cmds {
    /// The commands as a list.
    pub fn to_vec(&self) -> (r: Vec<String>)
        ensures
            r.deep_view() == self@.items(),
    {
        match self {
            Cmds::Single(cmd) => {
                let mut r: Vec<String> = Vec::new();
                r.push(cmd.clone());
                assert(r.deep_view() =~= self@.items());
                r
            },
            Cmds::Many(cmds) => crate::text::copy_all(cmds),
        }
    }

    /// The child process that runs the commands in the directory `path`, with the
    /// streams of the parent: inside the dependency shell with `deps` where dependencies
    /// are given, in plain bash where they are not.
    pub fn assemble(
        &self,
        path: &str,
        deps: Option<&Vec<String>>,
        project_name: &str,
        project_dir: &str,
    ) -> (r: Invocation)
        ensures
            r@ == shell_invocation(
                path@,
                deps.deep_view(),
                self@.items(),
                true,
                project_name@,
                project_dir@,
            ),
    {
        let cmds = self.to_vec();
        crate::nix_shell(path, deps, &cmds, true, project_name, project_dir)
    }
}

/// The arguments that a step hands to a task: names and values, in ascending order of
/// name.
pub struct Bindings {
    pub keys: Seq<Seq<char>>,
    pub values: Seq<Seq<char>>,
}

/// The arguments that a map holds.
pub open spec fn bindings(args: &Dict<String>) -> Bindings {
    Bindings { keys: args.keys(), values: args.deep_values() }
}

/// The place in a command that stands for the argument `key`: the key between doubled
/// braces.
pub open spec fn placeholder(key: Seq<char>) -> Seq<char> {
    "{{"@ + key + "}}"@
}

/// `cmd` after each argument in turn has been put in the place that stands for it.
pub open spec fn substituted(cmd: Seq<char>, args: Bindings) -> Seq<char>
    decreases args.keys.len(),
{
    if args.keys.len() == 0 || args.values.len() == 0 {
        cmd
    } else {
        replaced(
            substituted(
                cmd,
                Bindings { keys: args.keys.drop_last(), values: args.values.drop_last() },
            ),
            placeholder(args.keys.last()),
            args.values.last(),
        )
    }
}

/// Puts the arguments into the command: for each argument, in ascending order of name,
/// every `{{name}}` is replaced by the argument's value.
pub fn substitute_args(cmd: &str, args: &Dict<String>) -> (r: String)
    ensures
        r@ == substituted(cmd@, bindings(args)),
{
    let mut result = cmd.to_owned();
    let n = args.len();
    let ghost all = bindings(args);
    let mut i: usize = 0;
    while i < n
        invariant
            i <= n,
            n == args.keys().len(),
            n == args.values().len(),
            all == bindings(args),
            result@ == substituted(
                cmd@,
                Bindings { keys: all.keys.take(i as int), values: all.values.take(i as int) },
            ),
        decreases n - i,
    {
        let mut pattern = "{{".to_owned();
        pattern.append(args.key_at(i).as_str());
        pattern.append("}}");
        proof {
            assert(all.keys.take(i + 1).drop_last() =~= all.keys.take(i as int));
            assert(all.values.take(i + 1).drop_last() =~= all.values.take(i as int));
            assert(all.keys.take(i + 1).last() == args.keys()[i as int]);
            assert(all.values.take(i + 1).last() == args.values()[i as int]@);
        }
        result = crate::text::replace(result.as_str(), pattern.as_str(), args.value_at(i).as_str());
        i += 1;
    }
    proof {
        assert(all.keys.take(n as int) =~= all.keys);
        assert(all.values.take(n as int) =~= all.values);
    }
    result
}

/// A call of a task, with the arguments for it.
#[derive(Debug, Clone, PartialEq)]
pub struct ExecTask {
    pub task: String,
    pub with: Dict<String>,
}

/// An [`ExecTask`] as a mathematical value: its strings as sequences of characters,
/// its lists as sequences.
pub struct ExecTaskView {
    pub task: Seq<char>,
    pub with: Bindings,
}

impl View for ExecTask {
    type V = ExecTaskView;

    open spec fn view(&self) -> ExecTaskView {
        ExecTaskView { task: self.task@, with: bindings(&self.with) }
    }
}

/// What a step does: it runs commands, or it calls a task.
#[derive(Debug, Clone, PartialEq)]
pub enum Exec {
    Run { run: Cmds },
    Task(ExecTask),
}

/// An [`Exec`] as a mathematical value: its strings as sequences of characters,
/// its lists as sequences.
pub enum ExecView {
    Run { run: CmdsView },
    Task(ExecTaskView),
}

impl View for Exec {
    type V = ExecView;

    open spec fn view(&self) -> ExecView {
        match self {
            Exec::Run { run } => ExecView::Run { run: run@ },
            Exec::Task(task) => ExecView::Task(task@),
        }
    }
}

/// One step of a phase or of a task.
#[derive(Debug, Clone, PartialEq)]
pub struct Step {
    pub job: Exec,
    /// The dependencies that the dependency shell is to offer.
    pub deps: Vec<String>,
    /// The directory to run in, relative to the project's directory.
    pub cwd: Option<String>,
}

/// A [`Step`] as a mathematical value: its strings as sequences of characters,
/// its lists as sequences.
pub struct StepView {
    pub job: ExecView,
    pub deps: Seq<Seq<char>>,
    pub cwd: Option<Seq<char>>,
}

impl View for Step {
    type V = StepView;

    open spec fn view(&self) -> StepView {
        StepView { job: self.job@, deps: self.deps.deep_view(), cwd: self.cwd.deep_view() }
    }
}

impl DeepView for Step {
    type V = StepView;

    open spec fn deep_view(&self) -> StepView {
        self@
    }
}

/// A named list of steps with the arguments that it asks for.
#[derive(Debug, Clone, PartialEq)]
pub struct Task {
    pub args: Vec<String>,
    pub steps: Vec<Step>,
}

/// A [`Task`] as a mathematical value: its strings as sequences of characters,
/// its lists as sequences.
pub struct TaskView {
    pub args: Seq<Seq<char>>,
    pub steps: Seq<StepView>,
}

impl View for Task {
    type V = TaskView;

    open spec fn view(&self) -> TaskView {
        TaskView { args: self.args.deep_view(), steps: self.steps.deep_view() }
    }
}

impl DeepView for Task {
    type V = TaskView;

    open spec fn deep_view(&self) -> TaskView {
        self@
    }
}

/// The steps of one phase of a project.
#[derive(Debug, Clone, PartialEq)]
pub struct Phase {
    pub steps: Vec<Step>,
}

/// A [`Phase`] as a mathematical value: its strings as sequences of characters,
/// its lists as sequences.
pub struct PhaseView {
    pub steps: Seq<StepView>,
}

impl View for Phase {
    type V = PhaseView;

    open spec fn view(&self) -> PhaseView {
        PhaseView { steps: self.steps.deep_view() }
    }
}

impl DeepView for Phase {
    type V = PhaseView;

    open spec fn deep_view(&self) -> PhaseView {
        self@
    }
}

/// A project: its directory and its phases by name.
#[derive(Debug, Clone, PartialEq)]
pub struct Project {
    pub dir: String,
    pub phases: Dict<Phase>,
}

/// A [`Project`] as a mathematical value: its strings as sequences of characters,
/// its lists as sequences.
pub struct ProjectView {
    pub dir: Seq<char>,
    pub phases: Map<Seq<char>, PhaseView>,
}

impl View for Project {
    type V = ProjectView;

    open spec fn view(&self) -> ProjectView {
        ProjectView { dir: self.dir@, phases: self.phases.deep_view() }
    }
}

impl DeepView for Project {
    type V = ProjectView;

    open spec fn deep_view(&self) -> ProjectView {
        self@
    }
}

/// The whole configuration: projects, tasks and global commands, each by name.
#[derive(Debug, Clone, PartialEq)]
pub struct Config {
    pub projects: Dict<Project>,
    pub tasks: Dict<Task>,
    pub global: Dict<Vec<Step>>,
}

/// A [`Config`] as a mathematical value: its strings as sequences of characters,
/// its lists as sequences.
pub struct ConfigView {
    pub projects: Map<Seq<char>, ProjectView>,
    pub tasks: Map<Seq<char>, TaskView>,
    pub global: Map<Seq<char>, Seq<StepView>>,
    /// How many tasks there are.
    pub task_count: nat,
}

impl View for Config {
    type V = ConfigView;

    open spec fn view(&self) -> ConfigView {
        ConfigView {
            projects: self.projects.deep_view(),
            tasks: self.tasks.deep_view(),
            global: self.global.deep_view(),
            task_count: self.tasks.keys().len(),
        }
    }
}

impl Default for Config {
    fn default() -> (c: Self)
        ensures
            c@.projects == Map::<Seq<char>, ProjectView>::empty(),
            c@.tasks == Map::<Seq<char>, TaskView>::empty(),
            c@.global == Map::<Seq<char>, Seq<StepView>>::empty(),
            c@.task_count == 0,
    {
        let c = Config { projects: Dict::new(), tasks: Dict::new(), global: Dict::new() };
        assert(c@.projects =~= Map::<Seq<char>, ProjectView>::empty());
        assert(c@.tasks =~= Map::<Seq<char>, TaskView>::empty());
        assert(c@.global =~= Map::<Seq<char>, Seq<StepView>>::empty());
        c
    }
}

/// Why the commands of a step could not be put together.
#[derive(Debug, Clone, PartialEq)]
pub enum AssembleError {
    /// A step calls a task that the configuration does not have.
    TaskNotFound(String),
    /// A step calls a task without some of the arguments that the task asks for.
    MissingArgs { task: String, missing: Vec<String>, provided: Vec<String> },
    /// Tasks call tasks more deeply than there are tasks: some task calls itself.
    TooDeep,
}

/// An [`AssembleError`] as a mathematical value: its strings as sequences of characters,
/// its lists as sequences.
pub enum AssembleErrorView {
    TaskNotFound(Seq<char>),
    MissingArgs { task: Seq<char>, missing: Seq<Seq<char>>, provided: Seq<Seq<char>> },
    TooDeep,
}

impl View for AssembleError {
    type V = AssembleErrorView;

    open spec fn view(&self) -> AssembleErrorView {
        match self {
            AssembleError::TaskNotFound(task) => AssembleErrorView::TaskNotFound(task@),
            AssembleError::MissingArgs { task, missing, provided } => AssembleErrorView::MissingArgs {
                task: task@,
                missing: missing.deep_view(),
                provided: provided.deep_view(),
            },
            AssembleError::TooDeep => AssembleErrorView::TooDeep,
        }
    }
}

impl DeepView for AssembleError {
    type V = AssembleErrorView;

    open spec fn deep_view(&self) -> AssembleErrorView {
        self@
    }
}

/// A step that waits to be expanded, with the arguments that it was called with.
pub struct Entry {
    pub step: StepView,
    pub args: Bindings,
}

/// The commands that a step gives by itself: its own commands with the arguments put
/// in; none for a step that calls a task.
pub open spec fn entry_runs(e: Entry) -> Seq<Seq<char>> {
    match e.step.job {
        ExecView::Run { run } => Seq::new(
            run.items().len(),
            |i: int| substituted(run.items()[i], e.args),
        ),
        ExecView::Task(_) => seq![],
    }
}

/// Those of the wanted arguments that are not among the given ones, in order.
pub open spec fn missing_args(wanted: Seq<Seq<char>>, given: Seq<Seq<char>>) -> Seq<Seq<char>>
    decreases wanted.len(),
{
    if wanted.len() == 0 {
        seq![]
    } else {
        let rest = missing_args(wanted.drop_last(), given);
        if given.contains(wanted.last()) {
            rest
        } else {
            rest.push(wanted.last())
        }
    }
}

/// The steps that a step leads to: none for a step that runs commands; for a call, the
/// steps of the task, each with the arguments of the call. The call fails where the
/// task is unknown or an argument that it asks for is not given.
pub open spec fn entry_children(config: ConfigView, e: Entry) -> Result<Seq<Entry>, AssembleErrorView> {
    match e.step.job {
        ExecView::Run { run } => Ok(seq![]),
        ExecView::Task(call) => {
            if !config.tasks.dom().contains(call.task) {
                Err(AssembleErrorView::TaskNotFound(call.task))
            } else {
                let task = config.tasks[call.task];
                let missing = missing_args(task.args, call.with.keys);
                if missing.len() > 0 {
                    Err(
                        AssembleErrorView::MissingArgs {
                            task: call.task,
                            missing,
                            provided: call.with.keys,
                        },
                    )
                } else {
                    Ok(
                        Seq::new(
                            task.steps.len(),
                            |i: int| Entry { step: task.steps[i], args: call.with },
                        ),
                    )
                }
            }
        },
    }
}

/// The commands that the steps of one level give by themselves, step after step.
pub open spec fn level_runs(level: Seq<Entry>) -> Seq<Seq<char>>
    decreases level.len(),
{
    if level.len() == 0 {
        seq![]
    } else {
        level_runs(level.drop_last()) + entry_runs(level.last())
    }
}

/// The steps that the steps of one level lead to, or the failure of the first call among
/// them that fails.
pub open spec fn level_children(config: ConfigView, level: Seq<Entry>) -> Result<
    Seq<Entry>,
    AssembleErrorView,
>
    decreases level.len(),
{
    if level.len() == 0 {
        Ok(seq![])
    } else {
        match level_children(config, level.drop_last()) {
            Err(e) => Err(e),
            Ok(before) => match entry_children(config, level.last()) {
                Err(e) => Err(e),
                Ok(more) => Ok(before + more),
            },
        }
    }
}

/// The commands of a level of steps and of all that they lead to: first those of the
/// level, then those of the next level, and so on, as far down as `fuel` allows.
pub open spec fn expanded(config: ConfigView, level: Seq<Entry>, fuel: nat) -> Result<
    Seq<Seq<char>>,
    AssembleErrorView,
>
    decreases fuel,
{
    match level_children(config, level) {
        Err(e) => Err(e),
        Ok(next) => if next.len() == 0 {
            Ok(level_runs(level))
        } else if fuel == 0 {
            Err(AssembleErrorView::TooDeep)
        } else {
            following(level_runs(level), expanded(config, next, (fuel - 1) as nat))
        },
    }
}

/// The commands of `rest` behind those in `first`; the failure where `rest` is one.
pub open spec fn following(
    first: Seq<Seq<char>>,
    rest: Result<Seq<Seq<char>>, AssembleErrorView>,
) -> Result<Seq<Seq<char>>, AssembleErrorView> {
    match rest {
        Ok(more) => Ok(first + more),
        Err(e) => Err(e),
    }
}

/// The commands of a step: its own, or those of the task that it calls, level by level.
/// Tasks may call tasks as deeply as there are tasks.
pub open spec fn assembled(config: ConfigView, step: StepView) -> Result<
    Seq<Seq<char>>,
    AssembleErrorView,
> {
    expanded(
        config,
        seq![Entry { step, args: Bindings { keys: seq![], values: seq![] } }],
        config.task_count,
    )
}

/// The step and arguments that wait at one place of a level.
pub open spec fn entry_of(e: (&Step, &Dict<String>)) -> Entry {
    Entry { step: e.0@, args: bindings(e.1) }
}

/// The steps and arguments that wait in a level.
pub open spec fn entries_of(level: Seq<(&Step, &Dict<String>)>) -> Seq<Entry> {
    Seq::new(level.len(), |i: int| entry_of(level[i]))
}

/// A failure among the first steps of a level is the failure of the level.
proof fn lemma_failure_stays(config: ConfigView, level: Seq<Entry>, i: int)
    requires
        0 <= i <= level.len(),
        level_children(config, level.take(i)) is Err,
    ensures
        level_children(config, level) == level_children(config, level.take(i)),
    decreases level.len() - i,
{
    if i < level.len() {
        assert(level.take(i + 1).drop_last() =~= level.take(i));
        lemma_failure_stays(config, level, i + 1);
    } else {
        assert(level.take(i) =~= level);
    }
}

/// Whether a step can be expanded, and leads only to tasks numbered below `bound`: a
/// step that runs commands always; a call where its task is there, is numbered below
/// `bound`, and is given every argument that it asks for.
pub open spec fn step_fits(
    config: ConfigView,
    rank: Map<Seq<char>, nat>,
    step: StepView,
    bound: int,
) -> bool {
    match step.job {
        ExecView::Run { run } => true,
        ExecView::Task(call) => {
            &&& config.tasks.dom().contains(call.task)
            &&& rank.dom().contains(call.task)
            &&& rank[call.task] < bound
            &&& missing_args(config.tasks[call.task].args, call.with.keys).len() == 0
        },
    }
}

/// Whether `rank` numbers the tasks so that every call inside a task goes to a task that
/// is there, is given its arguments, and has a lower number than the task itself. With
/// such a numbering no task leads back to itself; and where none does, numbering each
/// task by the longest chain of calls that starts from it is such a numbering, with every
/// number below the count of the tasks.
pub open spec fn tasks_ranked(config: ConfigView, rank: Map<Seq<char>, nat>) -> bool {
    forall|name: Seq<char>, i: int|
        config.tasks.dom().contains(name) && 0 <= i < config.tasks[name].steps.len()
            ==> rank.dom().contains(name) && #[trigger] step_fits(
            config,
            rank,
            config.tasks[name].steps[i],
            rank[name] as int,
        )
}

/// Whether every step that waits in a level can be expanded and leads only to tasks
/// numbered below `bound`.
pub open spec fn level_fits(
    config: ConfigView,
    rank: Map<Seq<char>, nat>,
    level: Seq<Entry>,
    bound: int,
) -> bool {
    forall|i: int| 0 <= i < level.len() ==> step_fits(config, rank, (#[trigger] level[i]).step, bound)
}

/// The steps that a fitting step leads to fit again, under the next lower bound; there
/// are none once the bound is zero.
proof fn lemma_entry_children_fit(
    config: ConfigView,
    rank: Map<Seq<char>, nat>,
    e: Entry,
    bound: int,
)
    requires
        tasks_ranked(config, rank),
        step_fits(config, rank, e.step, bound),
    ensures
        entry_children(config, e) is Ok,
        level_fits(config, rank, entry_children(config, e)->Ok_0, bound - 1),
        bound <= 0 ==> entry_children(config, e)->Ok_0.len() == 0,
{
    match e.step.job {
        ExecView::Run { run } => {},
        ExecView::Task(call) => {
            let task = config.tasks[call.task];
            let next = entry_children(config, e)->Ok_0;
            assert forall|i: int| 0 <= i < next.len() implies step_fits(
                config,
                rank,
                (#[trigger] next[i]).step,
                bound - 1,
            ) by {
                assert(step_fits(config, rank, task.steps[i], rank[call.task] as int));
            }
        },
    }
}

/// The steps that a fitting level leads to fit again, under the next lower bound; there
/// are none once the bound is zero.
proof fn lemma_level_children_fit(
    config: ConfigView,
    rank: Map<Seq<char>, nat>,
    level: Seq<Entry>,
    bound: int,
)
    requires
        tasks_ranked(config, rank),
        level_fits(config, rank, level, bound),
    ensures
        level_children(config, level) is Ok,
        level_fits(config, rank, level_children(config, level)->Ok_0, bound - 1),
        bound <= 0 ==> level_children(config, level)->Ok_0.len() == 0,
    decreases level.len(),
{
    if level.len() > 0 {
        let front = level.drop_last();
        assert forall|i: int| 0 <= i < front.len() implies step_fits(
            config,
            rank,
            (#[trigger] front[i]).step,
            bound,
        ) by {
            assert(front[i] == level[i]);
        }
        lemma_level_children_fit(config, rank, front, bound);
        assert(step_fits(config, rank, level[level.len() - 1].step, bound));
        lemma_entry_children_fit(config, rank, level.last(), bound);
        let before = level_children(config, front)->Ok_0;
        let more = entry_children(config, level.last())->Ok_0;
        let next = before + more;
        assert forall|i: int| 0 <= i < next.len() implies step_fits(
            config,
            rank,
            (#[trigger] next[i]).step,
            bound - 1,
        ) by {
            if i < before.len() {
                assert(next[i] == before[i]);
            } else {
                assert(next[i] == more[i - before.len()]);
            }
        }
    }
}

/// A fitting level expands without failure where the fuel reaches as far as the bound.
proof fn lemma_level_expands(
    config: ConfigView,
    rank: Map<Seq<char>, nat>,
    level: Seq<Entry>,
    bound: int,
    fuel: nat,
)
    requires
        tasks_ranked(config, rank),
        level_fits(config, rank, level, bound),
        bound <= fuel,
    ensures
        expanded(config, level, fuel) is Ok,
    decreases fuel,
{
    lemma_level_children_fit(config, rank, level, bound);
    let next = level_children(config, level)->Ok_0;
    if next.len() > 0 {
        assert(bound > 0);
        lemma_level_expands(config, rank, next, bound - 1, (fuel - 1) as nat);
    }
}

/// A step can be put together where every task that it can reach is there and is given
/// its arguments, and no task leads back to itself.
///
/// That no task leads back to itself is stated by a numbering: `rank` gives each task a
/// number below the count of the tasks, and every call inside a task goes to a task with
/// a lower number.
pub proof fn lemma_sound_step_assembles(
    config: ConfigView,
    step: StepView,
    rank: Map<Seq<char>, nat>,
)
    requires
        tasks_ranked(config, rank),
        step_fits(config, rank, step, config.task_count as int),
    ensures
        assembled(config, step) is Ok,
{
    let level = seq![Entry { step, args: Bindings { keys: seq![], values: seq![] } }];
    assert forall|i: int| 0 <= i < level.len() implies step_fits(
        config,
        rank,
        (#[trigger] level[i]).step,
        config.task_count as int,
    ) by {}
    lemma_level_expands(config, rank, level, config.task_count as int, config.task_count);
}

/// Those of the wanted arguments that the call does not give.
fn missing_of(wanted: &Vec<String>, given: &Dict<String>) -> (r: Vec<String>)
    ensures
        r.deep_view() == missing_args(wanted.deep_view(), given.keys()),
{
    let mut r: Vec<String> = Vec::new();
    let mut i: usize = 0;
    assert(wanted.deep_view().take(0) =~= Seq::<Seq<char>>::empty());
    assert(r.deep_view() =~= Seq::<Seq<char>>::empty());
    while i < wanted.len()
        invariant
            i <= wanted.len(),
            r.deep_view() == missing_args(wanted.deep_view().take(i as int), given.keys()),
        decreases wanted.len() - i,
    {
        proof {
            assert(wanted.deep_view().take(i + 1).drop_last() =~= wanted.deep_view().take(i as int));
            assert(wanted.deep_view().take(i + 1).last() == wanted[i as int]@);
        }
        if !given.contains_key(wanted[i].as_str()) {
            let ghost before = r.deep_view();
            r.push(wanted[i].clone());
            assert(r.deep_view() =~= before.push(wanted[i as int]@));
        }
        i += 1;
    }
    assert(wanted.deep_view().take(wanted.len() as int) =~= wanted.deep_view());
    r
}

impl Step {
    /// The commands of a step that can be put together, ready to run: the step's own
    /// commands, or those of the task that it calls, with the arguments of the call put
    /// in. A task's steps may call tasks in turn; the commands come level by level, those
    /// of the nearer calls first.
    ///
    /// A step that cannot be put together is not taken: one that leads to a task that is
    /// not there, to a call without an argument that its task asks for, or to a task that
    /// leads back to itself. `try_assemble` takes every step and says which of these holds.
    pub fn assemble(config: &Config, step: &Step) -> (r: Vec<String>)
        requires
            assembled(config@, step@) is Ok,
        ensures
            r.deep_view() == assembled(config@, step@)->Ok_0,
    {
        match Step::try_assemble(config, step) {
            Ok(cmds) => cmds,
            Err(_) => {
                assert(false);
                Vec::new()
            },
        }
    }

    /// The commands of a step, ready to run, or why they cannot be put together.
    ///
    /// The step fails where a call names a task that is not there, where a call lacks an
    /// argument that its task asks for, or where calls are nested more deeply than there
    /// are tasks, which only a task that leads back to itself can bring about. Of several
    /// failures the first counts, level by level and within a level step by step.
    pub fn try_assemble(config: &Config, step: &Step) -> (r: Result<Vec<String>, AssembleError>)
        ensures
            match r {
                Ok(cmds) => assembled(config@, step@) == Ok::<Seq<Seq<char>>, AssembleErrorView>(
                    cmds.deep_view(),
                ),
                Err(e) => assembled(config@, step@) == Err::<Seq<Seq<char>>, AssembleErrorView>(e@),
            },
    {
        let none: Dict<String> = Dict::new();
        let mut level: Vec<(&Step, &Dict<String>)> = Vec::new();
        level.push((step, &none));
        let mut out: Vec<String> = Vec::new();
        let mut fuel: usize = config.tasks.len();
        proof {
            assert(bindings(&none).keys =~= Seq::<Seq<char>>::empty());
            assert(bindings(&none).values =~= Seq::<Seq<char>>::empty());
            assert(entries_of(level@) =~= seq![
                Entry { step: step@, args: Bindings { keys: seq![], values: seq![] } },
            ]);
            assert(out.deep_view() =~= Seq::<Seq<char>>::empty());
            let first = expanded(config@, entries_of(level@), fuel as nat);
            match first {
                Ok(more) => {
                    assert(out.deep_view() + more =~= more);
                },
                Err(_) => {},
            }
        }
        loop
            invariant
                following(out.deep_view(), expanded(config@, entries_of(level@), fuel as nat))
                    == assembled(config@, step@),
            decreases fuel,
        {
            let ghost out0 = out.deep_view();
            let ghost entries = entries_of(level@);
            let mut next: Vec<(&Step, &Dict<String>)> = Vec::new();
            let mut i: usize = 0;
            proof {
                assert(entries.take(0) =~= Seq::<Entry>::empty());
                assert(entries_of(next@) =~= Seq::<Entry>::empty());
                assert(out0 + level_runs(entries.take(0)) =~= out0);
            }
            while i < level.len()
                invariant
                    i <= level.len(),
                    entries == entries_of(level@),
                    following(out0, expanded(config@, entries, fuel as nat)) == assembled(
                        config@,
                        step@,
                    ),
                    out.deep_view() == out0 + level_runs(entries.take(i as int)),
                    level_children(config@, entries.take(i as int)) == Ok::<
                        Seq<Entry>,
                        AssembleErrorView,
                    >(entries_of(next@)),
                decreases level.len() - i,
            {
                let s: &Step = level[i].0;
                let args: &Dict<String> = level[i].1;
                let ghost e = entry_of(level[i as int]);
                proof {
                    assert(entries.take(i + 1).drop_last() =~= entries.take(i as int));
                    assert(entries.take(i + 1).last() == e);
                }
                match &s.job {
                    Exec::Run { run } => {
                        let list = run.to_vec();
                        let ghost got = out.deep_view();
                        let mut k: usize = 0;
                        while k < list.len()
                            invariant
                                k <= list.len(),
                                list.deep_view() == run@.items(),
                                e == entry_of((s, args)),
                                s.job == (Exec::Run { run: *run }),
                                out.len() == got.len() + k,
                                forall|j: int| 0 <= j < got.len() ==> out[j]@ == got[j],
                                forall|j: int|
                                    0 <= j < k ==> out[got.len() + j]@ == entry_runs(e)[j],
                            decreases list.len() - k,
                        {
                            assert(list.deep_view()[k as int] == list[k as int]@);
                            out.push(substitute_args(list[k].as_str(), args));
                            k += 1;
                        }
                        proof {
                            assert(out.deep_view() =~= got + entry_runs(e));
                            assert(entries_of(next@) + Seq::<Entry>::empty() =~= entries_of(next@));
                        }
                    },
                    Exec::Task(call) => {
                        match config.tasks.get(call.task.as_str()) {
                            None => {
                                proof {
                                    lemma_failure_stays(config@, entries, i + 1);
                                }
                                return Err(AssembleError::TaskNotFound(call.task.clone()));
                            },
                            Some(task) => {
                                let missing = missing_of(&task.args, &call.with);
                                if missing.len() > 0 {
                                    proof {
                                        lemma_failure_stays(config@, entries, i + 1);
                                    }
                                    return Err(
                                        AssembleError::MissingArgs {
                                            task: call.task.clone(),
                                            missing,
                                            provided: call.with.key_list(),
                                        },
                                    );
                                }
                                let ghost had = entries_of(next@);
                                let ghost more = entry_children(config@, e)->Ok_0;
                                let mut k: usize = 0;
                                while k < task.steps.len()
                                    invariant
                                        k <= task.steps.len(),
                                        more.len() == task.steps.len(),
                                        forall|j: int|
                                            0 <= j < more.len() ==> more[j] == (Entry {
                                                step: task.steps[j]@,
                                                args: bindings(&call.with),
                                            }),
                                        next.len() == had.len() + k,
                                        forall|j: int|
                                            0 <= j < had.len() ==> entry_of(next[j]) == had[j],
                                        forall|j: int|
                                            0 <= j < k ==> entry_of(next[had.len() + j]) == more[j],
                                    decreases task.steps.len() - k,
                                {
                                    next.push((&task.steps[k], &call.with));
                                    k += 1;
                                }
                                proof {
                                    assert(entries_of(next@) =~= had + more);
                                    assert(out.deep_view() + entry_runs(e) =~= out.deep_view());
                                }
                            },
                        }
                    },
                }
                i += 1;
            }
            proof {
                assert(entries.take(level.len() as int) =~= entries);
            }
            if next.len() == 0 {
                return Ok(out);
            }
            if fuel == 0 {
                return Err(AssembleError::TooDeep);
            }
            proof {
                let rest = expanded(config@, entries_of(next@), (fuel - 1) as nat);
                match rest {
                    Ok(more) => {
                        assert(out0 + (level_runs(entries) + more) =~= out.deep_view() + more);
                    },
                    Err(_) => {},
                }
            }
            fuel = fuel - 1;
            level = next;
        }
    }
}

/// What is said of an error.
pub open spec fn message_text(e: AssembleErrorView) -> Seq<char> {
    match e {
        AssembleErrorView::TaskNotFound(_) => "task not found"@,
        AssembleErrorView::MissingArgs { task, missing, provided } => "task '"@ + task
            + "' requires arguments: "@ + joined(missing, ", "@) + ", but only provided: "@
            + joined(provided, ", "@),
        AssembleErrorView::TooDeep => "a task leads back to itself"@,
    }
}

impl AssembleError {
    /// What is said of the error: that a task was not found; which arguments a task asks
    /// for and which the call gives; that a task leads back to itself.
    pub fn message(&self) -> (r: String)
        ensures
            r@ == message_text(self@),
    {
        match self {
            AssembleError::TaskNotFound(_) => "task not found".to_owned(),
            AssembleError::MissingArgs { task, missing, provided } => {
                let wanted = crate::text::join(missing, ", ");
                let given = crate::text::join(provided, ", ");
                let mut r = "task '".to_owned();
                r.append(task.as_str());
                r.append("' requires arguments: ");
                r.append(wanted.as_str());
                r.append(", but only provided: ");
                r.append(given.as_str());
                r
            },
            AssembleError::TooDeep => "a task leads back to itself".to_owned(),
        }
    }

    /// A copy of the error.
    pub fn copy(&self) -> (r: Self)
        ensures
            r@ == self@,
    {
        match self {
            AssembleError::TaskNotFound(task) => AssembleError::TaskNotFound(task.clone()),
            AssembleError::MissingArgs { task, missing, provided } => AssembleError::MissingArgs {
                task: task.clone(),
                missing: crate::text::copy_all(missing),
                provided: crate::text::copy_all(provided),
            },
            AssembleError::TooDeep => AssembleError::TooDeep,
        }
    }
}

/// The child processes of a list of steps, as far as they could be put together.
#[derive(Debug, Clone, PartialEq)]
pub struct PhasePlan {
    /// The child processes to run, in order.
    pub invocations: Vec<Invocation>,
    /// Why the list ends early: the failure of the first step that could not be put
    /// together. It comes to light only once the processes before it have run.
    pub failure: Option<AssembleError>,
}

/// A [`PhasePlan`] as a mathematical value: its strings as sequences of characters,
/// its lists as sequences.
pub struct PhasePlanView {
    pub invocations: Seq<InvocationView>,
    pub failure: Option<AssembleErrorView>,
}

impl View for PhasePlan {
    type V = PhasePlanView;

    open spec fn view(&self) -> PhasePlanView {
        PhasePlanView {
            invocations: self.invocations.deep_view(),
            failure: self.failure.deep_view(),
        }
    }
}

/// The directory in which a step runs: the base directory, or the step's own directory
/// adjoined to it and cleaned.
pub open spec fn step_dir(base: Seq<char>, cwd: Option<Seq<char>>) -> Seq<char> {
    match cwd {
        Some(dir) => path_cleaned(path_join(base, dir)),
        None => base,
    }
}

/// The dependencies of a step as the shell is told them: none where the list is empty.
pub open spec fn step_deps(deps: Seq<Seq<char>>) -> Option<Seq<Seq<char>>> {
    if deps.len() == 0 {
        None
    } else {
        Some(deps)
    }
}

/// One child process for each command: the command alone, run in `dir` with the
/// streams of the parent.
pub open spec fn command_invocations(
    cmds: Seq<Seq<char>>,
    dir: Seq<char>,
    deps: Option<Seq<Seq<char>>>,
    name: Seq<char>,
    base: Seq<char>,
) -> Seq<InvocationView> {
    Seq::new(cmds.len(), |i: int| shell_invocation(dir, deps, seq![cmds[i]], true, name, base))
}

/// The child processes of the steps, step after step, up to the first step that cannot
/// be put together.
pub open spec fn steps_plan(
    config: ConfigView,
    steps: Seq<StepView>,
    base: Seq<char>,
    name: Seq<char>,
) -> PhasePlanView
    decreases steps.len(),
{
    if steps.len() == 0 {
        PhasePlanView { invocations: seq![], failure: None }
    } else {
        let before = steps_plan(config, steps.drop_last(), base, name);
        let step = steps.last();
        if before.failure is Some {
            before
        } else {
            match assembled(config, step) {
                Err(e) => PhasePlanView { invocations: before.invocations, failure: Some(e) },
                Ok(cmds) => PhasePlanView {
                    invocations: before.invocations + command_invocations(
                        cmds,
                        step_dir(base, step.cwd),
                        step_deps(step.deps),
                        name,
                        base,
                    ),
                    failure: None,
                },
            }
        }
    }
}

/// Once a step has failed, the steps after it add nothing.
proof fn lemma_plan_stops(
    config: ConfigView,
    steps: Seq<StepView>,
    base: Seq<char>,
    name: Seq<char>,
    i: int,
)
    requires
        0 <= i <= steps.len(),
        steps_plan(config, steps.take(i), base, name).failure is Some,
    ensures
        steps_plan(config, steps, base, name) == steps_plan(config, steps.take(i), base, name),
    decreases steps.len() - i,
{
    if i < steps.len() {
        assert(steps.take(i + 1).drop_last() =~= steps.take(i));
        lemma_plan_stops(config, steps, base, name, i + 1);
    } else {
        assert(steps.take(i) =~= steps);
    }
}

/// The child processes of the steps, run for the project `name` with the base directory
/// `base`: for each step in turn, one process for each of its commands, in the step's
/// directory and with the step's dependencies. The list ends at the first step that
/// cannot be put together, and the plan says why.
pub fn plan_steps(config: &Config, steps: &Vec<Step>, base: &str, name: &str) -> (r: PhasePlan)
    ensures
        r@ == steps_plan(config@, steps.deep_view(), base@, name@),
{
    let mut invocations: Vec<Invocation> = Vec::new();
    let ghost all = steps.deep_view();
    let mut i: usize = 0;
    proof {
        assert(all.take(0) =~= Seq::<StepView>::empty());
        assert(invocations.deep_view() =~= Seq::<InvocationView>::empty());
    }
    while i < steps.len()
        invariant
            i <= steps.len(),
            all == steps.deep_view(),
            steps_plan(config@, all.take(i as int), base@, name@) == (PhasePlanView {
                invocations: invocations.deep_view(),
                failure: None,
            }),
        decreases steps.len() - i,
    {
        let step = &steps[i];
        proof {
            assert(all.take(i + 1).drop_last() =~= all.take(i as int));
            assert(all.take(i + 1).last() == step@);
        }
        let dir = match &step.cwd {
            Some(cwd) => crate::paths::join_clean(base, cwd.as_str()),
            None => base.to_owned(),
        };
        match Step::try_assemble(config, step) {
            Err(e) => {
                proof {
                    lemma_plan_stops(config@, all, base@, name@, i + 1);
                }
                return PhasePlan { invocations, failure: Some(e) };
            },
            Ok(cmds) => {
                let deps = if step.deps.len() == 0 {
                    None
                } else {
                    Some(&step.deps)
                };
                let ghost had = invocations.deep_view();
                let ghost more = command_invocations(
                    cmds.deep_view(),
                    dir@,
                    step_deps(step@.deps),
                    name@,
                    base@,
                );
                let mut k: usize = 0;
                while k < cmds.len()
                    invariant
                        k <= cmds.len(),
                        deps.deep_view() == step_deps(step@.deps),
                        more == command_invocations(
                            cmds.deep_view(),
                            dir@,
                            step_deps(step@.deps),
                            name@,
                            base@,
                        ),
                        invocations.len() == had.len() + k,
                        forall|j: int| 0 <= j < had.len() ==> invocations[j]@ == had[j],
                        forall|j: int| 0 <= j < k ==> invocations[had.len() + j]@ == more[j],
                    decreases cmds.len() - k,
                {
                    let mut one: Vec<String> = Vec::new();
                    one.push(cmds[k].clone());
                    assert(one.deep_view() =~= seq![cmds.deep_view()[k as int]]);
                    invocations.push(
                        crate::nix_shell(dir.as_str(), deps, &one, true, name, base),
                    );
                    k += 1;
                }
                assert(invocations.deep_view() =~= had + more);
            },
        }
        i += 1;
    }
    proof {
        assert(all.take(steps.len() as int) =~= all);
    }
    PhasePlan { invocations, failure: None }
}

impl Phase {
    /// The child processes that run the phase for `project`, known as `project_name`.
    pub fn plan(&self, config: &Config, project: &Project, project_name: &str) -> (r: PhasePlan)
        ensures
            r@ == steps_plan(config@, self@.steps, project@.dir, project_name@),
    {
        plan_steps(config, &self.steps, project.dir.as_str(), project_name)
    }
}

} // verus!
