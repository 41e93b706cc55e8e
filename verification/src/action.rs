//! Actions: the single side effects that a plan is made of, each with the phase it
//! belongs to and a status that the executor sets.

use crate::project::{Cmds, CmdsView};
use crate::text::joined;
use crate::{Invocation, InvocationView, Stdio};
use vstd::prelude::*;

verus! {

/// How a project differs from the last state that was applied.
#[derive(Debug, Clone, Copy, PartialEq, Eq, Hash, Structural)]
pub enum ConfigChange {
    Added,
    Changed,
    Removed,
}

impl ConfigChange {
    /// The phases that a change asks for, in the order in which they run.
    pub open spec fn phases(self) -> Seq<Phase> {
        match self {
            ConfigChange::Added => seq![Phase::Setup, Phase::Build, Phase::Start],
            ConfigChange::Changed => seq![Phase::Teardown, Phase::Setup, Phase::Build, Phase::Start],
            ConfigChange::Removed => seq![Phase::Stop, Phase::Teardown],
        }
    }

    /// The phases that the change asks for.
    pub fn to_phases(self) -> (r: Vec<Phase>)
        ensures
            r@ == self.phases(),
    {
        let mut r: Vec<Phase> = Vec::new();
        match self {
            ConfigChange::Added => {
                r.push(Phase::Setup);
                r.push(Phase::Build);
                r.push(Phase::Start);
            },
            ConfigChange::Changed => {
                r.push(Phase::Teardown);
                r.push(Phase::Setup);
                r.push(Phase::Build);
                r.push(Phase::Start);
            },
            ConfigChange::Removed => {
                r.push(Phase::Stop);
                r.push(Phase::Teardown);
            },
        }
        assert(r@ =~= self.phases());
        r
    }
}

/// A stage of a project's life. The order of the variants is the order in which the
/// stages run, over all projects.
#[derive(Debug, Clone, Copy, PartialEq, Eq, PartialOrd, Ord, Hash, Structural)]
pub enum Phase {
    Teardown,
    Setup,
    Update,
    Build,
    Start,
    Stop,
}

impl Phase {
    /// The place of the phase in the fixed order, from 0.
    pub open spec fn rank(self) -> int {
        match self {
            Phase::Teardown => 0,
            Phase::Setup => 1,
            Phase::Update => 2,
            Phase::Build => 3,
            Phase::Start => 4,
            Phase::Stop => 5,
        }
    }

    /// The place of the phase in the fixed order, from 0.
    pub fn ordinal(self) -> (r: u8)
        ensures
            r == self.rank(),
    {
        match self {
            Phase::Teardown => 0,
            Phase::Setup => 1,
            Phase::Update => 2,
            Phase::Build => 3,
            Phase::Start => 4,
            Phase::Stop => 5,
        }
    }

    /// The six phases in their fixed order.
    pub fn all() -> (r: [Phase; 6])
        ensures
            forall|i: int| 0 <= i < 6 ==> (#[trigger] r[i]).rank() == i,
    {
        [Phase::Teardown, Phase::Setup, Phase::Update, Phase::Build, Phase::Start, Phase::Stop]
    }
}

/// What became of an action.
#[derive(Debug, Clone, PartialEq)]
pub enum ActionStatus {
    Todo,
    Done,
    Fail(String),
    Cancelled,
}

/// An [`ActionStatus`] as a mathematical value: its strings as sequences of characters,
/// its lists as sequences.
pub enum ActionStatusView {
    Todo,
    Done,
    Fail(Seq<char>),
    Cancelled,
}

impl View for ActionStatus {
    type V = ActionStatusView;

    open spec fn view(&self) -> ActionStatusView {
        match self {
            ActionStatus::Todo => ActionStatusView::Todo,
            ActionStatus::Done => ActionStatusView::Done,
            ActionStatus::Fail(reason) => ActionStatusView::Fail(reason@),
            ActionStatus::Cancelled => ActionStatusView::Cancelled,
        }
    }
}

/// A command to run as a child process.
#[derive(Debug, Clone, PartialEq)]
pub enum ActionKindCommand {
    /// Clone the repository at a URL into a path.
    GitClone(String, String),
    /// Run commands in a directory, inside a dependency shell that offers the given
    /// dependencies.
    NixShell(String, Vec<String>, Cmds),
    /// Unpack the archive at the first path into the second.
    Unzip(String, String),
}

/// An [`ActionKindCommand`] as a mathematical value: its strings as sequences of characters,
/// its lists as sequences.
pub enum ActionKindCommandView {
    GitClone(Seq<char>, Seq<char>),
    NixShell(Seq<char>, Seq<Seq<char>>, CmdsView),
    Unzip(Seq<char>, Seq<char>),
}

impl View for ActionKindCommand {
    type V = ActionKindCommandView;

    open spec fn view(&self) -> ActionKindCommandView {
        match self {
            ActionKindCommand::GitClone(url, path) => ActionKindCommandView::GitClone(url@, path@),
            ActionKindCommand::NixShell(path, deps, cmds) => ActionKindCommandView::NixShell(
                path@,
                deps.deep_view(),
                cmds@,
            ),
            ActionKindCommand::Unzip(from, to) => ActionKindCommandView::Unzip(from@, to@),
        }
    }
}

impl ActionKindCommandView {
    /// The child process that carries the command out, with `shell` as the dependency
    /// shell's executable.
    pub open spec fn invocation(self, shell: Seq<char>, piped: bool) -> InvocationView {
        let stdio = if piped {
            Stdio::Piped
        } else {
            Stdio::Default
        };
        match self {
            ActionKindCommandView::GitClone(url, path) => InvocationView {
                program: "git"@,
                args: seq!["clone"@, url, path],
                cwd: None,
                stdio,
            },
            ActionKindCommandView::NixShell(path, deps, cmds) => InvocationView {
                program: shell,
                args: seq!["-p"@] + deps + seq!["--run"@, joined(cmds.items(), "&&"@)],
                cwd: Some(path),
                stdio,
            },
            ActionKindCommandView::Unzip(from, to) => InvocationView {
                program: shell,
                args: seq!["-p"@, "unzip"@, "--run"@, "unzip -o "@ + from + " -d "@ + to],
                cwd: None,
                stdio,
            },
        }
    }
}

impl ActionKindCommand {
    /// The child process that carries the command out: what to spawn, with which
    /// arguments and where. `shell` is the dependency shell's executable; with `piped`
    /// the child's output is captured.
    pub fn invocation(&self, shell: &str, piped: bool) -> (r: Invocation)
        ensures
            r@ == self@.invocation(shell@, piped),
    {
        let stdio = if piped {
            Stdio::Piped
        } else {
            Stdio::Default
        };
        match self {
            ActionKindCommand::GitClone(url, path) => {
                let mut args: Vec<String> = Vec::new();
                args.push("clone".to_owned());
                args.push(url.clone());
                args.push(path.clone());
                assert(args.deep_view() =~= seq!["clone"@, url@, path@]);
                Invocation { program: "git".to_owned(), args, cwd: None, stdio }
            },
            ActionKindCommand::NixShell(path, deps, cmds) => {
                let mut args: Vec<String> = Vec::new();
                args.push("-p".to_owned());
                assert(args.deep_view() =~= seq!["-p"@]);
                crate::text::extend(&mut args, deps);
                let list = cmds.to_vec();
                let script = crate::text::join(&list, "&&");
                args.push("--run".to_owned());
                args.push(script);
                assert(args.deep_view() =~= seq!["-p"@] + deps.deep_view() + seq![
                    "--run"@,
                    joined(cmds@.items(), "&&"@),
                ]);
                Invocation { program: shell.to_owned(), args, cwd: Some(path.clone()), stdio }
            },
            ActionKindCommand::Unzip(from, to) => {
                let mut script = "unzip -o ".to_owned();
                script.append(from.as_str());
                script.append(" -d ");
                script.append(to.as_str());
                let mut args: Vec<String> = Vec::new();
                args.push("-p".to_owned());
                args.push("unzip".to_owned());
                args.push("--run".to_owned());
                args.push(script);
                assert(args.deep_view() =~= seq![
                    "-p"@,
                    "unzip"@,
                    "--run"@,
                    "unzip -o "@ + from@ + " -d "@ + to@,
                ]);
                Invocation { program: shell.to_owned(), args, cwd: None, stdio }
            },
        }
    }
}

/// A change to the file system.
#[derive(Debug, Clone, PartialEq)]
pub enum ActionKindFilesystem {
    /// Create a directory and its parents.
    CreateDirAll(String),
    /// Copy the file at the first path to the second.
    Copy(String, String),
    /// Write the content to the file at the path.
    Write(String, String),
}

/// An [`ActionKindFilesystem`] as a mathematical value: its strings as sequences of characters,
/// its lists as sequences.
pub enum ActionKindFilesystemView {
    CreateDirAll(Seq<char>),
    Copy(Seq<char>, Seq<char>),
    Write(Seq<char>, Seq<char>),
}

impl View for ActionKindFilesystem {
    type V = ActionKindFilesystemView;

    open spec fn view(&self) -> ActionKindFilesystemView {
        match self {
            ActionKindFilesystem::CreateDirAll(path) => ActionKindFilesystemView::CreateDirAll(path@),
            ActionKindFilesystem::Copy(from, to) => ActionKindFilesystemView::Copy(from@, to@),
            ActionKindFilesystem::Write(path, content) => ActionKindFilesystemView::Write(
                path@,
                content@,
            ),
        }
    }
}

/// A request to the service manager about one unit.
#[derive(Debug, Clone, PartialEq)]
pub enum ActionKindSystemCtl {
    Restart(String),
    Start(String),
    Stop(String),
    Enable(String),
    Disable(String),
}

/// An [`ActionKindSystemCtl`] as a mathematical value: its strings as sequences of characters,
/// its lists as sequences.
pub enum ActionKindSystemCtlView {
    Restart(Seq<char>),
    Start(Seq<char>),
    Stop(Seq<char>),
    Enable(Seq<char>),
    Disable(Seq<char>),
}

impl View for ActionKindSystemCtl {
    type V = ActionKindSystemCtlView;

    open spec fn view(&self) -> ActionKindSystemCtlView {
        match self {
            ActionKindSystemCtl::Restart(unit) => ActionKindSystemCtlView::Restart(unit@),
            ActionKindSystemCtl::Start(unit) => ActionKindSystemCtlView::Start(unit@),
            ActionKindSystemCtl::Stop(unit) => ActionKindSystemCtlView::Stop(unit@),
            ActionKindSystemCtl::Enable(unit) => ActionKindSystemCtlView::Enable(unit@),
            ActionKindSystemCtl::Disable(unit) => ActionKindSystemCtlView::Disable(unit@),
        }
    }
}

impl ActionKindSystemCtlView {
    /// The unit that the request is about.
    pub open spec fn unit(self) -> Seq<char> {
        match self {
            ActionKindSystemCtlView::Restart(unit) => unit,
            ActionKindSystemCtlView::Start(unit) => unit,
            ActionKindSystemCtlView::Stop(unit) => unit,
            ActionKindSystemCtlView::Enable(unit) => unit,
            ActionKindSystemCtlView::Disable(unit) => unit,
        }
    }
}

impl ActionKindSystemCtl {
    /// The unit that the request is about.
    pub fn unit(&self) -> (r: &String)
        ensures
            r@ == self@.unit(),
    {
        match self {
            ActionKindSystemCtl::Restart(unit) => unit,
            ActionKindSystemCtl::Start(unit) => unit,
            ActionKindSystemCtl::Stop(unit) => unit,
            ActionKindSystemCtl::Enable(unit) => unit,
            ActionKindSystemCtl::Disable(unit) => unit,
        }
    }
}

/// What an action does.
#[derive(Debug, Clone, PartialEq)]
pub enum ActionKind {
    Command(ActionKindCommand),
    Filesystem(ActionKindFilesystem),
    SystemCtl(ActionKindSystemCtl),
}

/// An [`ActionKind`] as a mathematical value: its strings as sequences of characters,
/// its lists as sequences.
pub enum ActionKindView {
    Command(ActionKindCommandView),
    Filesystem(ActionKindFilesystemView),
    SystemCtl(ActionKindSystemCtlView),
}

impl View for ActionKind {
    type V = ActionKindView;

    open spec fn view(&self) -> ActionKindView {
        match self {
            ActionKind::Command(c) => ActionKindView::Command(c@),
            ActionKind::Filesystem(f) => ActionKindView::Filesystem(f@),
            ActionKind::SystemCtl(s) => ActionKindView::SystemCtl(s@),
        }
    }
}

/// One side effect that belongs to a project and a phase.
#[derive(Debug, Clone, PartialEq)]
pub struct Action {
    pub project_name: String,
    pub phase: Phase,
    pub kind: ActionKind,
    pub status: ActionStatus,
}

/// An [`Action`] as a mathematical value: its strings as sequences of characters,
/// its lists as sequences.
pub struct ActionView {
    pub project_name: Seq<char>,
    pub phase: Phase,
    pub kind: ActionKindView,
    pub status: ActionStatusView,
}

impl View for Action {
    type V = ActionView;

    open spec fn view(&self) -> ActionView {
        ActionView {
            project_name: self.project_name@,
            phase: self.phase,
            kind: self.kind@,
            status: self.status@,
        }
    }
}

impl DeepView for Action {
    type V = ActionView;

    open spec fn deep_view(&self) -> ActionView {
        self@
    }
}

impl ActionView {
    /// The same action with another status.
    pub open spec fn with_status(self, status: ActionStatusView) -> ActionView {
        ActionView { status, ..self }
    }
}

impl Action {
    /// A new action, still to do.
    pub fn new(project_name: &str, phase: Phase, kind: ActionKind) -> (a: Self)
        ensures
            a@ == (ActionView {
                project_name: project_name@,
                phase,
                kind: kind@,
                status: ActionStatusView::Todo,
            }),
    {
        Action { project_name: project_name.to_owned(), phase, kind, status: ActionStatus::Todo }
    }

    /// Sets the status back to `Todo`.
    pub fn mark_todo(&mut self)
        ensures
            final(self)@ == old(self)@.with_status(ActionStatusView::Todo),
    {
        self.status = ActionStatus::Todo;
    }

    /// Records that the action was carried out.
    pub fn mark_done(&mut self)
        ensures
            final(self)@ == old(self)@.with_status(ActionStatusView::Done),
    {
        self.status = ActionStatus::Done;
    }

    /// Records that the action failed, and why.
    pub fn mark_failed(&mut self, reason: String)
        ensures
            final(self)@ == old(self)@.with_status(ActionStatusView::Fail(reason@)),
    {
        self.status = ActionStatus::Fail(reason);
    }

    /// Records that the action was not tried, because its project had failed.
    pub fn mark_cancelled(&mut self)
        ensures
            final(self)@ == old(self)@.with_status(ActionStatusView::Cancelled),
    {
        self.status = ActionStatus::Cancelled;
    }
}

} // verus!
