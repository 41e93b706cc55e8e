//! The project model: what is declared of one project, and what follows from it.

use crate::action::{
    Action, ActionKind, ActionKindCommand, ActionKindCommandView, ActionKindFilesystem,
    ActionKindFilesystemView, ActionKindView, ActionStatusView, ActionView, Phase,
};
use crate::dict::{Alike, Dict};
use crate::paths::path_join;
use crate::{shell_invocation, Invocation, InvocationView};
use vstd::prelude::*;
use vstd::string::StringExecFns;

verus! {

/// The commands of one phase: none, one, or a list.
#[derive(Debug, Clone, PartialEq)]
pub enum Cmds {
    Empty,
    Single(String),
    Many(Vec<String>),
}

/// A [`Cmds`] as a mathematical value: its strings as sequences of characters,
/// its lists as sequences.
pub enum CmdsView {
    Empty,
    Single(Seq<char>),
    Many(Seq<Seq<char>>),
}

impl CmdsView {
    /// The commands, in order.
    pub open spec fn items(self) -> Seq<Seq<char>> {
        match self {
            CmdsView::Empty => Seq::empty(),
            CmdsView::Single(cmd) => seq![cmd],
            CmdsView::Many(cmds) => cmds,
        }
    }
}

impl View for Cmds {
    type V = CmdsView;

    open spec fn view(&self) -> CmdsView {
        match self {
            Cmds::Empty => CmdsView::Empty,
            Cmds::Single(cmd) => CmdsView::Single(cmd@),
            Cmds::Many(cmds) => CmdsView::Many(cmds.deep_view()),
        }
    }
}

impl DeepView for Cmds {
    type V = CmdsView;

    open spec fn deep_view(&self) -> CmdsView {
        self@
    }
}

impl Default for Cmds {
    fn default() -> (c: Self)
        ensures
            c@ == CmdsView::Empty,
    {
        Cmds::Empty
    }
}

impl Alike for Cmds {
    fn alike(&self, other: &Self) -> (r: bool) {
        match (self, other) {
            (Cmds::Empty, Cmds::Empty) => true,
            (Cmds::Single(a), Cmds::Single(b)) => a.alike(b),
            (Cmds::Many(a), Cmds::Many(b)) => a.alike(b),
            _ => false,
        }
    }

    fn copy(&self) -> (r: Self) {
        match self {
            Cmds::Empty => Cmds::Empty,
            Cmds::Single(cmd) => Cmds::Single(cmd.clone()),
            Cmds::Many(cmds) => Cmds::Many(crate::text::copy_all(cmds)),
        }
    }
}

impl Cmds {
    /// A list of commands.
    pub fn new(cmds: Vec<String>) -> (c: Self)
        ensures
            c@ == CmdsView::Many(cmds.deep_view()),
    {
        Cmds::Many(cmds)
    }

    /// A single command.
    pub fn new_single(cmd: String) -> (c: Self)
        ensures
            c@ == CmdsView::Single(cmd@),
    {
        Cmds::Single(cmd)
    }

    /// The commands as a list.
    pub fn to_vec(&self) -> (r: Vec<String>)
        ensures
            r.deep_view() == self@.items(),
    {
        match self {
            Cmds::Empty => {
                let r: Vec<String> = Vec::new();
                assert(r.deep_view() =~= self@.items());
                r
            },
            Cmds::Single(single) => {
                let mut r: Vec<String> = Vec::new();
                r.push(single.clone());
                assert(r.deep_view() =~= self@.items());
                r
            },
            Cmds::Many(items) => crate::text::copy_all(items),
        }
    }

    /// The commands as a list, or `None` where none were written.
    pub fn to_option(&self) -> (r: Option<Vec<String>>)
        ensures
            r is None <==> self@ is Empty,
            r is Some ==> r->0.deep_view() == self@.items(),
    {
        match self {
            Cmds::Empty => None,
            _ => Some(self.to_vec()),
        }
    }
}

/// The commands of a project, phase by phase.
#[derive(Debug, Clone, PartialEq)]
pub struct Phases {
    /// Runs once, after the source and the dependencies are in place.
    pub setup: Cmds,
    /// Runs on an update.
    pub update: Cmds,
    /// Runs after an update.
    pub build: Cmds,
    /// Starts the project.
    pub start: Cmds,
    /// Stops the project.
    pub stop: Cmds,
    /// Runs on removal.
    pub teardown: Cmds,
}

/// A [`Phases`] as a mathematical value: its strings as sequences of characters,
/// its lists as sequences.
pub struct PhasesView {
    pub setup: CmdsView,
    pub update: CmdsView,
    pub build: CmdsView,
    pub start: CmdsView,
    pub stop: CmdsView,
    pub teardown: CmdsView,
}

impl View for Phases {
    type V = PhasesView;

    open spec fn view(&self) -> PhasesView {
        PhasesView {
            setup: self.setup@,
            update: self.update@,
            build: self.build@,
            start: self.start@,
            stop: self.stop@,
            teardown: self.teardown@,
        }
    }
}

impl DeepView for Phases {
    type V = PhasesView;

    open spec fn deep_view(&self) -> PhasesView {
        self@
    }
}

impl Default for Phases {
    fn default() -> (p: Self)
        ensures
            p@ == (PhasesView {
                setup: CmdsView::Empty,
                update: CmdsView::Empty,
                build: CmdsView::Empty,
                start: CmdsView::Empty,
                stop: CmdsView::Empty,
                teardown: CmdsView::Empty,
            }),
    {
        Phases {
            setup: Cmds::Empty,
            update: Cmds::Empty,
            build: Cmds::Empty,
            start: Cmds::Empty,
            stop: Cmds::Empty,
            teardown: Cmds::Empty,
        }
    }
}

impl Alike for Phases {
    fn alike(&self, other: &Self) -> (r: bool) {
        self.setup.alike(&other.setup) && self.update.alike(&other.update) && self.build.alike(
            &other.build,
        ) && self.start.alike(&other.start) && self.stop.alike(&other.stop) && self.teardown.alike(
            &other.teardown,
        )
    }

    fn copy(&self) -> (r: Self) {
        Phases {
            setup: self.setup.copy(),
            update: self.update.copy(),
            build: self.build.copy(),
            start: self.start.copy(),
            stop: self.stop.copy(),
            teardown: self.teardown.copy(),
        }
    }
}

/// When the service manager starts a project's service again.
#[derive(Debug, Clone, Copy, PartialEq, Eq, Structural)]
pub enum RestartOn {
    Never,
    Always,
    OnFailure,
}

impl Default for RestartOn {
    fn default() -> (r: Self)
        ensures
            r == RestartOn::Never,
    {
        RestartOn::Never
    }
}

/// How a project runs as a service.
#[derive(Debug, Clone, Copy, PartialEq, Eq, Structural)]
pub struct ServiceConfig {
    pub autostart: bool,
    pub restart_on: RestartOn,
}

impl Default for ServiceConfig {
    fn default() -> (s: Self)
        ensures
            s == (ServiceConfig { autostart: true, restart_on: RestartOn::Never }),
    {
        ServiceConfig { autostart: true, restart_on: RestartOn::Never }
    }
}

/// The text of the unit that runs a project: the working directory, and a line that
/// calls the controlling program at `exe` again to run the project's start phase.
pub open spec fn unit_text(root: Seq<char>, exe: Seq<char>, name: Seq<char>) -> Seq<char> {
    "[Service]\n  WorkingDirectory="@ + root + "\n  ExecStart="@ + exe + " run-proxy "@ + name
        + "\n  "@
}

impl ServiceConfig {
    /// The text of the project's service unit, or `None` where the project has no start
    /// command. `path` is the working root, `exe` the controlling program.
    pub fn generate_service_string(&self, project: &Project, path: &str, exe: &str) -> (r: Option<
        String,
    >)
        ensures
            r is Some <==> project@.phase.start.items().len() > 0,
            r is Some ==> r->0@ == unit_text(path@, exe@, project@.name),
    {
        let has_start = match &project.phase.start {
            Cmds::Empty => false,
            Cmds::Single(_) => true,
            Cmds::Many(cmds) => cmds.len() > 0,
        };
        if !has_start {
            return None;
        }
        let mut text = "[Service]\n  WorkingDirectory=".to_owned();
        text.append(path);
        text.append("\n  ExecStart=");
        text.append(exe);
        text.append(" run-proxy ");
        text.append(project.name.as_str());
        text.append("\n  ");
        Some(text)
    }
}

/// What is known of a project's last run.
#[derive(Debug, Clone, Copy, PartialEq, Eq, Structural)]
pub enum ProjectStatus {
    Added,
    Changed,
    Removed,
    Success,
    Failed(Phase),
}

impl Default for ProjectStatus {
    fn default() -> (s: Self)
        ensures
            s == ProjectStatus::Added,
    {
        ProjectStatus::Added
    }
}

impl ProjectStatus {
    /// The phases that are still to run for a project in this status.
    pub open spec fn phases(self) -> Seq<Phase> {
        match self {
            ProjectStatus::Success => seq![],
            ProjectStatus::Failed(phase) => match phase {
                Phase::Teardown => seq![Phase::Teardown],
                Phase::Setup => seq![Phase::Setup, Phase::Build, Phase::Start],
                Phase::Update => seq![Phase::Update, Phase::Build, Phase::Start],
                Phase::Build => seq![Phase::Build, Phase::Start],
                Phase::Start => seq![Phase::Start],
                Phase::Stop => seq![Phase::Stop],
            },
            ProjectStatus::Added => seq![Phase::Setup, Phase::Build, Phase::Start],
            ProjectStatus::Changed => seq![Phase::Teardown, Phase::Setup, Phase::Build, Phase::Start],
            ProjectStatus::Removed => seq![Phase::Stop, Phase::Teardown],
        }
    }

    /// The phases that are still to run: none after a success, from the failed phase on
    /// after a failure, and otherwise those of the change.
    pub fn to_phases(self) -> (r: Vec<Phase>)
        ensures
            r@ == self.phases(),
    {
        let mut r: Vec<Phase> = Vec::new();
        match self {
            ProjectStatus::Success => {},
            ProjectStatus::Failed(phase) => match phase {
                Phase::Teardown => {
                    r.push(Phase::Teardown);
                },
                Phase::Setup => {
                    r.push(Phase::Setup);
                    r.push(Phase::Build);
                    r.push(Phase::Start);
                },
                Phase::Update => {
                    r.push(Phase::Update);
                    r.push(Phase::Build);
                    r.push(Phase::Start);
                },
                Phase::Build => {
                    r.push(Phase::Build);
                    r.push(Phase::Start);
                },
                Phase::Start => {
                    r.push(Phase::Start);
                },
                Phase::Stop => {
                    r.push(Phase::Stop);
                },
            },
            ProjectStatus::Added => {
                r.push(Phase::Setup);
                r.push(Phase::Build);
                r.push(Phase::Start);
            },
            ProjectStatus::Changed => {
                r.push(Phase::Teardown);
                r.push(Phase::Setup);
                r.push(Phase::Build);
                r.push(Phase::Start);
            },
            ProjectStatus::Removed => {
                r.push(Phase::Stop);
                r.push(Phase::Teardown);
            },
        }
        assert(r@ =~= self.phases());
        r
    }
}

/// Where a project's source comes from.
#[derive(Debug, Clone, PartialEq)]
pub enum Source {
    /// The project has no source to fetch.
    Absent,
    /// A local path.
    Path(String),
    /// The URL of a git repository.
    Git(String),
    /// The path of a zip archive, relative to the place of the project's definition.
    Zip(String),
}

/// A [`Source`] as a mathematical value: its strings as sequences of characters,
/// its lists as sequences.
pub enum SourceView {
    Absent,
    Path(Seq<char>),
    Git(Seq<char>),
    Zip(Seq<char>),
}

impl View for Source {
    type V = SourceView;

    open spec fn view(&self) -> SourceView {
        match self {
            Source::Absent => SourceView::Absent,
            Source::Path(path) => SourceView::Path(path@),
            Source::Git(url) => SourceView::Git(url@),
            Source::Zip(path) => SourceView::Zip(path@),
        }
    }
}

impl DeepView for Source {
    type V = SourceView;

    open spec fn deep_view(&self) -> SourceView {
        self@
    }
}

impl Default for Source {
    fn default() -> (s: Self)
        ensures
            s@ == SourceView::Absent,
    {
        Source::Absent
    }
}

impl Alike for Source {
    fn alike(&self, other: &Self) -> (r: bool) {
        match (self, other) {
            (Source::Absent, Source::Absent) => true,
            (Source::Path(a), Source::Path(b)) => a.alike(b),
            (Source::Git(a), Source::Git(b)) => a.alike(b),
            (Source::Zip(a), Source::Zip(b)) => a.alike(b),
            _ => false,
        }
    }

    fn copy(&self) -> (r: Self) {
        match self {
            Source::Absent => Source::Absent,
            Source::Path(path) => Source::Path(path.clone()),
            Source::Git(url) => Source::Git(url.clone()),
            Source::Zip(path) => Source::Zip(path.clone()),
        }
    }
}

impl SourceView {
    /// The actions that bring the source of `project` into its source directory under
    /// the working root `root`: a copy for a path, a clone for a repository, an unpacking
    /// for an archive, nothing where there is no source.
    pub open spec fn setup(self, project: ProjectView, root: Seq<char>) -> Seq<ActionView> {
        let target = project.source_path(root);
        match self {
            SourceView::Absent => seq![],
            SourceView::Path(from) => seq![
                setup_action(
                    project.name,
                    ActionKindView::Filesystem(ActionKindFilesystemView::Copy(from, target)),
                ),
            ],
            SourceView::Git(url) => seq![
                setup_action(
                    project.name,
                    ActionKindView::Command(ActionKindCommandView::GitClone(url, target)),
                ),
            ],
            SourceView::Zip(archive) => seq![
                setup_action(
                    project.name,
                    ActionKindView::Command(
                        ActionKindCommandView::Unzip(path_join(project.toml_path, archive), target),
                    ),
                ),
            ],
        }
    }
}

/// An action of the setup phase, still to do.
pub open spec fn setup_action(name: Seq<char>, kind: ActionKindView) -> ActionView {
    ActionView { project_name: name, phase: Phase::Setup, kind, status: ActionStatusView::Todo }
}

impl Source {
    /// The actions that bring the source of `project` into its source directory under
    /// the working root `path`.
    pub fn setup(&self, project: &Project, path: &str) -> (r: Vec<Action>)
        ensures
            r.deep_view() == self@.setup(project@, path@),
    {
        let source_path = project.source_path(path);
        let mut actions: Vec<Action> = Vec::new();
        match self {
            Source::Absent => {},
            Source::Path(from) => {
                actions.push(
                    Action::new(
                        project.name.as_str(),
                        Phase::Setup,
                        ActionKind::Filesystem(ActionKindFilesystem::Copy(from.clone(), source_path)),
                    ),
                );
            },
            Source::Git(url) => {
                actions.push(
                    Action::new(
                        project.name.as_str(),
                        Phase::Setup,
                        ActionKind::Command(ActionKindCommand::GitClone(url.clone(), source_path)),
                    ),
                );
            },
            Source::Zip(archive) => {
                let from = crate::paths::join(project.toml_path.as_str(), archive.as_str());
                actions.push(
                    Action::new(
                        project.name.as_str(),
                        Phase::Setup,
                        ActionKind::Command(ActionKindCommand::Unzip(from, source_path)),
                    ),
                );
            },
        }
        assert(actions.deep_view() =~= self@.setup(project@, path@));
        actions
    }
}

/// A project as its definition file declares it.
#[derive(Debug, Clone, PartialEq)]
pub struct ProjectToml {
    pub name: String,
    pub source: Source,
    pub deps: Dict<Vec<String>>,
    pub phase: Phases,
    pub env: Dict<String>,
    pub service: ServiceConfig,
}

/// One declared project.
#[derive(Debug, Clone, PartialEq)]
pub struct Project {
    pub name: String,
    pub source: Source,
    pub deps: Dict<Vec<String>>,
    pub phase: Phases,
    pub env: Dict<String>,
    pub service: ServiceConfig,
    pub toml_path: String,
    pub status: ProjectStatus,
}

/// A [`Project`] as a mathematical value: its strings as sequences of characters,
/// its lists as sequences.
pub struct ProjectView {
    pub name: Seq<char>,
    pub source: SourceView,
    pub deps: Map<Seq<char>, Seq<Seq<char>>>,
    pub phase: PhasesView,
    pub env: Map<Seq<char>, Seq<char>>,
    pub service: ServiceConfig,
    pub toml_path: Seq<char>,
    pub status: ProjectStatus,
}

impl View for Project {
    type V = ProjectView;

    open spec fn view(&self) -> ProjectView {
        ProjectView {
            name: self.name@,
            source: self.source@,
            deps: self.deps.deep_view(),
            phase: self.phase@,
            env: self.env.deep_view(),
            service: self.service,
            toml_path: self.toml_path@,
            status: self.status,
        }
    }
}

impl DeepView for Project {
    type V = ProjectView;

    open spec fn deep_view(&self) -> ProjectView {
        self@
    }
}

impl ProjectView {
    /// Whether two projects are declared alike: equal in every field but the status of
    /// the last run.
    pub open spec fn same_declaration(self, other: ProjectView) -> bool {
        &&& self.name == other.name
        &&& self.source == other.source
        &&& self.deps == other.deps
        &&& self.phase == other.phase
        &&& self.env == other.env
        &&& self.service == other.service
        &&& self.toml_path == other.toml_path
    }

    /// The directory that holds what belongs to the project, under the working root.
    pub open spec fn artifact_path(self, root: Seq<char>) -> Seq<char> {
        path_join(path_join(root, "artifacts"@), self.name)
    }

    /// The directory that holds the project's source.
    pub open spec fn source_path(self, root: Seq<char>) -> Seq<char> {
        path_join(self.artifact_path(root), "source"@)
    }

    /// The file that holds the project's service unit.
    pub open spec fn service_path(self, root: Seq<char>) -> Seq<char> {
        path_join(self.artifact_path(root), "daemon.service"@)
    }

    /// The dependencies that the dependency shell is to offer.
    pub open spec fn deps_nix(self) -> Seq<Seq<char>> {
        if self.deps.dom().contains("nix"@) {
            self.deps["nix"@]
        } else {
            seq![]
        }
    }

    /// The child process that runs the project's start commands in the foreground: in
    /// the project's source directory, with the streams of the parent, inside the
    /// dependency shell where the project declares dependencies for it.
    pub open spec fn start_invocation(self, root: Seq<char>) -> InvocationView {
        shell_invocation(
            self.source_path(root),
            if self.deps_nix().len() == 0 {
                None
            } else {
                Some(self.deps_nix())
            },
            self.phase.start.items(),
            true,
            self.name,
            self.source_path(root),
        )
    }
}

impl Alike for Project {
    /// Whether the two projects are equal in every field, the status of the last run
    /// included.
    fn alike(&self, other: &Self) -> (r: bool) {
        self.non_status_equal(other) && self.status == other.status
    }

    fn copy(&self) -> (r: Self) {
        Project {
            name: self.name.clone(),
            source: self.source.copy(),
            deps: self.deps.copy(),
            phase: self.phase.copy(),
            env: self.env.copy(),
            service: self.service,
            toml_path: self.toml_path.clone(),
            status: self.status,
        }
    }
}

impl Project {
    /// Whether the two projects are declared alike: equal in every field but the status
    /// of the last run.
    pub fn non_status_equal(&self, other: &Self) -> (r: bool)
        ensures
            r == self@.same_declaration(other@),
    {
        self.name.alike(&other.name) && self.source.alike(&other.source) && self.deps.alike(
            &other.deps,
        ) && self.phase.alike(&other.phase) && self.env.alike(&other.env) && self.service
            == other.service && self.toml_path.alike(&other.toml_path)
    }

    /// The project that a definition found at `toml_path` declares, with the status of a
    /// project that was never run.
    pub fn from_project_toml(project_toml: ProjectToml, toml_path: String) -> (p: Self)
        ensures
            p@ == (ProjectView {
                name: project_toml.name@,
                source: project_toml.source@,
                deps: project_toml.deps.deep_view(),
                phase: project_toml.phase@,
                env: project_toml.env.deep_view(),
                service: project_toml.service,
                toml_path: toml_path@,
                status: ProjectStatus::Added,
            }),
    {
        Project {
            name: project_toml.name,
            source: project_toml.source,
            deps: project_toml.deps,
            phase: project_toml.phase,
            env: project_toml.env,
            service: project_toml.service,
            status: ProjectStatus::Added,
            toml_path,
        }
    }

    /// The directory that holds what belongs to the project, under the working root
    /// `path`.
    pub fn artifact_path(&self, path: &str) -> (r: String)
        ensures
            r@ == self@.artifact_path(path@),
    {
        let base = crate::paths::join(path, "artifacts");
        crate::paths::join(base.as_str(), self.name.as_str())
    }

    /// The directory that holds the project's source.
    pub fn source_path(&self, path: &str) -> (r: String)
        ensures
            r@ == self@.source_path(path@),
    {
        let base = self.artifact_path(path);
        crate::paths::join(base.as_str(), "source")
    }

    /// The file that holds the project's service unit.
    pub fn service_path(&self, path: &str) -> (r: String)
        ensures
            r@ == self@.service_path(path@),
    {
        let base = self.artifact_path(path);
        crate::paths::join(base.as_str(), "daemon.service")
    }

    /// The child process that runs the project's start commands in the foreground, under
    /// the working root `root`; `None` where the project has no start command. This is
    /// what the project's service unit comes down to.
    pub fn start_invocation(&self, root: &str) -> (r: Option<Invocation>)
        ensures
            r is Some <==> self@.phase.start.items().len() > 0,
            r is Some ==> r->0@ == self@.start_invocation(root@),
    {
        let cmds = self.phase.start.to_vec();
        if cmds.len() == 0 {
            return None;
        }
        let dir = self.source_path(root);
        let deps = self.deps_nix();
        let offered = if deps.len() == 0 {
            None
        } else {
            Some(&deps)
        };
        Some(
            crate::nix_shell(
                dir.as_str(),
                offered,
                &cmds,
                true,
                self.name.as_str(),
                dir.as_str(),
            ),
        )
    }

    /// The dependencies declared under `nix`; none where nothing is declared there.
    pub fn deps_nix(&self) -> (r: Vec<String>)
        ensures
            r.deep_view() == self@.deps_nix(),
    {
        match self.deps.get("nix") {
            Some(list) => crate::text::copy_all(list),
            None => {
                let r: Vec<String> = Vec::new();
                assert(r.deep_view() =~= self@.deps_nix());
                r
            },
        }
    }
}

} // verus!
