//! The plan builder: the actions that each phase of each project needs.

use crate::action::{
    Action, ActionKind, ActionKindCommand, ActionKindCommandView, ActionKindFilesystem,
    ActionKindFilesystemView, ActionKindSystemCtl, ActionKindSystemCtlView, ActionKindView,
    ActionStatusView, ActionView, Phase,
};
use crate::dict::{lemma_entry, Alike, Dict};
use crate::paths::path_join;
use crate::project::{unit_text, Cmds, CmdsView, Project, ProjectView};
use vstd::prelude::*;
use vstd::string::StringExecFns;

verus! {

/// The places on the host that a plan refers to.
#[derive(Debug, Clone, PartialEq)]
pub struct Site {
    /// The root of the working directory tree.
    pub root: String,
    /// The controlling program, which a service unit calls to run a project.
    pub exe: String,
    /// The directory in which the service manager looks for units.
    pub unit_dir: String,
}

/// A [`Site`] as a mathematical value: its strings as sequences of characters,
/// its lists as sequences.
pub struct SiteView {
    pub root: Seq<char>,
    pub exe: Seq<char>,
    pub unit_dir: Seq<char>,
}

impl View for Site {
    type V = SiteView;

    open spec fn view(&self) -> SiteView {
        SiteView { root: self.root@, exe: self.exe@, unit_dir: self.unit_dir@ }
    }
}

/// The name of the service unit of the project `name`.
pub open spec fn unit_name(name: Seq<char>) -> Seq<char> {
    "procon-"@ + name + ".service"@
}

/// Different projects have different units.
pub proof fn lemma_unit_name_injective(a: Seq<char>, b: Seq<char>)
    requires
        unit_name(a) == unit_name(b),
    ensures
        a == b,
{
    let p = "procon-"@;
    let s = ".service"@;
    assert(unit_name(a).len() == p.len() + a.len() + s.len());
    assert(unit_name(b).len() == p.len() + b.len() + s.len());
    assert forall|i: int| 0 <= i < a.len() implies a[i] == b[i] by {
        assert(unit_name(a)[p.len() + i] == a[i]);
        assert(unit_name(b)[p.len() + i] == b[i]);
    }
    assert(a =~= b);
}

/// The name of the service unit of the project `name`.
pub fn unit_name_of(name: &str) -> (r: String)
    ensures
        r@ == unit_name(name@),
{
    let mut r = "procon-".to_owned();
    r.append(name);
    r.append(".service");
    r
}

/// An action of `project` in `phase`, still to do.
pub open spec fn todo(project: ProjectView, phase: Phase, kind: ActionKindView) -> ActionView {
    ActionView { project_name: project.name, phase, kind, status: ActionStatusView::Todo }
}

/// One action for each command: the command run in the project's source directory,
/// inside a dependency shell that offers the project's dependencies.
pub open spec fn command_actions(
    project: ProjectView,
    phase: Phase,
    cmds: Seq<Seq<char>>,
    root: Seq<char>,
) -> Seq<ActionView> {
    Seq::new(
        cmds.len(),
        |i: int|
            todo(
                project,
                phase,
                ActionKindView::Command(
                    ActionKindCommandView::NixShell(
                        project.source_path(root),
                        project.deps_nix(),
                        CmdsView::Single(cmds[i]),
                    ),
                ),
            ),
    )
}

/// For a project with a start command: the unit is written to the project's directory
/// and then copied to where the service manager looks for units.
pub open spec fn unit_actions(project: ProjectView, site: SiteView) -> Seq<ActionView> {
    if project.phase.start.items().len() > 0 {
        seq![
            todo(
                project,
                Phase::Setup,
                ActionKindView::Filesystem(
                    ActionKindFilesystemView::Write(
                        project.service_path(site.root),
                        unit_text(site.root, site.exe, project.name),
                    ),
                ),
            ),
            todo(
                project,
                Phase::Setup,
                ActionKindView::Filesystem(
                    ActionKindFilesystemView::Copy(
                        project.service_path(site.root),
                        path_join(site.unit_dir, unit_name(project.name)),
                    ),
                ),
            ),
        ]
    } else {
        seq![]
    }
}

/// The actions of one phase of one project.
///
/// Setup fetches the source, installs the service unit and runs the setup commands.
/// Update runs the setup commands again. Build runs the build commands. Start restarts
/// the project's unit where the project starts by itself. Stop stops the unit. Teardown
/// has no actions: nothing is removed when a project goes.
pub open spec fn phase_actions(project: ProjectView, phase: Phase, site: SiteView) -> Seq<
    ActionView,
> {
    match phase {
        Phase::Setup => project.source.setup(project, site.root) + unit_actions(project, site)
            + command_actions(project, Phase::Setup, project.phase.setup.items(), site.root),
        Phase::Update => command_actions(
            project,
            Phase::Update,
            project.phase.setup.items(),
            site.root,
        ),
        Phase::Build => command_actions(
            project,
            Phase::Build,
            project.phase.build.items(),
            site.root,
        ),
        Phase::Start => if project.service.autostart {
            seq![
                todo(
                    project,
                    Phase::Start,
                    ActionKindView::SystemCtl(ActionKindSystemCtlView::Restart(unit_name(project.name))),
                ),
            ]
        } else {
            seq![]
        },
        Phase::Stop => seq![
            todo(
                project,
                Phase::Stop,
                ActionKindView::SystemCtl(ActionKindSystemCtlView::Stop(unit_name(project.name))),
            ),
        ],
        Phase::Teardown => seq![],
    }
}

/// The actions of the given phases of one project, phase after phase.
pub open spec fn project_actions(project: ProjectView, phases: Seq<Phase>, site: SiteView) -> Seq<
    ActionView,
>
    decreases phases.len(),
{
    if phases.len() == 0 {
        seq![]
    } else {
        project_actions(project, phases.drop_last(), site) + phase_actions(
            project,
            phases.last(),
            site,
        )
    }
}

/// The actions for one name of the plan: those of its project, or none where no project
/// of that name is known.
pub open spec fn entry_actions(
    projects: Map<Seq<char>, ProjectView>,
    name: Seq<char>,
    phases: Seq<Phase>,
    site: SiteView,
) -> Seq<ActionView> {
    if projects.dom().contains(name) {
        project_actions(projects[name], phases, site)
    } else {
        seq![]
    }
}

/// The actions of a plan: for each name in turn, the actions of its phases.
pub open spec fn plan_actions(
    projects: Map<Seq<char>, ProjectView>,
    names: Seq<Seq<char>>,
    lists: Seq<Vec<Phase>>,
    site: SiteView,
) -> Seq<ActionView>
    decreases names.len(),
{
    if names.len() == 0 || lists.len() == 0 {
        seq![]
    } else {
        plan_actions(projects, names.drop_last(), lists.drop_last(), site) + entry_actions(
            projects,
            names.last(),
            lists.last()@,
            site,
        )
    }
}

/// Moves the actions of `more` to the end of `list`.
fn append(list: &mut Vec<Action>, more: Vec<Action>)
    ensures
        final(list).deep_view() == old(list).deep_view() + more.deep_view(),
{
    let mut more = more;
    let ghost a = list.deep_view();
    let ghost b = more.deep_view();
    list.append(&mut more);
    assert(list.deep_view() =~= a + b);
}

/// One action for each command, in `phase`.
fn command_actions_of(project: &Project, phase: Phase, cmds: &Cmds, root: &str) -> (r: Vec<Action>)
    ensures
        r.deep_view() == command_actions(project@, phase, cmds@.items(), root@),
{
    let list = cmds.to_vec();
    let mut r: Vec<Action> = Vec::new();
    let mut i: usize = 0;
    while i < list.len()
        invariant
            i <= list.len(),
            list.deep_view() == cmds@.items(),
            r.len() == i,
            forall|j: int|
                0 <= j < i ==> (#[trigger] r[j])@ == command_actions(
                    project@,
                    phase,
                    cmds@.items(),
                    root@,
                )[j],
        decreases list.len() - i,
    {
        let kind = ActionKind::Command(
            ActionKindCommand::NixShell(
                project.source_path(root),
                project.deps_nix(),
                Cmds::new_single(list[i].clone()),
            ),
        );
        assert(list.deep_view()[i as int] == list[i as int]@);
        r.push(Action::new(project.name.as_str(), phase, kind));
        i += 1;
    }
    assert(r.deep_view() =~= command_actions(project@, phase, cmds@.items(), root@));
    r
}

/// The actions that install the project's service unit.
fn unit_actions_of(project: &Project, site: &Site) -> (r: Vec<Action>)
    ensures
        r.deep_view() == unit_actions(project@, site@),
{
    let mut r: Vec<Action> = Vec::new();
    match project.service.generate_service_string(project, site.root.as_str(), site.exe.as_str()) {
        Some(text) => {
            let unit = unit_name_of(project.name.as_str());
            let target = crate::paths::join(site.unit_dir.as_str(), unit.as_str());
            r.push(
                Action::new(
                    project.name.as_str(),
                    Phase::Setup,
                    ActionKind::Filesystem(
                        ActionKindFilesystem::Write(project.service_path(site.root.as_str()), text),
                    ),
                ),
            );
            r.push(
                Action::new(
                    project.name.as_str(),
                    Phase::Setup,
                    ActionKind::Filesystem(
                        ActionKindFilesystem::Copy(project.service_path(site.root.as_str()), target),
                    ),
                ),
            );
        },
        None => {},
    }
    assert(r.deep_view() =~= unit_actions(project@, site@));
    r
}

/// The actions of one phase of one project.
pub fn phase_actions_of(project: &Project, phase: Phase, site: &Site) -> (r: Vec<Action>)
    ensures
        r.deep_view() == phase_actions(project@, phase, site@),
{
    match phase {
        Phase::Setup => {
            let mut r = project.source.setup(project, site.root.as_str());
            append(&mut r, unit_actions_of(project, site));
            append(
                &mut r,
                command_actions_of(project, Phase::Setup, &project.phase.setup, site.root.as_str()),
            );
            r
        },
        Phase::Update => command_actions_of(
            project,
            Phase::Update,
            &project.phase.setup,
            site.root.as_str(),
        ),
        Phase::Build => command_actions_of(
            project,
            Phase::Build,
            &project.phase.build,
            site.root.as_str(),
        ),
        Phase::Start => {
            let mut r: Vec<Action> = Vec::new();
            if project.service.autostart {
                r.push(
                    Action::new(
                        project.name.as_str(),
                        Phase::Start,
                        ActionKind::SystemCtl(
                            ActionKindSystemCtl::Restart(unit_name_of(project.name.as_str())),
                        ),
                    ),
                );
            }
            assert(r.deep_view() =~= phase_actions(project@, phase, site@));
            r
        },
        Phase::Stop => {
            let mut r: Vec<Action> = Vec::new();
            r.push(
                Action::new(
                    project.name.as_str(),
                    Phase::Stop,
                    ActionKind::SystemCtl(ActionKindSystemCtl::Stop(unit_name_of(project.name.as_str()))),
                ),
            );
            assert(r.deep_view() =~= phase_actions(project@, phase, site@));
            r
        },
        Phase::Teardown => {
            let r: Vec<Action> = Vec::new();
            assert(r.deep_view() =~= phase_actions(project@, phase, site@));
            r
        },
    }
}

/// The actions of the given phases of one project, phase after phase.
pub fn project_actions_of(project: &Project, phases: &Vec<Phase>, site: &Site) -> (r: Vec<Action>)
    ensures
        r.deep_view() == project_actions(project@, phases@, site@),
{
    let mut r: Vec<Action> = Vec::new();
    let mut k: usize = 0;
    assert(r.deep_view() =~= project_actions(project@, phases@.take(0), site@));
    while k < phases.len()
        invariant
            k <= phases.len(),
            r.deep_view() == project_actions(project@, phases@.take(k as int), site@),
        decreases phases.len() - k,
    {
        proof {
            let next = phases@.take(k + 1);
            assert(next.drop_last() =~= phases@.take(k as int));
            assert(next.last() == phases[k as int]);
        }
        append(&mut r, phase_actions_of(project, phases[k], site));
        k += 1;
    }
    assert(phases@.take(phases.len() as int) =~= phases@);
    r
}

/// Expands a plan into its actions. The names are taken in ascending order, and for each
/// name the phases in the order of its list; the project of a name is looked up in
/// `projects`, and a name without a project there contributes nothing. `known_projects`
/// gives the projects to look in: those declared now, and those that are gone.
pub fn make_actions(projects: &Dict<Project>, phase_lists: &Dict<Vec<Phase>>, site: &Site) -> (r:
    Vec<Action>)
    ensures
        r.deep_view() == plan_actions(
            projects.deep_view(),
            phase_lists.keys(),
            phase_lists.values(),
            site@,
        ),
        crate::dict::ascending(phase_lists.keys()),
{
    let mut r: Vec<Action> = Vec::new();
    let n = phase_lists.len();
    let mut i: usize = 0;
    let ghost names = phase_lists.keys();
    let ghost lists = phase_lists.values();
    assert(r.deep_view() =~= plan_actions(projects.deep_view(), names.take(0), lists.take(0), site@));
    while i < n
        invariant
            i <= n,
            n == names.len(),
            n == lists.len(),
            names == phase_lists.keys(),
            lists == phase_lists.values(),
            r.deep_view() == plan_actions(
                projects.deep_view(),
                names.take(i as int),
                lists.take(i as int),
                site@,
            ),
        decreases n - i,
    {
        let name = phase_lists.key_at(i);
        let phases = phase_lists.value_at(i);
        proof {
            assert(names.take(i + 1).drop_last() =~= names.take(i as int));
            assert(lists.take(i + 1).drop_last() =~= lists.take(i as int));
            assert(names.take(i + 1).last() == names[i as int]);
            assert(lists.take(i + 1).last() == lists[i as int]);
        }
        match projects.get(name.as_str()) {
            Some(project) => {
                append(&mut r, project_actions_of(project, phases, site));
            },
            None => {
                assert(r.deep_view() + Seq::<ActionView>::empty() =~= r.deep_view());
            },
        }
        i += 1;
    }
    proof {
        assert(names.take(n as int) =~= names);
        assert(lists.take(n as int) =~= lists);
    }
    r
}

/// The projects that a plan may speak of: those of the current state, and from the
/// previous state those that the current state no longer has. A project that is gone is
/// known from the previous state only, and its stop action is made from what that says.
pub open spec fn known(
    current: Map<Seq<char>, ProjectView>,
    previous: Map<Seq<char>, ProjectView>,
) -> Map<Seq<char>, ProjectView> {
    Map::new(
        |name: Seq<char>| current.dom().contains(name) || previous.dom().contains(name),
        |name: Seq<char>|
            if current.dom().contains(name) {
                current[name]
            } else {
                previous[name]
            },
    )
}

/// The projects to hand to `make_actions`: every project of the current state as that
/// state has it, and every project that only the previous state has as that one has it.
pub fn known_projects(current: &Dict<Project>, previous: &Dict<Project>) -> (r: Dict<Project>)
    ensures
        r.deep_view() == known(current.deep_view(), previous.deep_view()),
        forall|name: Seq<char>| r.has(name) == (current.has(name) || previous.has(name)),
{
    let mut r = current.copy();
    let n = previous.len();
    let mut i: usize = 0;
    proof {
        assert forall|name: Seq<char>| r.has(name) == current.has(name) by {
            assert(r.deep_view().dom().contains(name) == r.has(name));
            assert(current.deep_view().dom().contains(name) == current.has(name));
        }
        assert forall|name: Seq<char>| #[trigger] r.has(name) implies r.value_of(name)@
            == current.value_of(name)@ by {
            assert(r.deep_view()[name] == current.deep_view()[name]);
        }
    }
    while i < n
        invariant
            i <= n,
            n == previous.keys().len(),
            previous.wf(),
            forall|name: Seq<char>| #[trigger]
                r.has(name) <==> current.has(name) || (previous.has(name) && previous.position(
                    name,
                ) < i),
            forall|name: Seq<char>| #[trigger]
                r.has(name) ==> r.value_of(name)@ == (if current.has(name) {
                    current.value_of(name)@
                } else {
                    previous.value_of(name)@
                }),
        decreases n - i,
    {
        let name = previous.key_at(i);
        proof {
            lemma_entry(previous, i as int);
        }
        if !current.contains_key(name.as_str()) {
            r.insert(name.clone(), previous.value_at(i).copy());
        }
        i += 1;
    }
    proof {
        assert forall|name: Seq<char>| previous.has(name) implies r.has(name) by {
            let k = previous.keys().index_of(name);
            lemma_entry(previous, k);
        }
        assert(r.deep_view() =~= known(current.deep_view(), previous.deep_view()));
    }
    r
}

/// The directories that a run of the plan needs: the directory of the service
/// manager's units, and for each name of the plan with a known project, in turn, that
/// project's own directory.
pub open spec fn plan_dirs(
    projects: Map<Seq<char>, ProjectView>,
    names: Seq<Seq<char>>,
    site: SiteView,
) -> Seq<Seq<char>>
    decreases names.len(),
{
    if names.len() == 0 {
        seq![site.unit_dir]
    } else {
        let before = plan_dirs(projects, names.drop_last(), site);
        if projects.dom().contains(names.last()) {
            before.push(projects[names.last()].artifact_path(site.root))
        } else {
            before
        }
    }
}

/// The directories that have to exist before the first action of the plan runs.
pub fn required_dirs(projects: &Dict<Project>, phase_lists: &Dict<Vec<Phase>>, site: &Site) -> (r:
    Vec<String>)
    ensures
        r.deep_view() == plan_dirs(projects.deep_view(), phase_lists.keys(), site@),
{
    let mut r: Vec<String> = Vec::new();
    r.push(site.unit_dir.clone());
    let n = phase_lists.len();
    let ghost names = phase_lists.keys();
    let mut i: usize = 0;
    assert(r.deep_view() =~= plan_dirs(projects.deep_view(), names.take(0), site@));
    while i < n
        invariant
            i <= n,
            n == names.len(),
            names == phase_lists.keys(),
            r.deep_view() == plan_dirs(projects.deep_view(), names.take(i as int), site@),
        decreases n - i,
    {
        let name = phase_lists.key_at(i);
        proof {
            assert(names.take(i + 1).drop_last() =~= names.take(i as int));
            assert(names.take(i + 1).last() == names[i as int]);
        }
        match projects.get(name.as_str()) {
            Some(project) => {
                let ghost before = r.deep_view();
                let dir = project.artifact_path(site.root.as_str());
                r.push(dir);
                assert(r.deep_view() =~= before.push(project@.artifact_path(site@.root)));
            },
            None => {},
        }
        i += 1;
    }
    proof {
        assert(names.take(n as int) =~= names);
    }
    r
}

} // verus!
