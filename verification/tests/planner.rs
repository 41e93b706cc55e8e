use procon::action::{
    Action, ActionKind, ActionKindCommand, ActionKindFilesystem, ActionKindSystemCtl, ActionStatus,
    Phase,
};
use procon::dict::Dict;
use procon::planner::{
    known_projects, make_actions, phase_actions_of, project_actions_of, required_dirs,
    unit_name_of, Site,
};
use procon::project::{Cmds, Phases, Project, ProjectStatus, ServiceConfig, Source};
use procon::reconcile::plan;

fn planner_site() -> Site {
    Site {
        root: "/root".to_string(),
        exe: "/bin/procon".to_string(),
        unit_dir: "/home/u/.config/systemd/user".to_string(),
    }
}

fn planner_web() -> Project {
    let mut phase = Phases::default();
    phase.setup = Cmds::Many(vec!["echo hi".to_string()]);
    phase.build = Cmds::Many(vec![]);
    phase.start = Cmds::Many(vec!["serve".to_string()]);
    Project {
        name: "web".to_string(),
        source: Source::Absent,
        deps: Dict::new(),
        phase,
        env: Dict::new(),
        service: ServiceConfig::default(),
        toml_path: "/defs".to_string(),
        status: ProjectStatus::Added,
    }
}

fn planner_action(name: &str, phase: Phase, kind: ActionKind) -> Action {
    Action { project_name: name.to_string(), phase, kind, status: ActionStatus::Todo }
}

fn planner_command(name: &str, phase: Phase, deps: &[&str], cmd: &str) -> Action {
    planner_action(
        name,
        phase,
        ActionKind::Command(ActionKindCommand::NixShell(
            format!("/root/artifacts/{name}/source"),
            deps.iter().map(|s| s.to_string()).collect(),
            Cmds::Single(cmd.to_string()),
        )),
    )
}

#[test]
fn unit_names_have_a_fixed_prefix_and_suffix() {
    assert_eq!(unit_name_of("web"), "procon-web.service");
    assert_eq!(unit_name_of(""), "procon-.service");
    assert_ne!(unit_name_of("a"), unit_name_of("b"));
}

#[test]
fn added_web_project_yields_unit_setup_and_restart() {
    let mut current = Dict::new();
    current.insert("web".to_string(), planner_web());
    let previous: Dict<Project> = Dict::new();
    let phases = plan(&current, &previous, None);
    assert_eq!(phases.get("web"), Some(&vec![Phase::Setup, Phase::Build, Phase::Start]));
    let actions = make_actions(&current, &phases, &planner_site());
    let unit = "[Service]\n  WorkingDirectory=/root\n  ExecStart=/bin/procon run-proxy web\n  ";
    assert_eq!(
        actions,
        vec![
            planner_action(
                "web",
                Phase::Setup,
                ActionKind::Filesystem(ActionKindFilesystem::Write(
                    "/root/artifacts/web/daemon.service".to_string(),
                    unit.to_string()
                ))
            ),
            planner_action(
                "web",
                Phase::Setup,
                ActionKind::Filesystem(ActionKindFilesystem::Copy(
                    "/root/artifacts/web/daemon.service".to_string(),
                    "/home/u/.config/systemd/user/procon-web.service".to_string()
                ))
            ),
            planner_command("web", Phase::Setup, &[], "echo hi"),
            planner_action(
                "web",
                Phase::Start,
                ActionKind::SystemCtl(ActionKindSystemCtl::Restart("procon-web.service".to_string()))
            ),
        ]
    );
}

#[test]
fn each_phase_has_its_actions() {
    let mut p = planner_web();
    p.source = Source::Git("https://x/y.git".to_string());
    p.phase.setup = Cmds::Many(vec!["s1".to_string(), "s2".to_string()]);
    p.phase.build = Cmds::Many(vec!["b1".to_string(), "b2".to_string()]);
    p.deps.insert("nix".to_string(), vec!["git".to_string()]);
    let site = planner_site();

    let setup = phase_actions_of(&p, Phase::Setup, &site);
    assert_eq!(setup.len(), 5);
    assert_eq!(
        setup[0].kind,
        ActionKind::Command(ActionKindCommand::GitClone(
            "https://x/y.git".to_string(),
            "/root/artifacts/web/source".to_string()
        ))
    );
    assert_eq!(setup[3], planner_command("web", Phase::Setup, &["git"], "s1"));
    assert_eq!(setup[4], planner_command("web", Phase::Setup, &["git"], "s2"));

    assert_eq!(
        phase_actions_of(&p, Phase::Update, &site),
        vec![
            planner_command("web", Phase::Update, &["git"], "s1"),
            planner_command("web", Phase::Update, &["git"], "s2"),
        ]
    );
    assert_eq!(
        phase_actions_of(&p, Phase::Build, &site),
        vec![
            planner_command("web", Phase::Build, &["git"], "b1"),
            planner_command("web", Phase::Build, &["git"], "b2"),
        ]
    );
    assert_eq!(
        phase_actions_of(&p, Phase::Stop, &site),
        vec![planner_action(
            "web",
            Phase::Stop,
            ActionKind::SystemCtl(ActionKindSystemCtl::Stop("procon-web.service".to_string()))
        )]
    );
    assert_eq!(phase_actions_of(&p, Phase::Teardown, &site), vec![]);
}

#[test]
fn start_restarts_only_with_autostart() {
    let mut p = planner_web();
    let site = planner_site();
    assert_eq!(phase_actions_of(&p, Phase::Start, &site).len(), 1);
    p.service.autostart = false;
    assert_eq!(phase_actions_of(&p, Phase::Start, &site), vec![]);
}

#[test]
fn setup_without_start_command_installs_no_unit() {
    let mut p = planner_web();
    p.phase.start = Cmds::Empty;
    let setup = phase_actions_of(&p, Phase::Setup, &planner_site());
    assert_eq!(setup, vec![planner_command("web", Phase::Setup, &[], "echo hi")]);
}

#[test]
fn project_actions_follow_the_list_of_phases() {
    let p = planner_web();
    let site = planner_site();
    let got = project_actions_of(&p, &vec![Phase::Stop, Phase::Teardown], &site);
    assert_eq!(got.len(), 1);
    assert_eq!(got[0].phase, Phase::Stop);
    assert_eq!(project_actions_of(&p, &vec![], &site), vec![]);
}

#[test]
fn make_actions_takes_projects_in_ascending_order_of_name() {
    let mut projects = Dict::new();
    for name in ["zeta", "alpha", "mid"] {
        let mut p = planner_web();
        p.name = name.to_string();
        projects.insert(name.to_string(), p);
    }
    let mut lists = Dict::new();
    lists.insert("zeta".to_string(), vec![Phase::Build, Phase::Start]);
    lists.insert("mid".to_string(), vec![Phase::Stop]);
    lists.insert("alpha".to_string(), vec![Phase::Start]);
    lists.insert("unknown".to_string(), vec![Phase::Stop]);
    let actions = make_actions(&projects, &lists, &planner_site());
    let names: Vec<&str> = actions.iter().map(|a| a.project_name.as_str()).collect();
    assert_eq!(names, vec!["alpha", "mid", "zeta"]);
    let phases: Vec<Phase> = actions.iter().map(|a| a.phase).collect();
    assert_eq!(phases, vec![Phase::Start, Phase::Stop, Phase::Start]);
}

#[test]
fn required_dirs_are_the_unit_directory_and_the_project_directories() {
    let mut projects = Dict::new();
    for name in ["b", "a"] {
        let mut p = planner_web();
        p.name = name.to_string();
        projects.insert(name.to_string(), p);
    }
    let mut lists = Dict::new();
    lists.insert("b".to_string(), vec![Phase::Setup]);
    lists.insert("a".to_string(), vec![Phase::Setup]);
    lists.insert("c".to_string(), vec![Phase::Stop]);
    assert_eq!(
        required_dirs(&projects, &lists, &planner_site()),
        vec![
            "/home/u/.config/systemd/user".to_string(),
            "/root/artifacts/a".to_string(),
            "/root/artifacts/b".to_string(),
        ]
    );
}

#[test]
fn known_projects_are_the_current_ones_and_those_that_are_gone() {
    let mut current = Dict::new();
    let mut previous = Dict::new();
    let mut kept = planner_web();
    kept.name = "kept".to_string();
    kept.toml_path = "/now".to_string();
    current.insert("kept".to_string(), kept.clone());
    let mut fresh = planner_web();
    fresh.name = "fresh".to_string();
    current.insert("fresh".to_string(), fresh.clone());
    let mut before = kept.clone();
    before.toml_path = "/then".to_string();
    previous.insert("kept".to_string(), before);
    let mut gone = planner_web();
    gone.name = "gone".to_string();
    previous.insert("gone".to_string(), gone.clone());

    let known = known_projects(&current, &previous);
    assert_eq!(
        known.key_list(),
        vec!["fresh".to_string(), "gone".to_string(), "kept".to_string()]
    );
    assert_eq!(known.get("kept"), Some(&kept));
    assert_eq!(known.get("fresh"), Some(&fresh));
    assert_eq!(known.get("gone"), Some(&gone));
    assert_eq!(known_projects(&Dict::new(), &Dict::new()).len(), 0);
}

#[test]
fn a_removed_project_gets_its_stop_action_from_the_previous_state() {
    let current: Dict<Project> = Dict::new();
    let mut previous = Dict::new();
    previous.insert("web".to_string(), planner_web());
    let phases = plan(&current, &previous, None);
    assert_eq!(phases.get("web"), Some(&vec![Phase::Stop, Phase::Teardown]));
    let known = known_projects(&current, &previous);
    let actions = make_actions(&known, &phases, &planner_site());
    assert_eq!(
        actions,
        vec![planner_action(
            "web",
            Phase::Stop,
            ActionKind::SystemCtl(ActionKindSystemCtl::Stop("procon-web.service".to_string()))
        )]
    );
    assert_eq!(make_actions(&current, &phases, &planner_site()), vec![]);
}
