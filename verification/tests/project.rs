use procon::action::{
    Action, ActionKind, ActionKindCommand, ActionKindFilesystem, ActionStatus, Phase,
};
use procon::dict::Dict;
use procon::nix_shell;
use procon::project::{
    Cmds, Phases, Project, ProjectStatus, ProjectToml, RestartOn, ServiceConfig, Source,
};

fn project_strings(items: &[&str]) -> Vec<String> {
    items.iter().map(|s| s.to_string()).collect()
}

fn project_named(name: &str) -> Project {
    let mut phase = Phases::default();
    phase.setup = Cmds::new(project_strings(&["echo hi"]));
    phase.start = Cmds::new(project_strings(&["serve"]));
    Project {
        name: name.to_string(),
        source: Source::Absent,
        deps: Dict::new(),
        phase,
        env: Dict::new(),
        service: ServiceConfig::default(),
        toml_path: "/defs".to_string(),
        status: ProjectStatus::Added,
    }
}

#[test]
fn cmds_constructors_and_lists() {
    assert_eq!(Cmds::new(project_strings(&["a", "b"])), Cmds::Many(project_strings(&["a", "b"])));
    assert_eq!(Cmds::new_single("a".to_string()), Cmds::Single("a".to_string()));
    assert_eq!(Cmds::Empty.to_vec(), Vec::<String>::new());
    assert_eq!(Cmds::Single("a".to_string()).to_vec(), project_strings(&["a"]));
    assert_eq!(Cmds::Many(project_strings(&["a", "b"])).to_vec(), project_strings(&["a", "b"]));
    assert_eq!(Cmds::Empty.to_option(), None);
    assert_eq!(Cmds::Single("a".to_string()).to_option(), Some(project_strings(&["a"])));
    assert_eq!(Cmds::Many(vec![]).to_option(), Some(vec![]));
    assert_eq!(Cmds::default(), Cmds::Empty);
}

#[test]
fn defaults_are_as_declared() {
    assert_eq!(
        ServiceConfig::default(),
        ServiceConfig { autostart: true, restart_on: RestartOn::Never }
    );
    assert_eq!(RestartOn::default(), RestartOn::Never);
    assert_eq!(Source::default(), Source::Absent);
    let phases = Phases::default();
    assert_eq!(phases.setup, Cmds::Empty);
    assert_eq!(phases.update, Cmds::Empty);
    assert_eq!(phases.build, Cmds::Empty);
    assert_eq!(phases.start, Cmds::Empty);
    assert_eq!(phases.stop, Cmds::Empty);
    assert_eq!(phases.teardown, Cmds::Empty);
}

#[test]
fn paths_lie_under_the_artifacts_of_the_root() {
    let p = project_named("web");
    assert_eq!(p.artifact_path("/root"), "/root/artifacts/web");
    assert_eq!(p.source_path("/root"), "/root/artifacts/web/source");
    assert_eq!(p.service_path("/root"), "/root/artifacts/web/daemon.service");
    assert_eq!(p.artifact_path("rel/"), "rel/artifacts/web");
}

#[test]
fn deps_nix_is_the_list_under_nix() {
    let mut p = project_named("web");
    assert_eq!(p.deps_nix(), Vec::<String>::new());
    p.deps.insert("apt".to_string(), project_strings(&["curl"]));
    assert_eq!(p.deps_nix(), Vec::<String>::new());
    p.deps.insert("nix".to_string(), project_strings(&["git", "jq"]));
    assert_eq!(p.deps_nix(), project_strings(&["git", "jq"]));
}

#[test]
fn non_status_equal_ignores_only_the_status() {
    let a = project_named("web");
    let mut b = project_named("web");
    assert!(a.non_status_equal(&b));
    b.status = ProjectStatus::Failed(Phase::Build);
    assert!(a.non_status_equal(&b));
    assert_ne!(a, b);

    let mut c = project_named("web");
    c.name = "api".to_string();
    assert!(!a.non_status_equal(&c));

    let mut c = project_named("web");
    c.source = Source::Git("https://x".to_string());
    assert!(!a.non_status_equal(&c));

    let mut c = project_named("web");
    c.deps.insert("nix".to_string(), project_strings(&["git"]));
    assert!(!a.non_status_equal(&c));
    assert!(!c.non_status_equal(&a));

    let mut c = project_named("web");
    c.phase.build = Cmds::Single("make".to_string());
    assert!(!a.non_status_equal(&c));

    let mut c = project_named("web");
    c.env.insert("K".to_string(), "V".to_string());
    assert!(!a.non_status_equal(&c));

    let mut c = project_named("web");
    c.service.autostart = false;
    assert!(!a.non_status_equal(&c));

    let mut c = project_named("web");
    c.service.restart_on = RestartOn::Always;
    assert!(!a.non_status_equal(&c));

    let mut c = project_named("web");
    c.toml_path = "/elsewhere".to_string();
    assert!(!a.non_status_equal(&c));
}

#[test]
fn non_status_equal_tells_one_command_from_a_list_of_one() {
    let mut a = project_named("web");
    let mut b = project_named("web");
    a.phase.build = Cmds::Single("make".to_string());
    b.phase.build = Cmds::Many(project_strings(&["make"]));
    assert!(!a.non_status_equal(&b));
}

#[test]
fn non_status_equal_compares_maps_as_maps() {
    let mut a = project_named("web");
    let mut b = project_named("web");
    a.env.insert("A".to_string(), "1".to_string());
    a.env.insert("B".to_string(), "2".to_string());
    b.env.insert("B".to_string(), "2".to_string());
    b.env.insert("A".to_string(), "1".to_string());
    assert!(a.non_status_equal(&b));
    b.env.insert("A".to_string(), "0".to_string());
    assert!(!a.non_status_equal(&b));
}

#[test]
fn from_project_toml_takes_every_field_and_starts_as_added() {
    let mut deps = Dict::new();
    deps.insert("nix".to_string(), project_strings(&["git"]));
    let mut env = Dict::new();
    env.insert("K".to_string(), "V".to_string());
    let toml = ProjectToml {
        name: "web".to_string(),
        source: Source::Zip("a.zip".to_string()),
        deps: deps.clone(),
        phase: Phases::default(),
        env: env.clone(),
        service: ServiceConfig { autostart: false, restart_on: RestartOn::OnFailure },
    };
    let p = Project::from_project_toml(toml, "/defs/web".to_string());
    assert_eq!(
        p,
        Project {
            name: "web".to_string(),
            source: Source::Zip("a.zip".to_string()),
            deps,
            phase: Phases::default(),
            env,
            service: ServiceConfig { autostart: false, restart_on: RestartOn::OnFailure },
            toml_path: "/defs/web".to_string(),
            status: ProjectStatus::Added,
        }
    );
}

#[test]
fn source_setup_has_one_action_per_kind_of_source() {
    let p = project_named("web");
    assert_eq!(Source::Absent.setup(&p, "/root"), vec![]);
    assert_eq!(
        Source::Path("/src/web".to_string()).setup(&p, "/root"),
        vec![Action {
            project_name: "web".to_string(),
            phase: Phase::Setup,
            kind: ActionKind::Filesystem(ActionKindFilesystem::Copy(
                "/src/web".to_string(),
                "/root/artifacts/web/source".to_string()
            )),
            status: ActionStatus::Todo,
        }]
    );
    assert_eq!(
        Source::Git("https://x/y.git".to_string()).setup(&p, "/root"),
        vec![Action {
            project_name: "web".to_string(),
            phase: Phase::Setup,
            kind: ActionKind::Command(ActionKindCommand::GitClone(
                "https://x/y.git".to_string(),
                "/root/artifacts/web/source".to_string()
            )),
            status: ActionStatus::Todo,
        }]
    );
    assert_eq!(
        Source::Zip("pkg/a.zip".to_string()).setup(&p, "/root"),
        vec![Action {
            project_name: "web".to_string(),
            phase: Phase::Setup,
            kind: ActionKind::Command(ActionKindCommand::Unzip(
                "/defs/pkg/a.zip".to_string(),
                "/root/artifacts/web/source".to_string()
            )),
            status: ActionStatus::Todo,
        }]
    );
}

#[test]
fn source_setup_takes_an_absolute_archive_as_it_is() {
    let p = project_named("web");
    let actions = Source::Zip("/abs/a.zip".to_string()).setup(&p, "/root");
    assert_eq!(
        actions[0].kind,
        ActionKind::Command(ActionKindCommand::Unzip(
            "/abs/a.zip".to_string(),
            "/root/artifacts/web/source".to_string()
        ))
    );
}

#[test]
fn service_string_calls_the_controlling_program() {
    let p = project_named("web");
    assert_eq!(
        p.service.generate_service_string(&p, "/root", "/bin/procon"),
        Some(
            "[Service]\n  WorkingDirectory=/root\n  ExecStart=/bin/procon run-proxy web\n  "
                .to_string()
        )
    );
}

#[test]
fn service_string_is_absent_without_a_start_command() {
    let mut p = project_named("web");
    p.phase.start = Cmds::Empty;
    assert_eq!(p.service.generate_service_string(&p, "/root", "/bin/procon"), None);
    p.phase.start = Cmds::Many(vec![]);
    assert_eq!(p.service.generate_service_string(&p, "/root", "/bin/procon"), None);
    p.phase.start = Cmds::Single("serve".to_string());
    assert!(p.service.generate_service_string(&p, "/root", "/bin/procon").is_some());
}

#[test]
fn start_invocation_runs_the_start_commands_in_the_source_directory() {
    let mut p = project_named("web");
    assert_eq!(
        p.start_invocation("/root"),
        Some(nix_shell(
            "/root/artifacts/web/source",
            None,
            &project_strings(&["serve"]),
            true,
            "web",
            "/root/artifacts/web/source"
        ))
    );
    p.deps.insert("nix".to_string(), project_strings(&["nodejs"]));
    let with_deps = p.start_invocation("/root").unwrap();
    assert_eq!(with_deps.program, "/nix/var/nix/profiles/default/bin/nix-shell");
    assert_eq!(
        with_deps.args,
        project_strings(&[
            "-p",
            "nodejs",
            "--run",
            "PROJECT_NAME='web' PROJECT_DIR='/root/artifacts/web/source' serve"
        ])
    );
    p.phase.start = Cmds::Empty;
    assert_eq!(p.start_invocation("/root"), None);
}
