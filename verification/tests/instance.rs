use procon::config::{AssembleError, Cmds, Config, Exec, ExecTask, Phase, Project, Step};
use procon::dict::Dict;
use procon::instance::{failure_message, Cause, Instance, Move, Ran, Run, Unit, UnitKind};
use procon::nix_shell;

fn instance_step(cmds: &[&str]) -> Step {
    Step {
        job: Exec::Run { run: Cmds::Many(cmds.iter().map(|s| s.to_string()).collect()) },
        deps: vec![],
        cwd: None,
    }
}

fn instance_broken_step() -> Step {
    Step {
        job: Exec::Task(ExecTask { task: "nope".to_string(), with: Dict::new() }),
        deps: vec![],
        cwd: None,
    }
}

fn instance_project(dir: &str, phases: Vec<(&str, Vec<Step>)>) -> Project {
    let mut d = Dict::new();
    for (name, steps) in phases {
        d.insert(name.to_string(), Phase { steps });
    }
    Project { dir: dir.to_string(), phases: d }
}

fn instance_sample() -> Instance {
    let mut config = Config::default();
    config.projects.insert(
        "web".to_string(),
        instance_project(
            "/srv/web",
            vec![
                ("build", vec![instance_step(&["w-b1", "w-b2"])]),
                ("start", vec![instance_step(&["w-s"])]),
            ],
        ),
    );
    config.projects.insert(
        "api".to_string(),
        instance_project(
            "/srv/api",
            vec![("build", vec![instance_step(&["a-b"])]), ("start", vec![instance_step(&["a-s"])])],
        ),
    );
    config.projects.insert(
        "db".to_string(),
        instance_project("/srv/db", vec![("start", vec![instance_step(&["d-s"])])]),
    );
    config.global.insert("lint".to_string(), vec![instance_step(&["g1", "g2"])]);
    config.global.insert("fmt".to_string(), vec![instance_step(&["g3"])]);
    Instance::with_config("/etc/procon/procon.yaml".to_string(), config)
}

fn instance_names(items: &[&str]) -> Vec<String> {
    items.iter().map(|s| s.to_string()).collect()
}

/// The last word of the script that a unit runs, with the unit's owner.
fn instance_label(run: &Run, i: usize) -> String {
    let unit = run.unit(i).unwrap();
    match &unit.kind {
        UnitKind::Command(inv) => {
            let script = inv.args.last().unwrap();
            format!("{}:{}", unit.owner, script.rsplit(' ').next().unwrap())
        }
        UnitKind::Broken(_) => format!("{}:broken", unit.owner),
        UnitKind::Missing => format!("{}:missing", unit.owner),
    }
}

/// Drives a run to its end; `ran` says how the process with a label ended.
fn instance_drive(run: &mut Run, ran: &dyn Fn(&str) -> Ran) -> (Vec<String>, Option<Cause>) {
    let mut log = Vec::new();
    loop {
        match run.next() {
            Move::Run(i) => {
                let label = instance_label(run, i);
                let how = ran(&label);
                log.push(format!("run {label}"));
                if let Some(cause) = run.record(how) {
                    return (log, Some(cause));
                }
            }
            Move::Announce(i) => log.push(format!("would run {}", instance_label(run, i))),
            Move::Abort(i, cause) => {
                log.push(format!("abort {}", instance_label(run, i)));
                return (log, Some(cause));
            }
            Move::Finished => return (log, None),
        }
        assert!(log.len() < 1000);
    }
}

#[test]
fn new_instance_has_an_empty_configuration() {
    let instance = Instance::new("/etc/procon.yaml".to_string());
    assert_eq!(instance.location(), "/etc/procon.yaml");
    assert_eq!(instance.configuration().projects.len(), 0);
    assert_eq!(instance.configuration().tasks.len(), 0);
    assert_eq!(instance.configuration().global.len(), 0);
    let mut run = instance.cmd_run(instance_names(&["build"]), None, false);
    assert_eq!(run.len(), 0);
    assert_eq!(run.next(), Move::Finished);
}

#[test]
fn cmd_run_goes_phase_by_phase_and_project_by_project() {
    let instance = instance_sample();
    let mut run = instance.cmd_run(instance_names(&["build", "start"]), None, false);
    let (log, cause) = instance_drive(&mut run, &|_| Ran::Success);
    assert_eq!(cause, None);
    assert_eq!(
        log,
        vec![
            "run api:a-b",
            "run web:w-b1",
            "run web:w-b2",
            "run api:a-s",
            "run db:d-s",
            "run web:w-s",
        ]
    );
}

#[test]
fn cmd_run_builds_the_processes_of_each_project_in_its_directory() {
    let instance = instance_sample();
    let run = instance.cmd_run(instance_names(&["start"]), Some(instance_names(&["db"])), false);
    assert_eq!(run.len(), 1);
    assert_eq!(
        run.unit(0),
        Some(&Unit {
            owner: "db".to_string(),
            kind: UnitKind::Command(nix_shell(
                "/srv/db",
                None,
                &instance_names(&["d-s"]),
                true,
                "db",
                "/srv/db"
            )),
        })
    );
    assert_eq!(run.unit(1), None);
}

#[test]
fn cmd_run_leaves_out_a_project_after_its_failure() {
    let instance = instance_sample();
    let mut run = instance.cmd_run(instance_names(&["build", "start"]), None, false);
    let (log, cause) =
        instance_drive(&mut run, &|label| if label == "web:w-b1" { Ran::Failure } else { Ran::Success });
    assert_eq!(cause, None);
    assert_eq!(log, vec!["run api:a-b", "run web:w-b1", "run api:a-s", "run db:d-s"]);
    assert_eq!(run.ignored_owners(), &instance_names(&["web"]));
}

#[test]
fn cmd_run_counts_a_process_that_could_not_be_started_as_failed() {
    let instance = instance_sample();
    let mut run = instance.cmd_run(instance_names(&["build", "start"]), None, false);
    let (log, cause) = instance_drive(&mut run, &|label| {
        if label == "web:w-b1" {
            Ran::NotStarted
        } else {
            Ran::Success
        }
    });
    assert_eq!(cause, None);
    assert_eq!(log, vec!["run api:a-b", "run web:w-b1", "run api:a-s", "run db:d-s"]);
    assert_eq!(run.ignored_owners(), &instance_names(&["web"]));
}

#[test]
fn cmd_run_with_an_unreachable_shell_runs_one_command_of_each_project() {
    let instance = instance_sample();
    let mut run = instance.cmd_run(instance_names(&["build", "start"]), None, false);
    let (log, cause) = instance_drive(&mut run, &|_| Ran::NotStarted);
    assert_eq!(cause, None);
    assert_eq!(log, vec!["run api:a-b", "run web:w-b1", "run db:d-s"]);
    assert_eq!(run.ignored_owners(), &instance_names(&["api", "web", "db"]));
}

#[test]
fn cmd_run_with_a_filter_takes_only_the_named_projects() {
    let instance = instance_sample();
    let filter = Some(instance_names(&["web", "db", "unknown"]));
    let mut run = instance.cmd_run(instance_names(&["start", "build"]), filter, false);
    let (log, _) = instance_drive(&mut run, &|_| Ran::Success);
    assert_eq!(log, vec!["run db:d-s", "run web:w-s", "run web:w-b1", "run web:w-b2"]);
}

#[test]
fn cmd_run_skips_phases_that_no_project_has() {
    let instance = instance_sample();
    let mut run = instance.cmd_run(instance_names(&["deploy"]), None, false);
    assert_eq!(run.next(), Move::Finished);
}

#[test]
fn cmd_run_dry_run_announces_and_never_waits() {
    let instance = instance_sample();
    let mut run = instance.cmd_run(instance_names(&["build"]), None, true);
    let (log, cause) = instance_drive(&mut run, &|_| Ran::Failure);
    assert_eq!(cause, None);
    assert_eq!(log, vec!["would run api:a-b", "would run web:w-b1", "would run web:w-b2"]);
    assert_eq!(run.record(Ran::Failure), None);
}

#[test]
fn cmd_run_gives_up_at_a_step_that_cannot_be_assembled() {
    let mut config = Config::default();
    config.projects.insert(
        "a".to_string(),
        instance_project("/a", vec![("build", vec![instance_step(&["ok"]), instance_broken_step()])]),
    );
    config.projects.insert(
        "b".to_string(),
        instance_project("/b", vec![("build", vec![instance_step(&["never"])])]),
    );
    let instance = Instance::with_config("/c.yaml".to_string(), config);
    let mut run = instance.cmd_run(instance_names(&["build"]), None, false);
    let (log, cause) = instance_drive(&mut run, &|_| Ran::Success);
    assert_eq!(log, vec!["run a:ok", "abort a:broken"]);
    assert_eq!(cause, Some(Cause::Broken));
    assert_eq!(
        run.unit(1).unwrap().kind,
        UnitKind::Broken(AssembleError::TaskNotFound("nope".to_string()))
    );
    assert_eq!(run.next(), Move::Finished);
}

#[test]
fn cmd_run_does_not_reach_the_broken_step_of_a_failed_project() {
    let mut config = Config::default();
    config.projects.insert(
        "a".to_string(),
        instance_project("/a", vec![("build", vec![instance_step(&["bad"]), instance_broken_step()])]),
    );
    config.projects.insert(
        "b".to_string(),
        instance_project("/b", vec![("build", vec![instance_step(&["fine"])])]),
    );
    let instance = Instance::with_config("/c.yaml".to_string(), config);
    let mut run = instance.cmd_run(instance_names(&["build"]), None, false);
    let (log, cause) =
        instance_drive(&mut run, &|label| if label == "a:bad" { Ran::Failure } else { Ran::Success });
    assert_eq!(log, vec!["run a:bad", "run b:fine"]);
    assert_eq!(cause, None);
}

#[test]
fn cmd_run_global_runs_the_commands_in_the_directory_of_the_file() {
    let instance = instance_sample();
    let mut run = instance.cmd_run_global(instance_names(&["lint", "fmt"]), false);
    assert_eq!(
        run.unit(0).unwrap().kind,
        UnitKind::Command(nix_shell(
            "/etc/procon",
            None,
            &instance_names(&["g1"]),
            true,
            "global",
            "/etc/procon"
        ))
    );
    let (log, cause) = instance_drive(&mut run, &|_| Ran::Success);
    assert_eq!(log, vec!["run lint:g1", "run lint:g2", "run fmt:g3"]);
    assert_eq!(cause, None);
}

#[test]
fn cmd_run_global_stops_at_the_first_failure() {
    let instance = instance_sample();
    let mut run = instance.cmd_run_global(instance_names(&["lint", "fmt"]), false);
    let (log, cause) =
        instance_drive(&mut run, &|label| if label == "lint:g2" { Ran::Failure } else { Ran::Success });
    assert_eq!(log, vec!["run lint:g1", "run lint:g2"]);
    assert_eq!(cause, Some(Cause::Failed));
    assert_eq!(run.next(), Move::Finished);

    let mut run = instance.cmd_run_global(instance_names(&["lint", "fmt"]), false);
    let (log, cause) = instance_drive(&mut run, &|_| Ran::NotStarted);
    assert_eq!(log, vec!["run lint:g1"]);
    assert_eq!(cause, Some(Cause::NotStarted));
}

#[test]
fn cmd_run_global_stops_at_an_unknown_command_after_running_the_earlier_ones() {
    let instance = instance_sample();
    let mut run = instance.cmd_run_global(instance_names(&["fmt", "nope", "lint"]), false);
    let (log, cause) = instance_drive(&mut run, &|_| Ran::Success);
    assert_eq!(log, vec!["run fmt:g3", "abort nope:missing"]);
    assert_eq!(cause, Some(Cause::Missing));
}

#[test]
fn cmd_run_global_dry_run_announces_every_command() {
    let instance = instance_sample();
    let mut run = instance.cmd_run_global(instance_names(&["fmt", "lint"]), true);
    let (log, cause) = instance_drive(&mut run, &|_| Ran::Failure);
    assert_eq!(log, vec!["would run fmt:g3", "would run lint:g1", "would run lint:g2"]);
    assert_eq!(cause, None);
}

#[test]
fn run_repeats_its_move_while_it_waits() {
    let units = vec![Unit {
        owner: "a".to_string(),
        kind: UnitKind::Command(nix_shell("/d", None, &instance_names(&["x"]), true, "a", "/d")),
    }];
    let mut run = Run::new(units, false, false);
    assert_eq!(run.record(Ran::Success), None);
    assert_eq!(run.next(), Move::Run(0));
    assert_eq!(run.next(), Move::Run(0));
    assert_eq!(run.record(Ran::Success), None);
    assert_eq!(run.next(), Move::Finished);
}

#[test]
fn failure_messages_name_the_global_command() {
    assert_eq!(failure_message("deploy", Cause::Missing, ""), "global command 'deploy' not found");
    assert_eq!(failure_message("lint", Cause::Failed, "ignored"), "global command 'lint' failed");
    assert_eq!(
        failure_message("lint", Cause::NotStarted, "No such file or directory (os error 2)"),
        "global command 'lint' error: No such file or directory (os error 2)"
    );
    assert_eq!(failure_message("lint", Cause::Broken, "task not found"), "task not found");
}

#[test]
fn an_unknown_global_command_stops_a_dry_run_at_its_first_move() {
    let instance = Instance::new("procon.yaml".to_string());
    let mut run = instance.cmd_run_global(instance_names(&["deploy"]), true);
    assert_eq!(run.next(), Move::Abort(0, Cause::Missing));
    let unit = run.unit(0).unwrap();
    assert_eq!(
        failure_message(&unit.owner, Cause::Missing, ""),
        "global command 'deploy' not found"
    );
    assert_eq!(run.next(), Move::Finished);
}

#[test]
fn a_dry_run_announces_each_unit_once_and_in_order() {
    let instance = instance_sample();
    let mut run = instance.cmd_run_global(instance_names(&["lint", "fmt"]), true);
    let mut announced = Vec::new();
    loop {
        match run.next() {
            Move::Announce(i) => announced.push(i),
            Move::Finished => break,
            other => panic!("unexpected move {:?}", other),
        }
        assert!(announced.len() <= run.len());
    }
    assert_eq!(announced, vec![0, 1, 2]);
}

#[test]
fn the_default_instance_is_empty() {
    let instance = Instance::default();
    assert_eq!(instance.location(), "");
    assert_eq!(instance.configuration().projects.len(), 0);
    assert_eq!(instance.configuration().tasks.len(), 0);
    assert_eq!(instance.configuration().global.len(), 0);
}
