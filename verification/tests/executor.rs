use procon::action::{
    Action, ActionKind, ActionKindCommand, ActionKindFilesystem, ActionKindSystemCtl, ActionStatus,
    Phase,
};
use procon::executor::{arrange, outcome_of, Directive, Ended, Executor, Outcome, Settings};
use procon::project::Cmds;

const REAL: Settings = Settings { safe_mode: false, dry_run: false };

fn exec_command(name: &str, phase: Phase, cmd: &str) -> Action {
    Action::new(
        name,
        phase,
        ActionKind::Command(ActionKindCommand::NixShell(
            "/d".to_string(),
            vec![],
            Cmds::Single(cmd.to_string()),
        )),
    )
}

fn exec_write(name: &str, phase: Phase) -> Action {
    Action::new(
        name,
        phase,
        ActionKind::Filesystem(ActionKindFilesystem::Write("/f".to_string(), "x".to_string())),
    )
}

fn exec_restart(name: &str) -> Action {
    Action::new(
        name,
        Phase::Start,
        ActionKind::SystemCtl(ActionKindSystemCtl::Restart(format!("procon-{name}.service"))),
    )
}

fn exec_stop(name: &str) -> Action {
    Action::new(
        name,
        Phase::Stop,
        ActionKind::SystemCtl(ActionKindSystemCtl::Stop(format!("procon-{name}.service"))),
    )
}

/// Drives a run to its end. `fails` says for an action why it fails, if it does;
/// `reload_fails` says whether the reload fails. The log holds every directive.
fn exec_drive(
    ex: &mut Executor,
    fails: &dyn Fn(&Action) -> Option<String>,
    reload_fails: bool,
) -> Vec<Directive> {
    let mut log = Vec::new();
    loop {
        let d = ex.next();
        log.push(d);
        match d {
            Directive::Prepare => {}
            Directive::Reload => {
                let outcome = if reload_fails {
                    Outcome::Fail("reload failed".to_string())
                } else {
                    Outcome::Done
                };
                assert!(ex.record(outcome));
            }
            Directive::Run(i) => {
                let action = ex.action(i).unwrap();
                assert_eq!(action.status, ActionStatus::Todo);
                let outcome = match fails(action) {
                    Some(reason) => Outcome::Fail(reason),
                    None => Outcome::Done,
                };
                assert!(ex.record(outcome));
            }
            Directive::Report(_) => {}
            Directive::Finished => return log,
        }
        assert!(log.len() < 1000);
    }
}

fn exec_statuses(ex: &Executor) -> Vec<ActionStatus> {
    ex.actions_so_far().iter().map(|a| a.status.clone()).collect()
}

fn exec_mixed_plan() -> Vec<Action> {
    vec![
        exec_command("a", Phase::Setup, "a-setup"),
        exec_command("a", Phase::Build, "a-build"),
        exec_restart("a"),
        exec_command("b", Phase::Teardown, "b-teardown"),
        exec_command("b", Phase::Setup, "b-setup"),
        exec_command("b", Phase::Build, "b-build"),
        exec_restart("b"),
        exec_stop("c"),
        exec_command("c", Phase::Teardown, "c-teardown"),
        exec_command("d", Phase::Update, "d-update"),
    ]
}

#[test]
fn arrange_groups_by_phase_and_keeps_the_order_within_a_phase() {
    let plan = exec_mixed_plan();
    assert_eq!(arrange(&plan), vec![3, 8, 0, 4, 9, 1, 5, 2, 6, 7]);
    assert_eq!(arrange(&Vec::new()), Vec::<usize>::new());
}

#[test]
fn actions_run_phase_by_phase_over_all_projects() {
    let plan = exec_mixed_plan();
    let mut ex = Executor::new(plan.clone(), REAL, vec!["/units".to_string()]);
    let log = exec_drive(&mut ex, &|_| None, false);
    let ran: Vec<usize> = log
        .iter()
        .filter_map(|d| match d {
            Directive::Run(i) => Some(*i),
            _ => None,
        })
        .collect();
    assert_eq!(ran, vec![3, 8, 0, 4, 9, 1, 5, 2, 6, 7]);
    for pair in ran.windows(2) {
        assert!(plan[pair[0]].phase <= plan[pair[1]].phase);
    }
    assert!(exec_statuses(&ex).iter().all(|s| *s == ActionStatus::Done));
    assert!(ex.is_finished());
}

#[test]
fn directories_come_first_and_one_reload_comes_before_the_first_start() {
    let mut ex = Executor::new(exec_mixed_plan(), REAL, vec!["/units".to_string()]);
    assert_eq!(ex.directories(), &vec!["/units".to_string()]);
    let log = exec_drive(&mut ex, &|_| None, false);
    assert_eq!(
        log,
        vec![
            Directive::Prepare,
            Directive::Run(3),
            Directive::Run(8),
            Directive::Run(0),
            Directive::Run(4),
            Directive::Run(9),
            Directive::Run(1),
            Directive::Run(5),
            Directive::Reload,
            Directive::Run(2),
            Directive::Run(6),
            Directive::Run(7),
            Directive::Finished,
        ]
    );
}

#[test]
fn a_run_without_start_actions_asks_for_no_reload() {
    let plan = vec![exec_stop("c"), exec_command("c", Phase::Teardown, "t")];
    let mut ex = Executor::new(plan, REAL, vec![]);
    let log = exec_drive(&mut ex, &|_| None, false);
    assert_eq!(
        log,
        vec![Directive::Prepare, Directive::Run(1), Directive::Run(0), Directive::Finished]
    );
}

#[test]
fn a_failed_setup_cancels_the_rest_of_its_project_only() {
    let plan = vec![
        exec_command("a", Phase::Setup, "a-setup-1"),
        exec_command("a", Phase::Setup, "a-setup-2"),
        exec_command("a", Phase::Build, "a-build"),
        exec_restart("a"),
        exec_command("b", Phase::Setup, "b-setup"),
        exec_command("b", Phase::Build, "b-build"),
        exec_restart("b"),
    ];
    let mut ex = Executor::new(plan, REAL, vec![]);
    let fails = |a: &Action| {
        if a.project_name == "a" && a.phase == Phase::Setup {
            Some("exit 1".to_string())
        } else {
            None
        }
    };
    let log = exec_drive(&mut ex, &fails, false);
    assert_eq!(
        exec_statuses(&ex),
        vec![
            ActionStatus::Fail("exit 1".to_string()),
            ActionStatus::Cancelled,
            ActionStatus::Cancelled,
            ActionStatus::Cancelled,
            ActionStatus::Done,
            ActionStatus::Done,
            ActionStatus::Done,
        ]
    );
    assert_eq!(ex.failed_projects(), &vec!["a".to_string()]);
    let ran: Vec<usize> = log
        .iter()
        .filter_map(|d| match d {
            Directive::Run(i) => Some(*i),
            _ => None,
        })
        .collect();
    assert_eq!(ran, vec![0, 4, 5, 6]);
}

#[test]
fn a_failure_in_a_later_phase_leaves_earlier_actions_done() {
    let plan = vec![
        exec_command("a", Phase::Setup, "s"),
        exec_command("a", Phase::Build, "b"),
        exec_restart("a"),
    ];
    let mut ex = Executor::new(plan, REAL, vec![]);
    let fails = |a: &Action| if a.phase == Phase::Build { Some("no".to_string()) } else { None };
    exec_drive(&mut ex, &fails, false);
    assert_eq!(
        exec_statuses(&ex),
        vec![ActionStatus::Done, ActionStatus::Fail("no".to_string()), ActionStatus::Cancelled]
    );
}

#[test]
fn safe_mode_answers_every_service_request_itself() {
    let settings = Settings { safe_mode: true, dry_run: false };
    let mut ex = Executor::new(exec_mixed_plan(), settings, vec![]);
    let log = exec_drive(&mut ex, &|_| None, false);
    for d in &log {
        assert_ne!(*d, Directive::Reload);
        if let Directive::Run(i) = d {
            assert!(!matches!(ex.action(*i).unwrap().kind, ActionKind::SystemCtl(_)));
        }
    }
    assert!(exec_statuses(&ex).iter().all(|s| *s == ActionStatus::Done));
}

#[test]
fn safe_mode_with_only_service_requests_hands_out_nothing() {
    let settings = Settings { safe_mode: true, dry_run: false };
    let mut ex = Executor::new(vec![exec_restart("a"), exec_stop("b")], settings, vec![]);
    let log = exec_drive(&mut ex, &|_| None, false);
    assert_eq!(log, vec![Directive::Prepare, Directive::Finished]);
    assert_eq!(exec_statuses(&ex), vec![ActionStatus::Done, ActionStatus::Done]);
}

#[test]
fn safe_mode_still_cancels_the_requests_of_a_failed_project() {
    let settings = Settings { safe_mode: true, dry_run: false };
    let plan = vec![exec_command("a", Phase::Setup, "s"), exec_restart("a"), exec_restart("b")];
    let mut ex = Executor::new(plan, settings, vec![]);
    exec_drive(&mut ex, &|_| Some("bad".to_string()), false);
    assert_eq!(
        exec_statuses(&ex),
        vec![ActionStatus::Fail("bad".to_string()), ActionStatus::Cancelled, ActionStatus::Done]
    );
}

#[test]
fn a_dry_run_reports_every_action_and_changes_no_status() {
    let settings = Settings { safe_mode: false, dry_run: true };
    let mut ex = Executor::new(exec_mixed_plan(), settings, vec!["/units".to_string()]);
    let log = exec_drive(&mut ex, &|_| Some("never asked".to_string()), true);
    let expected: Vec<Directive> = [3, 8, 0, 4, 9, 1, 5, 2, 6, 7]
        .iter()
        .map(|i| Directive::Report(*i))
        .chain(std::iter::once(Directive::Finished))
        .collect();
    assert_eq!(log, expected);
    assert!(exec_statuses(&ex).iter().all(|s| *s == ActionStatus::Todo));
}

#[test]
fn a_failed_reload_cancels_the_start_phase_and_nothing_else() {
    let plan = vec![
        exec_command("a", Phase::Build, "b"),
        exec_restart("a"),
        exec_restart("b"),
        exec_stop("c"),
    ];
    let mut ex = Executor::new(plan, REAL, vec![]);
    let log = exec_drive(&mut ex, &|_| None, true);
    assert_eq!(
        log,
        vec![
            Directive::Prepare,
            Directive::Run(0),
            Directive::Reload,
            Directive::Run(3),
            Directive::Finished
        ]
    );
    assert_eq!(
        exec_statuses(&ex),
        vec![
            ActionStatus::Done,
            ActionStatus::Cancelled,
            ActionStatus::Cancelled,
            ActionStatus::Done
        ]
    );
    assert!(ex.failed_projects().is_empty());
}

#[test]
fn new_resets_every_status_to_todo() {
    let mut a = exec_write("a", Phase::Setup);
    a.mark_failed("old".to_string());
    let mut b = exec_write("b", Phase::Setup);
    b.mark_done();
    let ex = Executor::new(vec![a, b], REAL, vec![]);
    assert_eq!(exec_statuses(&ex), vec![ActionStatus::Todo, ActionStatus::Todo]);
    assert!(!ex.is_finished());
}

#[test]
fn next_repeats_itself_while_an_outcome_is_awaited() {
    let mut ex = Executor::new(vec![exec_write("a", Phase::Setup)], REAL, vec![]);
    assert!(!ex.record(Outcome::Done));
    assert_eq!(ex.next(), Directive::Prepare);
    assert!(!ex.record(Outcome::Done));
    assert_eq!(ex.next(), Directive::Run(0));
    assert_eq!(ex.next(), Directive::Run(0));
    assert!(ex.record(Outcome::Done));
    assert!(!ex.record(Outcome::Done));
    assert_eq!(ex.next(), Directive::Finished);
    assert_eq!(ex.next(), Directive::Finished);
    assert_eq!(ex.action(0).unwrap().status, ActionStatus::Done);
    assert_eq!(ex.action(1), None);
    assert_eq!(ex.into_actions().len(), 1);
}

#[test]
fn an_empty_plan_finishes_at_once() {
    let mut ex = Executor::new(vec![], REAL, vec![]);
    assert_eq!(ex.next(), Directive::Prepare);
    assert_eq!(ex.next(), Directive::Finished);
    assert!(ex.is_finished());
}

#[test]
fn the_outcome_of_a_process_is_done_only_on_success() {
    assert_eq!(
        outcome_of(Ended::Exited { success: true, errors: "warning".to_string() }),
        Outcome::Done
    );
    assert_eq!(
        outcome_of(Ended::Exited { success: false, errors: "boom".to_string() }),
        Outcome::Fail("boom".to_string())
    );
    assert_eq!(
        outcome_of(Ended::NotStarted("No such file or directory".to_string())),
        Outcome::Fail("No such file or directory".to_string())
    );
}
