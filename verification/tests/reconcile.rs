use procon::action::{ConfigChange, Phase};
use procon::dict::Dict;
use procon::project::{Cmds, Phases, Project, ProjectStatus, ServiceConfig, Source};
use procon::reconcile::{compare, contains_name, is_visible, next_state, plan, previous_state};

fn reconcile_project(name: &str, build: &str) -> Project {
    let mut phase = Phases::default();
    phase.build = Cmds::Single(build.to_string());
    Project {
        name: name.to_string(),
        source: Source::Absent,
        deps: Dict::new(),
        phase,
        env: Dict::new(),
        service: ServiceConfig::default(),
        toml_path: "/defs".to_string(),
        status: ProjectStatus::Added,
    }
}

fn reconcile_state(projects: &[(&str, &str)]) -> Dict<Project> {
    let mut d = Dict::new();
    for (name, build) in projects {
        d.insert(name.to_string(), reconcile_project(name, build));
    }
    d
}

#[test]
fn compare_classifies_added_changed_removed() {
    let current = reconcile_state(&[("new", "a"), ("same", "b"), ("edited", "c2")]);
    let previous = reconcile_state(&[("same", "b"), ("edited", "c1"), ("gone", "d")]);
    let changes = compare(&current, &previous, None);
    assert_eq!(changes.len(), 3);
    assert_eq!(changes.get("new"), Some(&ConfigChange::Added));
    assert_eq!(changes.get("edited"), Some(&ConfigChange::Changed));
    assert_eq!(changes.get("gone"), Some(&ConfigChange::Removed));
    assert_eq!(changes.get("same"), None);
}

#[test]
fn compare_of_a_state_with_itself_is_empty() {
    let state = reconcile_state(&[("a", "x"), ("b", "y"), ("c", "z")]);
    assert_eq!(compare(&state, &state, None).len(), 0);
    assert_eq!(compare(&state, &state.clone(), None).len(), 0);
    let empty: Dict<Project> = Dict::new();
    assert_eq!(compare(&empty, &empty, None).len(), 0);
}

#[test]
fn compare_ignores_the_status_of_the_last_run() {
    let current = reconcile_state(&[("a", "x")]);
    let mut previous = reconcile_state(&[("a", "x")]);
    let mut a = reconcile_project("a", "x");
    a.status = ProjectStatus::Failed(Phase::Build);
    previous.insert("a".to_string(), a);
    assert_eq!(compare(&current, &previous, None).len(), 0);
}

#[test]
fn compare_without_previous_state_adds_everything() {
    let current = reconcile_state(&[("a", "x"), ("b", "y")]);
    let previous = previous_state(None);
    assert_eq!(previous.len(), 0);
    let changes = compare(&current, &previous, None);
    assert_eq!(changes.len(), 2);
    assert_eq!(changes.get("a"), Some(&ConfigChange::Added));
    assert_eq!(changes.get("b"), Some(&ConfigChange::Added));
    let kept = previous_state(Some(reconcile_state(&[("a", "x")])));
    assert_eq!(kept.len(), 1);
}

#[test]
fn compare_with_a_filter_sees_only_the_named_projects() {
    let current = reconcile_state(&[("new", "a"), ("edited", "c2"), ("other", "o")]);
    let previous = reconcile_state(&[("edited", "c1"), ("gone", "d"), ("gone2", "e")]);
    let filter = vec!["new".to_string(), "gone".to_string(), "absent".to_string()];
    let changes = compare(&current, &previous, Some(&filter));
    assert_eq!(changes.len(), 2);
    assert_eq!(changes.get("new"), Some(&ConfigChange::Added));
    assert_eq!(changes.get("gone"), Some(&ConfigChange::Removed));
    assert_eq!(changes.get("edited"), None);
    assert_eq!(changes.get("other"), None);
    assert_eq!(changes.get("gone2"), None);
    let nothing: Vec<String> = Vec::new();
    assert_eq!(compare(&current, &previous, Some(&nothing)).len(), 0);
}

#[test]
fn plan_gives_each_change_its_phases() {
    let current = reconcile_state(&[("new", "a"), ("same", "b"), ("edited", "c2")]);
    let previous = reconcile_state(&[("same", "b"), ("edited", "c1"), ("gone", "d")]);
    let phases = plan(&current, &previous, None);
    assert_eq!(phases.len(), 3);
    assert_eq!(phases.get("new"), Some(&vec![Phase::Setup, Phase::Build, Phase::Start]));
    assert_eq!(
        phases.get("edited"),
        Some(&vec![Phase::Teardown, Phase::Setup, Phase::Build, Phase::Start])
    );
    assert_eq!(phases.get("gone"), Some(&vec![Phase::Stop, Phase::Teardown]));
    assert_eq!(phases.get("same"), None);
    assert_eq!(
        phases.key_list(),
        vec!["edited".to_string(), "gone".to_string(), "new".to_string()]
    );
}

#[test]
fn visibility_follows_the_filter() {
    let names = vec!["a".to_string(), "b".to_string()];
    assert!(is_visible(None, "z"));
    assert!(is_visible(Some(&names), "a"));
    assert!(!is_visible(Some(&names), "z"));
    assert!(contains_name(&names, "b"));
    assert!(!contains_name(&names, ""));
}

#[test]
fn next_state_without_a_filter_is_the_current_state() {
    let current = reconcile_state(&[("new", "a"), ("edited", "c2")]);
    let previous = reconcile_state(&[("edited", "c1"), ("gone", "d")]);
    assert_eq!(next_state(&current, &previous, None), current);
    assert_eq!(compare(&current, &next_state(&current, &previous, None), None).len(), 0);
}

#[test]
fn next_state_keeps_what_the_filter_hides_as_it_was() {
    let current = reconcile_state(&[("new", "a"), ("edited", "c2"), ("hidden", "h2"), ("born", "b")]);
    let previous = reconcile_state(&[("edited", "c1"), ("gone", "d"), ("hidden", "h1"), ("lost", "l")]);
    let filter = vec!["new".to_string(), "edited".to_string(), "gone".to_string()];
    let state = next_state(&current, &previous, Some(&filter));
    assert_eq!(
        state.key_list(),
        vec!["edited".to_string(), "hidden".to_string(), "lost".to_string(), "new".to_string()]
    );
    assert_eq!(state.get("edited"), current.get("edited"));
    assert_eq!(state.get("new"), current.get("new"));
    assert_eq!(state.get("hidden"), previous.get("hidden"));
    assert_eq!(state.get("lost"), previous.get("lost"));
    assert_eq!(state.get("gone"), None);
    assert_eq!(state.get("born"), None);

    // What the run looked at is settled; what it did not look at is still found later.
    assert_eq!(compare(&current, &state, Some(&filter)).len(), 0);
    let later = compare(&current, &state, None);
    assert_eq!(later.get("hidden"), Some(&ConfigChange::Changed));
    assert_eq!(later.get("born"), Some(&ConfigChange::Added));
    assert_eq!(later.get("lost"), Some(&ConfigChange::Removed));
    assert_eq!(later.len(), 3);
}
