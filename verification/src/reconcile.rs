//! Reconciliation: which projects were added, changed or removed since the last applied
//! state, and which phases each of them has to go through.

use crate::action::{ConfigChange, Phase};
use crate::dict::{lemma_entry, Alike, Dict};
use crate::project::{Project, ProjectView};
use vstd::prelude::*;

verus! {

/// Whether a run looks at `name`: with no filter it looks at every name, with a filter
/// at the names in it.
pub open spec fn visible(filter: Option<Seq<Seq<char>>>, name: Seq<char>) -> bool {
    match filter {
        None => true,
        Some(names) => names.contains(name),
    }
}

/// How the project `name` differs between the two states, if it does: added where only
/// the current state has it, removed where only the previous state has it, changed where
/// both have it and declare it differently.
pub open spec fn change_of(
    current: Map<Seq<char>, ProjectView>,
    previous: Map<Seq<char>, ProjectView>,
    name: Seq<char>,
) -> Option<ConfigChange> {
    if current.dom().contains(name) {
        if !previous.dom().contains(name) {
            Some(ConfigChange::Added)
        } else if current[name].same_declaration(previous[name]) {
            None
        } else {
            Some(ConfigChange::Changed)
        }
    } else if previous.dom().contains(name) {
        Some(ConfigChange::Removed)
    } else {
        None
    }
}

/// The changes between the two states, over the names that the run looks at.
pub open spec fn changes(
    current: Map<Seq<char>, ProjectView>,
    previous: Map<Seq<char>, ProjectView>,
    filter: Option<Seq<Seq<char>>>,
) -> Map<Seq<char>, ConfigChange> {
    Map::new(
        |name: Seq<char>| visible(filter, name) && change_of(current, previous, name) is Some,
        |name: Seq<char>| change_of(current, previous, name)->0,
    )
}

/// The phases to run for each changed project.
pub open spec fn planned(
    current: Map<Seq<char>, ProjectView>,
    previous: Map<Seq<char>, ProjectView>,
    filter: Option<Seq<Seq<char>>>,
) -> Map<Seq<char>, Seq<Phase>> {
    Map::new(
        |name: Seq<char>| changes(current, previous, filter).dom().contains(name),
        |name: Seq<char>| changes(current, previous, filter)[name].phases(),
    )
}

/// A project that both states hold, declared alike in both, is not among the changes.
pub proof fn lemma_unchanged_is_absent(
    current: Map<Seq<char>, ProjectView>,
    previous: Map<Seq<char>, ProjectView>,
    filter: Option<Seq<Seq<char>>>,
    name: Seq<char>,
)
    requires
        current.dom().contains(name),
        previous.dom().contains(name),
        current[name].same_declaration(previous[name]),
    ensures
        !changes(current, previous, filter).dom().contains(name),
        !planned(current, previous, filter).dom().contains(name),
{
}

/// Comparing a state with itself finds no change.
pub proof fn lemma_no_change_against_itself(
    state: Map<Seq<char>, ProjectView>,
    filter: Option<Seq<Seq<char>>>,
)
    ensures
        changes(state, state, filter) == Map::<Seq<char>, ConfigChange>::empty(),
{
    assert(changes(state, state, filter) =~= Map::<Seq<char>, ConfigChange>::empty());
}

/// What one comparison finds added, the comparison the other way round finds removed.
pub proof fn lemma_added_mirrors_removed(
    current: Map<Seq<char>, ProjectView>,
    previous: Map<Seq<char>, ProjectView>,
    filter: Option<Seq<Seq<char>>>,
    name: Seq<char>,
)
    ensures
        (changes(current, previous, filter).dom().contains(name) && changes(
            current,
            previous,
            filter,
        )[name] == ConfigChange::Added) <==> (changes(previous, current, filter).dom().contains(name)
            && changes(previous, current, filter)[name] == ConfigChange::Removed),
{
}

/// A project outside the filter is not among the changes, whatever became of it.
pub proof fn lemma_filter_hides(
    current: Map<Seq<char>, ProjectView>,
    previous: Map<Seq<char>, ProjectView>,
    names: Seq<Seq<char>>,
    name: Seq<char>,
)
    requires
        !names.contains(name),
    ensures
        !changes(current, previous, Some(names)).dom().contains(name),
{
}

/// The phases planned for a project are those of its change: setup, build and start for
/// an added one, a teardown before them for a changed one, stop and teardown for a
/// removed one.
pub proof fn lemma_planned_phases(
    current: Map<Seq<char>, ProjectView>,
    previous: Map<Seq<char>, ProjectView>,
    filter: Option<Seq<Seq<char>>>,
    name: Seq<char>,
)
    requires
        planned(current, previous, filter).dom().contains(name),
    ensures
        changes(current, previous, filter)[name] == ConfigChange::Added ==> planned(
            current,
            previous,
            filter,
        )[name] == seq![Phase::Setup, Phase::Build, Phase::Start],
        changes(current, previous, filter)[name] == ConfigChange::Changed ==> planned(
            current,
            previous,
            filter,
        )[name] == seq![Phase::Teardown, Phase::Setup, Phase::Build, Phase::Start],
        changes(current, previous, filter)[name] == ConfigChange::Removed ==> planned(
            current,
            previous,
            filter,
        )[name] == seq![Phase::Stop, Phase::Teardown],
{
}

/// The state to compare with: the one that was read, or an empty one where none could be
/// read. That there is no earlier state is no error.
pub fn previous_state(loaded: Option<Dict<Project>>) -> (r: Dict<Project>)
    ensures
        r.deep_view() == (match loaded {
            Some(state) => state.deep_view(),
            None => Map::<Seq<char>, ProjectView>::empty(),
        }),
{
    match loaded {
        Some(state) => state,
        None => {
            let r: Dict<Project> = Dict::new();
            assert(r.deep_view() =~= Map::<Seq<char>, ProjectView>::empty());
            r
        },
    }
}

/// Whether the run looks at `name`.
pub fn is_visible(filter: Option<&Vec<String>>, name: &str) -> (r: bool)
    ensures
        r == visible(filter.deep_view(), name@),
{
    match filter {
        None => true,
        Some(names) => contains_name(names, name),
    }
}

/// Whether `name` is among `names`.
pub fn contains_name(names: &Vec<String>, name: &str) -> (r: bool)
    ensures
        r == names.deep_view().contains(name@),
{
    let mut i: usize = 0;
    while i < names.len()
        invariant
            i <= names.len(),
            forall|j: int| 0 <= j < i ==> names[j]@ != name@,
        decreases names.len() - i,
    {
        if crate::text::same(names[i].as_str(), name) {
            assert(names.deep_view()[i as int] == name@);
            return true;
        }
        i += 1;
    }
    false
}

/// Compares the current state with the previous one. A project that only the current
/// state has is `Added`, one that only the previous state has is `Removed`, one that both
/// have and declare differently is `Changed`; one that both declare alike is left out.
/// With a filter, only the names in it are looked at.
///
/// The status of the last run plays no part: a project that failed then and is declared
/// as before is not taken up again.
pub fn compare(current: &Dict<Project>, previous: &Dict<Project>, filter: Option<&Vec<String>>) -> (r:
    Dict<ConfigChange>)
    ensures
        r.map() == changes(current.deep_view(), previous.deep_view(), filter.deep_view()),
{
    let ghost cur = current.deep_view();
    let ghost prev = previous.deep_view();
    let ghost fil = filter.deep_view();
    let mut r: Dict<ConfigChange> = Dict::new();
    let n = current.len();
    let m = previous.len();
    let mut i: usize = 0;
    while i < n
        invariant
            i <= n,
            n == current.keys().len(),
            current.wf(),
            previous.wf(),
            cur == current.deep_view(),
            prev == previous.deep_view(),
            fil == filter.deep_view(),
            forall|name: Seq<char>| #[trigger]
                r.has(name) ==> current.has(name) && current.position(name) < i && changes(
                    cur,
                    prev,
                    fil,
                ).dom().contains(name) && r.value_of(name) == changes(cur, prev, fil)[name],
            forall|j: int|
                0 <= j < i && changes(cur, prev, fil).dom().contains(#[trigger] current.keys()[j])
                    ==> r.has(current.keys()[j]),
        decreases n - i,
    {
        let name = current.key_at(i);
        let project = current.value_at(i);
        proof {
            lemma_entry(current, i as int);
        }
        if is_visible(filter, name.as_str()) {
            match previous.get(name.as_str()) {
                None => {
                    r.insert(name.clone(), ConfigChange::Added);
                },
                Some(before) => {
                    if !project.non_status_equal(before) {
                        r.insert(name.clone(), ConfigChange::Changed);
                    }
                },
            }
        }
        i += 1;
    }
    let mut j: usize = 0;
    while j < m
        invariant
            j <= m,
            m == previous.keys().len(),
            current.wf(),
            previous.wf(),
            cur == current.deep_view(),
            prev == previous.deep_view(),
            fil == filter.deep_view(),
            forall|name: Seq<char>| #[trigger]
                r.has(name) ==> changes(cur, prev, fil).dom().contains(name) && r.value_of(name)
                    == changes(cur, prev, fil)[name] && (current.has(name) || previous.position(
                    name,
                ) < j),
            forall|name: Seq<char>|
                current.has(name) && changes(cur, prev, fil).dom().contains(name) ==> #[trigger] r.has(
                    name,
                ),
            forall|k: int|
                0 <= k < j && changes(cur, prev, fil).dom().contains(#[trigger] previous.keys()[k])
                    ==> r.has(previous.keys()[k]),
        decreases m - j,
    {
        let name = previous.key_at(j);
        proof {
            lemma_entry(previous, j as int);
        }
        if is_visible(filter, name.as_str()) && !current.contains_key(name.as_str()) {
            r.insert(name.clone(), ConfigChange::Removed);
        }
        j += 1;
    }
    proof {
        assert forall|name: Seq<char>| changes(cur, prev, fil).dom().contains(name) implies r.has(
            name,
        ) by {
            if !current.has(name) {
                let k = previous.keys().index_of(name);
                lemma_entry(previous, k);
            }
        }
        assert(r.map() =~= changes(cur, prev, fil));
    }
    r
}

/// The phases to run for each project that changed: those that `compare` finds, each
/// with the phases of its change.
pub fn plan(current: &Dict<Project>, previous: &Dict<Project>, filter: Option<&Vec<String>>) -> (r:
    Dict<Vec<Phase>>)
    ensures
        forall|name: Seq<char>|
            r.has(name) == planned(
                current.deep_view(),
                previous.deep_view(),
                filter.deep_view(),
            ).dom().contains(name),
        forall|name: Seq<char>| #[trigger]
            r.has(name) ==> r.value_of(name)@ == planned(
                current.deep_view(),
                previous.deep_view(),
                filter.deep_view(),
            )[name],
{
    let found = compare(current, previous, filter);
    let mut r: Dict<Vec<Phase>> = Dict::new();
    let n = found.len();
    let mut i: usize = 0;
    while i < n
        invariant
            i <= n,
            n == found.keys().len(),
            found.wf(),
            forall|name: Seq<char>| #[trigger]
                r.has(name) ==> found.has(name) && found.position(name) < i && r.value_of(name)@
                    == found.value_of(name).phases(),
            forall|j: int| 0 <= j < i ==> r.has(#[trigger] found.keys()[j]),
        decreases n - i,
    {
        let name = found.key_at(i);
        proof {
            lemma_entry(&found, i as int);
        }
        r.insert(name.clone(), found.value_at(i).to_phases());
        i += 1;
    }
    proof {
        assert forall|name: Seq<char>| found.has(name) implies r.has(name) by {
            let k = found.keys().index_of(name);
            lemma_entry(&found, k);
        }
    }
    r
}

/// The state that a run leaves behind: of the projects that the run looked at, those
/// declared now, as they are declared; of the others, what the state before held. A
/// project outside the filter keeps its old entry, so that a change of its declaration is
/// still found when a later run looks at it.
pub open spec fn state_after(
    current: Map<Seq<char>, ProjectView>,
    previous: Map<Seq<char>, ProjectView>,
    filter: Option<Seq<Seq<char>>>,
) -> Map<Seq<char>, ProjectView> {
    Map::new(
        |name: Seq<char>|
            if visible(filter, name) {
                current.dom().contains(name)
            } else {
                previous.dom().contains(name)
            },
        |name: Seq<char>|
            if visible(filter, name) {
                current[name]
            } else {
                previous[name]
            },
    )
}

/// Without a filter the state that a run leaves behind is the current one.
pub proof fn lemma_state_after_all(
    current: Map<Seq<char>, ProjectView>,
    previous: Map<Seq<char>, ProjectView>,
)
    ensures
        state_after(current, previous, None) == current,
{
    assert(state_after(current, previous, None) =~= current);
}

/// Comparing the declared projects with the state that a run left behind finds, among
/// what that run looked at, no change.
pub proof fn lemma_state_after_settles(
    current: Map<Seq<char>, ProjectView>,
    previous: Map<Seq<char>, ProjectView>,
    filter: Option<Seq<Seq<char>>>,
)
    ensures
        changes(current, state_after(current, previous, filter), filter) == Map::<
            Seq<char>,
            ConfigChange,
        >::empty(),
{
    assert(changes(current, state_after(current, previous, filter), filter) =~= Map::<
        Seq<char>,
        ConfigChange,
    >::empty());
}

/// The state to write after a run over `current` that compared it with `previous`
/// under `filter`.
pub fn next_state(current: &Dict<Project>, previous: &Dict<Project>, filter: Option<&Vec<String>>) -> (r:
    Dict<Project>)
    ensures
        r.deep_view() == state_after(
            current.deep_view(),
            previous.deep_view(),
            filter.deep_view(),
        ),
{
    let ghost fil = filter.deep_view();
    let mut r: Dict<Project> = Dict::new();
    let n = current.len();
    let m = previous.len();
    let mut i: usize = 0;
    while i < n
        invariant
            i <= n,
            n == current.keys().len(),
            current.wf(),
            fil == filter.deep_view(),
            forall|name: Seq<char>| #[trigger]
                r.has(name) <==> visible(fil, name) && current.has(name) && current.position(name)
                    < i,
            forall|name: Seq<char>| #[trigger]
                r.has(name) ==> r.value_of(name)@ == current.value_of(name)@,
        decreases n - i,
    {
        let name = current.key_at(i);
        proof {
            lemma_entry(current, i as int);
        }
        if is_visible(filter, name.as_str()) {
            r.insert(name.clone(), current.value_at(i).copy());
        }
        i += 1;
    }
    proof {
        assert forall|name: Seq<char>| visible(fil, name) && current.has(name) implies r.has(
            name,
        ) by {
            let k = current.keys().index_of(name);
            lemma_entry(current, k);
        }
    }
    let mut j: usize = 0;
    while j < m
        invariant
            j <= m,
            m == previous.keys().len(),
            previous.wf(),
            fil == filter.deep_view(),
            forall|name: Seq<char>| #[trigger]
                r.has(name) <==> (visible(fil, name) && current.has(name)) || (!visible(fil, name)
                    && previous.has(name) && previous.position(name) < j),
            forall|name: Seq<char>| #[trigger]
                r.has(name) ==> r.value_of(name)@ == (if visible(fil, name) {
                    current.value_of(name)@
                } else {
                    previous.value_of(name)@
                }),
        decreases m - j,
    {
        let name = previous.key_at(j);
        proof {
            lemma_entry(previous, j as int);
        }
        if !is_visible(filter, name.as_str()) {
            r.insert(name.clone(), previous.value_at(j).copy());
        }
        j += 1;
    }
    proof {
        assert forall|name: Seq<char>| !visible(fil, name) && previous.has(name) implies r.has(
            name,
        ) by {
            let k = previous.keys().index_of(name);
            lemma_entry(previous, k);
        }
        assert(r.deep_view() =~= state_after(current.deep_view(), previous.deep_view(), fil));
    }
    r
}

} // verus!
