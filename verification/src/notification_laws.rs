//! What every poll of the notification observer keeps, proved over the
//! model in `notifications`.
use crate::notifications::{
    id_is, key_is, mark_presence, observe_prs, observe_project, observe_projects, option_seq,
    pr_event, pr_step, remembered, remembered_project, spec_material_revision,
    spec_material_update, spec_observe, EventView, ObservationView, ProjectObservationView,
    ProjectView, PullRequestView, StateView, StepAcc, keys_unique, state_unique,
};
use crate::text::{
    decimal, first_match, lemma_first_match_at, lemma_first_match_same, lemma_first_match_some,
    lemma_upsert_other, lemma_upsert_same, upsert,
};
use vstd::prelude::*;

verus! {

/// The key under which a pull request is remembered.
pub open spec fn pr_key(pr: PullRequestView) -> Seq<char> {
    decimal(pr.number as nat)
}

/// Whether no earlier pull request in `prs` has the same number as `prs[j]`.
pub open spec fn first_occurrence(prs: Seq<PullRequestView>, j: int) -> bool {
    forall|m: int| 0 <= m < j ==> pr_key(#[trigger] prs[m]) != pr_key(prs[j])
}

/// Whether some pull request in `prs` is remembered under `key`.
pub open spec fn has_key(prs: Seq<PullRequestView>, key: Seq<char>) -> bool {
    exists|m: int| 0 <= m < prs.len() && pr_key(#[trigger] prs[m]) == key
}

/// Whether no two available projects of a poll share an identifier.
pub open spec fn distinct_available_ids(projects: Seq<ProjectView>) -> bool {
    forall|i: int, j: int|
        0 <= i < j < projects.len() && (#[trigger] projects[i]).available
            && (#[trigger] projects[j]).available ==> projects[i].id != projects[j].id
}

/// Whether `key` is remembered in `entries` with this revision.
pub open spec fn recorded_with(entries: Seq<ObservationView>, key: Seq<char>, revision: Seq<char>) -> bool {
    match remembered(entries, key) {
        Some(o) => o.revision == revision,
        None => false,
    }
}

/// Whether `key` is remembered in `entries`, present, with this revision.
pub open spec fn recorded_present_with(entries: Seq<ObservationView>, key: Seq<char>, revision: Seq<char>) -> bool {
    match remembered(entries, key) {
        Some(o) => o.present && o.revision == revision,
        None => false,
    }
}

proof fn lemma_remembered_after_upsert_other(entries: Seq<ObservationView>, k: Seq<char>, v: ObservationView, k2: Seq<char>)
    requires
        v.key == k,
        k != k2,
    ensures
        remembered(upsert(entries, key_is(k), v), k2) == remembered(entries, k2),
{
    assert forall|x: ObservationView| #[trigger] key_is(k)(x) implies !key_is(k2)(x) by {}
    lemma_upsert_other(entries, key_is(k2), key_is(k), v);
}

proof fn lemma_remembered_after_upsert_same(entries: Seq<ObservationView>, k: Seq<char>, v: ObservationView)
    requires
        v.key == k,
    ensures
        remembered(upsert(entries, key_is(k), v), k) == Some(v),
{
    lemma_upsert_same(entries, key_is(k), v);
}

/// What one pass over the pull requests leaves behind: exactly their keys
/// are seen, and each is remembered with the revision of its first occurrence.
proof fn lemma_observe_prs_records(
    project: ProjectView,
    was: bool,
    start: StepAcc,
    prs: Seq<PullRequestView>,
)
    requires
        start.seen == Seq::<Seq<char>>::empty(),
    ensures
        forall|k: Seq<char>|
            #![trigger observe_prs(project, was, start, prs).seen.contains(k)]
            observe_prs(project, was, start, prs).seen.contains(k) <==> has_key(prs, k),
        forall|j: int|
            0 <= j < prs.len() && first_occurrence(prs, j) ==> #[trigger] recorded_with(
                observe_prs(project, was, start, prs).entries,
                pr_key(prs[j]),
                spec_material_revision(prs[j]),
            ),
    decreases prs.len(),
{
    if prs.len() > 0 {
        let prev = prs.drop_last();
        let n = prs.len() - 1;
        let last = prs.last();
        lemma_observe_prs_records(project, was, start, prev);
        let before = observe_prs(project, was, start, prev);
        let after = observe_prs(project, was, start, prs);
        assert(after == pr_step(project, was, before, last));
        let key = pr_key(last);
        assert forall|k: Seq<char>| #[trigger] has_key(prs, k) == (has_key(prev, k) || k == key) by {
            if has_key(prs, k) {
                let m = choose|m: int| 0 <= m < prs.len() && pr_key(#[trigger] prs[m]) == k;
                if m < n {
                    assert(prev[m] == prs[m]);
                }
            }
            if has_key(prev, k) {
                let m = choose|m: int| 0 <= m < prev.len() && pr_key(#[trigger] prev[m]) == k;
                assert(prs[m] == prev[m]);
            }
            if k == key {
                assert(prs[n] == last);
            }
        }
        if before.seen.contains(key) {
            assert(has_key(prev, key));
            assert forall|j: int| 0 <= j < prs.len() && first_occurrence(prs, j) implies #[trigger] recorded_with(after.entries, pr_key(prs[j]), spec_material_revision(prs[j])) by {
                if j == n {
                    let m = choose|m: int| 0 <= m < prev.len() && pr_key(#[trigger] prev[m]) == key;
                    assert(prs[m] == prev[m]);
                    assert(false);
                } else {
                    assert(prs[j] == prev[j]);
                    assert forall|m: int| 0 <= m < j implies pr_key(#[trigger] prev[m]) != pr_key(prev[j]) by {
                        assert(prs[m] == prev[m]);
                    }
                }
            }
        } else {
            let previous = remembered(before.entries, key);
            let entry = ObservationView {
                key: key,
                identity: crate::notifications::spec_pull_request_identity(project.id, last.number),
                revision: spec_material_revision(last),
                attention_state: last.attention_state,
                event_state: crate::notifications::pr_event_state(was, previous, last),
                present: true,
            };
            assert(after.entries == upsert(before.entries, key_is(key), entry));
            assert(after.seen == before.seen.push(key));
            assert forall|k: Seq<char>| #[trigger] after.seen.contains(k) <==> has_key(prs, k) by {
                if after.seen.contains(k) {
                    let i = choose|i: int| 0 <= i < after.seen.len() && after.seen[i] == k;
                    if i < before.seen.len() {
                        assert(before.seen.contains(k));
                    }
                }
                if before.seen.contains(k) {
                    let i = choose|i: int| 0 <= i < before.seen.len() && before.seen[i] == k;
                    assert(after.seen[i] == k);
                }
                assert(after.seen[after.seen.len() - 1] == key);
            }
            assert forall|j: int| 0 <= j < prs.len() && first_occurrence(prs, j) implies #[trigger] recorded_with(after.entries, pr_key(prs[j]), spec_material_revision(prs[j])) by {
                if j == n {
                    assert(prs[n] == last);
                    lemma_remembered_after_upsert_same(before.entries, key, entry);
                } else {
                    assert(prs[j] == prev[j]);
                    assert forall|m: int| 0 <= m < j implies pr_key(#[trigger] prev[m]) != pr_key(prev[j]) by {
                        assert(prs[m] == prev[m]);
                    }
                    assert(first_occurrence(prev, j));
                    assert(recorded_with(before.entries, pr_key(prev[j]), spec_material_revision(prev[j])));
                    assert(has_key(prev, pr_key(prev[j])));
                    assert(before.seen.contains(pr_key(prev[j])));
                    lemma_remembered_after_upsert_other(before.entries, key, entry, pr_key(prs[j]));
                }
            }
        }
    }
}

/// A pass over pull requests that are each remembered, present, with their
/// current revision raises nothing and leaves the other keys alone.
proof fn lemma_observe_prs_quiet(
    project: ProjectView,
    start: StepAcc,
    prs: Seq<PullRequestView>,
    all: Seq<PullRequestView>,
)
    requires
        start.seen == Seq::<Seq<char>>::empty(),
        prs.len() <= all.len(),
        prs == all.subrange(0, prs.len() as int),
        forall|j: int|
            0 <= j < all.len() && first_occurrence(all, j) ==> #[trigger] recorded_present_with(start.entries, pr_key(all[j]), spec_material_revision(all[j])),
    ensures
        observe_prs(project, true, start, prs).events == start.events,
        forall|k: Seq<char>|
            #![trigger observe_prs(project, true, start, prs).seen.contains(k)]
            observe_prs(project, true, start, prs).seen.contains(k) <==> has_key(prs, k),
        forall|k: Seq<char>|
            !has_key(prs, k) ==> #[trigger] remembered(
                observe_prs(project, true, start, prs).entries,
                k,
            ) == remembered(start.entries, k),
    decreases prs.len(),
{
    if prs.len() > 0 {
        let prev = prs.drop_last();
        let n = prs.len() - 1;
        let last = prs.last();
        assert(prev == all.subrange(0, prev.len() as int));
        lemma_observe_prs_quiet(project, start, prev, all);
        let before = observe_prs(project, true, start, prev);
        let after = observe_prs(project, true, start, prs);
        assert(after == pr_step(project, true, before, last));
        let key = pr_key(last);
        assert forall|k: Seq<char>| #[trigger] has_key(prs, k) == (has_key(prev, k) || k == key) by {
            if has_key(prs, k) {
                let m = choose|m: int| 0 <= m < prs.len() && pr_key(#[trigger] prs[m]) == k;
                if m < n {
                    assert(prev[m] == prs[m]);
                }
            }
            if has_key(prev, k) {
                let m = choose|m: int| 0 <= m < prev.len() && pr_key(#[trigger] prev[m]) == k;
                assert(prs[m] == prev[m]);
            }
            if k == key {
                assert(prs[n] == last);
            }
        }
        if !before.seen.contains(key) {
            assert(all[n] == last);
            assert forall|m: int| 0 <= m < n implies pr_key(#[trigger] all[m]) != pr_key(all[n]) by {
                assert(all[m] == prev[m]);
                if pr_key(all[m]) == pr_key(all[n]) {
                    assert(has_key(prev, key));
                }
            }
            assert(first_occurrence(all, n));
            let previous = remembered(before.entries, key);
            assert(previous == remembered(start.entries, key));
            assert(recorded_present_with(start.entries, pr_key(all[n]), spec_material_revision(all[n])));
            let o = previous->0;
            assert(o.present);
            assert(spec_material_update(o, last) is None);
            assert(pr_event(project, true, previous, last) is None);
            assert(after.events == before.events + option_seq(pr_event(project, true, previous, last)));
            assert(after.events =~= before.events);
            let entry = ObservationView {
                key: key,
                identity: crate::notifications::spec_pull_request_identity(project.id, last.number),
                revision: spec_material_revision(last),
                attention_state: last.attention_state,
                event_state: crate::notifications::pr_event_state(true, previous, last),
                present: true,
            };
            assert(after.entries == upsert(before.entries, key_is(key), entry));
            assert forall|k: Seq<char>| !has_key(prs, k) implies #[trigger] remembered(
                after.entries,
                k,
            ) == remembered(start.entries, k) by {
                lemma_remembered_after_upsert_other(before.entries, key, entry, k);
            }
            assert forall|k: Seq<char>| #[trigger] after.seen.contains(k) <==> has_key(prs, k) by {
                if after.seen.contains(k) {
                    let i = choose|i: int| 0 <= i < after.seen.len() && after.seen[i] == k;
                    if i < before.seen.len() {
                        assert(before.seen.contains(k));
                    }
                }
                if before.seen.contains(k) {
                    let i = choose|i: int| 0 <= i < before.seen.len() && before.seen[i] == k;
                    assert(after.seen[i] == k);
                }
                assert(after.seen[after.seen.len() - 1] == key);
            }
        }
    }
}

proof fn lemma_mark_presence_remembered(entries: Seq<ObservationView>, seen: Seq<Seq<char>>, k: Seq<char>)
    ensures
        remembered(mark_presence(entries, seen), k) == match remembered(entries, k) {
            Some(o) => Some(ObservationView { present: seen.contains(o.key), ..o }),
            None => None,
        },
{
    let marked = mark_presence(entries, seen);
    lemma_first_match_same(marked, key_is(k), entries, key_is(k));
}

/// A project observed a second time with the same pull requests raises nothing.
proof fn lemma_project_second_poll_quiet(obs: ProjectObservationView, project: ProjectView)
    ensures
        observe_project(observe_project(obs, project).0, project).1 == Seq::<EventView>::empty(),
{
    let prs = project.pull_requests;
    let start1 = StepAcc { entries: obs.pull_requests, seen: Seq::empty(), events: Seq::empty() };
    lemma_observe_prs_records(project, obs.bootstrapped, start1, prs);
    let acc1 = observe_prs(project, obs.bootstrapped, start1, prs);
    let obs1 = observe_project(obs, project).0;
    let base = mark_presence(acc1.entries, acc1.seen);
    assert(obs1.pull_requests == base);
    assert forall|j: int| 0 <= j < prs.len() && first_occurrence(prs, j) implies #[trigger] recorded_present_with(base, pr_key(prs[j]), spec_material_revision(prs[j])) by {
        let k = pr_key(prs[j]);
        lemma_mark_presence_remembered(acc1.entries, acc1.seen, k);
        assert(recorded_with(acc1.entries, k, spec_material_revision(prs[j])));
        let o = remembered(acc1.entries, k)->0;
        lemma_first_match_some(acc1.entries, key_is(k));
        let i = first_match(acc1.entries, key_is(k))->0;
        assert(key_is(k)(acc1.entries[i]));
        assert(o.key == k);
        assert(has_key(prs, k));
        assert(acc1.seen.contains(k));
    }
    let start2 = StepAcc { entries: base, seen: Seq::empty(), events: Seq::empty() };
    assert(prs == prs.subrange(0, prs.len() as int));
    lemma_observe_prs_quiet(project, start2, prs, prs);
}

proof fn lemma_remembered_project_id(projects: Seq<ProjectObservationView>, id: Seq<char>)
    ensures
        remembered_project(projects, id).id == id,
{
    lemma_first_match_some(projects, id_is(id));
}

/// What the first poll leaves for every available project: the result of
/// observing that project from what was remembered of it just before.
proof fn lemma_first_poll_records(state: Seq<ProjectObservationView>, projects: Seq<ProjectView>)
    requires
        distinct_available_ids(projects),
    ensures
        forall|k: int|
            0 <= k < projects.len() && (#[trigger] projects[k]).available ==> remembered_project(
                observe_projects(state, projects).0,
                projects[k].id,
            ) == observe_project(
                remembered_project(
                    observe_projects(state, projects.subrange(0, k)).0,
                    projects[k].id,
                ),
                projects[k],
            ).0,
    decreases projects.len(),
{
    if projects.len() > 0 {
        let prev = projects.drop_last();
        let n = projects.len() - 1;
        let last = projects.last();
        assert forall|i: int, j: int|
            0 <= i < j < prev.len() && (#[trigger] prev[i]).available
                && (#[trigger] prev[j]).available implies prev[i].id != prev[j].id by {
            assert(projects[i] == prev[i]);
            assert(projects[j] == prev[j]);
        }
        lemma_first_poll_records(state, prev);
        let (before, events) = observe_projects(state, prev);
        assert(projects.subrange(0, n) =~= prev);
        assert forall|k: int|
            0 <= k < projects.len() && (#[trigger] projects[k]).available implies remembered_project(
                observe_projects(state, projects).0,
                projects[k].id,
            ) == observe_project(
                remembered_project(observe_projects(state, projects.subrange(0, k)).0, projects[k].id),
                projects[k],
            ).0 by {
            if last.available {
                let obs = observe_project(remembered_project(before, last.id), last).0;
                lemma_remembered_project_id(before, last.id);
                assert(obs.id == last.id);
                let after = upsert(before, id_is(last.id), obs);
                assert(observe_projects(state, projects).0 == after);
                if k == n {
                    lemma_upsert_same(before, id_is(last.id), obs);
                } else {
                    assert(projects[k] == prev[k]);
                    assert(prev.subrange(0, k) =~= projects.subrange(0, k));
                    assert(projects[k].id != last.id);
                    assert forall|x: ProjectObservationView| #[trigger] id_is(last.id)(x) implies !id_is(
                        projects[k].id,
                    )(x) by {}
                    lemma_upsert_other(before, id_is(projects[k].id), id_is(last.id), obs);
                }
            } else {
                if k < n {
                    assert(projects[k] == prev[k]);
                    assert(prev.subrange(0, k) =~= projects.subrange(0, k));
                }
            }
        }
    }
}

/// The second poll, over projects whose remembered state is `first`
/// except where this poll has already been.
proof fn lemma_second_poll_quiet(
    state0: Seq<ProjectObservationView>,
    first: Seq<ProjectObservationView>,
    all: Seq<ProjectView>,
    projects: Seq<ProjectView>,
)
    requires
        distinct_available_ids(all),
        projects.len() <= all.len(),
        projects == all.subrange(0, projects.len() as int),
        first == observe_projects(state0, all).0,
    ensures
        observe_projects(first, projects).1 == Seq::<EventView>::empty(),
        forall|id: Seq<char>|
            (forall|m: int| 0 <= m < projects.len() && (#[trigger] projects[m]).available ==> projects[m].id != id)
                ==> #[trigger] remembered_project(observe_projects(first, projects).0, id)
                == remembered_project(first, id),
    decreases projects.len(),
{
    if projects.len() > 0 {
        let prev = projects.drop_last();
        let n = projects.len() - 1;
        let last = projects.last();
        assert(prev == all.subrange(0, prev.len() as int));
        lemma_second_poll_quiet(state0, first, all, prev);
        let (before, events) = observe_projects(first, prev);
        assert(all[n] == last);
        if last.available {
            assert forall|m: int| 0 <= m < prev.len() && (#[trigger] prev[m]).available implies prev[m].id != last.id by {
                assert(all[m] == prev[m]);
            }
            assert(remembered_project(before, last.id) == remembered_project(first, last.id));
            lemma_first_poll_records(state0, all);
            assert(all[n].available);
            let obs0 = remembered_project(observe_projects(state0, all.subrange(0, n)).0, last.id);
            assert(remembered_project(first, last.id) == observe_project(obs0, last).0);
            lemma_project_second_poll_quiet(obs0, last);
            let obs = observe_project(remembered_project(before, last.id), last).0;
            assert(observe_projects(first, projects).1 =~= events + Seq::<EventView>::empty());
            lemma_remembered_project_id(before, last.id);
            assert forall|id: Seq<char>|
                (forall|m: int| 0 <= m < projects.len() && (#[trigger] projects[m]).available ==> projects[m].id != id)
                    implies #[trigger] remembered_project(observe_projects(first, projects).0, id)
                    == remembered_project(first, id) by {
                assert(projects[n] == last);
                assert forall|m: int| 0 <= m < prev.len() && (#[trigger] prev[m]).available implies prev[m].id != id by {
                    assert(projects[m] == prev[m]);
                }
                assert(last.id != id);
                assert forall|x: ProjectObservationView| #[trigger] id_is(last.id)(x) implies !id_is(id)(x) by {}
                lemma_upsert_other(before, id_is(id), id_is(last.id), obs);
                assert(observe_projects(first, projects).0 == upsert(before, id_is(last.id), obs));
                assert(remembered_project(before, id) == remembered_project(first, id));
            }
        } else {
            assert forall|id: Seq<char>|
                (forall|m: int| 0 <= m < projects.len() && (#[trigger] projects[m]).available ==> projects[m].id != id)
                    implies #[trigger] remembered_project(observe_projects(first, projects).0, id)
                    == remembered_project(first, id) by {
                assert forall|m: int| 0 <= m < prev.len() && (#[trigger] prev[m]).available implies prev[m].id != id by {
                    assert(projects[m] == prev[m]);
                }
            }
        }
    }
}

/// Polling the same projects twice in a row raises nothing the second time:
/// every pull request was remembered, present and with its current revision,
/// by the first poll. (When two available projects of one poll share an
/// identifier, the second overwrites what the first left, and this fails.)
pub proof fn law_repeated_poll_is_quiet(state: StateView, projects: Seq<ProjectView>)
    requires
        distinct_available_ids(projects),
    ensures
        spec_observe(spec_observe(state, projects).0, projects).1 == Seq::<EventView>::empty(),
{
    let first = observe_projects(state.projects, projects).0;
    assert(projects == projects.subrange(0, projects.len() as int));
    lemma_second_poll_quiet(state.projects, first, projects, projects);
}

proof fn lemma_not_bootstrapped_is_quiet(project: ProjectView, start: StepAcc, prs: Seq<PullRequestView>)
    ensures
        observe_prs(project, false, start, prs).events == start.events,
    decreases prs.len(),
{
    if prs.len() > 0 {
        lemma_not_bootstrapped_is_quiet(project, start, prs.drop_last());
        let before = observe_prs(project, false, start, prs.drop_last());
        let key = pr_key(prs.last());
        if !before.seen.contains(key) {
            let previous = remembered(before.entries, key);
            assert(pr_event(project, false, previous, prs.last()) is None);
            assert(observe_prs(project, false, start, prs).events =~= before.events);
        }
    }
}

/// Remembered projects that a poll does not list as available stay as they were.
proof fn lemma_untouched(state: Seq<ProjectObservationView>, projects: Seq<ProjectView>)
    ensures
        forall|id: Seq<char>|
            (forall|m: int| 0 <= m < projects.len() && (#[trigger] projects[m]).available ==> projects[m].id != id)
                ==> #[trigger] remembered_project(observe_projects(state, projects).0, id)
                == remembered_project(state, id),
    decreases projects.len(),
{
    if projects.len() > 0 {
        let prev = projects.drop_last();
        let n = projects.len() - 1;
        let last = projects.last();
        lemma_untouched(state, prev);
        let (before, events) = observe_projects(state, prev);
        assert forall|id: Seq<char>|
            (forall|m: int| 0 <= m < projects.len() && (#[trigger] projects[m]).available ==> projects[m].id != id)
                implies #[trigger] remembered_project(observe_projects(state, projects).0, id)
                == remembered_project(state, id) by {
            assert(projects[n] == last);
            assert forall|m: int| 0 <= m < prev.len() && (#[trigger] prev[m]).available implies prev[m].id != id by {
                assert(projects[m] == prev[m]);
            }
            assert(remembered_project(observe_projects(state, prev).0, id) == remembered_project(state, id));
            if last.available {
                let obs = observe_project(remembered_project(before, last.id), last).0;
                lemma_remembered_project_id(before, last.id);
                assert(last.id != id);
                assert forall|x: ProjectObservationView| #[trigger] id_is(last.id)(x) implies !id_is(id)(x) by {}
                lemma_upsert_other(before, id_is(id), id_is(last.id), obs);
                assert(observe_projects(state, projects).0 == upsert(before, id_is(last.id), obs));
            }
        }
    }
}

/// The first poll of projects that were never observed raises nothing: it
/// only records a baseline. (When two available projects of one poll share an
/// identifier, the second is no longer a first poll, and this fails.)
pub proof fn law_first_poll_is_quiet(state: StateView, projects: Seq<ProjectView>)
    requires
        distinct_available_ids(projects),
        forall|i: int| 0 <= i < state.projects.len() ==> !(#[trigger] state.projects[i]).bootstrapped,
    ensures
        spec_observe(state, projects).1 == Seq::<EventView>::empty(),
{
    lemma_first_poll_quiet_prefix(state.projects, projects);
}

proof fn lemma_first_poll_quiet_prefix(state: Seq<ProjectObservationView>, projects: Seq<ProjectView>)
    requires
        distinct_available_ids(projects),
        forall|i: int| 0 <= i < state.len() ==> !(#[trigger] state[i]).bootstrapped,
    ensures
        observe_projects(state, projects).1 == Seq::<EventView>::empty(),
    decreases projects.len(),
{
    if projects.len() > 0 {
        let prev = projects.drop_last();
        let n = projects.len() - 1;
        let last = projects.last();
        assert forall|i: int, j: int|
            0 <= i < j < prev.len() && (#[trigger] prev[i]).available
                && (#[trigger] prev[j]).available implies prev[i].id != prev[j].id by {
            assert(projects[i] == prev[i]);
            assert(projects[j] == prev[j]);
        }
        lemma_first_poll_quiet_prefix(state, prev);
        let (before, events) = observe_projects(state, prev);
        if last.available {
            lemma_untouched(state, prev);
            assert forall|m: int| 0 <= m < prev.len() && (#[trigger] prev[m]).available implies prev[m].id != last.id by {
                assert(projects[m] == prev[m]);
                assert(projects[n] == last);
            }
            let obs = remembered_project(before, last.id);
            assert(obs == remembered_project(state, last.id));
            lemma_first_match_some(state, id_is(last.id));
            assert(!obs.bootstrapped);
            let start = StepAcc { entries: obs.pull_requests, seen: Seq::empty(), events: Seq::empty() };
            lemma_not_bootstrapped_is_quiet(last, start, last.pull_requests);
            assert(observe_projects(state, projects).1 =~= events);
        }
    }
}

/// A poll in which no project is available changes nothing that is
/// remembered and raises nothing.
pub proof fn law_unavailable_projects_change_nothing(state: StateView, projects: Seq<ProjectView>)
    requires
        forall|i: int| 0 <= i < projects.len() ==> !(#[trigger] projects[i]).available,
    ensures
        spec_observe(state, projects).0.projects == state.projects,
        spec_observe(state, projects).1 == Seq::<EventView>::empty(),
    decreases projects.len(),
{
    if projects.len() > 0 {
        let prev = projects.drop_last();
        assert forall|i: int| 0 <= i < prev.len() implies !(#[trigger] prev[i]).available by {
            assert(projects[i] == prev[i]);
        }
        law_unavailable_projects_change_nothing(state, prev);
        assert(projects[projects.len() - 1] == projects.last());
    }
}

/// A poll leaves what is remembered of every project it does not list as
/// available as it was.
pub proof fn law_other_projects_untouched(state: StateView, projects: Seq<ProjectView>, id: Seq<char>)
    requires
        forall|m: int| 0 <= m < projects.len() && (#[trigger] projects[m]).available ==> projects[m].id != id,
    ensures
        remembered_project(spec_observe(state, projects).0.projects, id) == remembered_project(state.projects, id),
{
    lemma_untouched(state.projects, projects);
}

/// Settings written and read back are the settings that were written, and
/// need no migration.
pub proof fn law_settings_round_trip(settings: crate::notifications::NotificationSettings)
    ensures
        crate::notifications::spec_migrate_settings(crate::notifications::written_fields(settings))
            == Ok::<(crate::notifications::NotificationSettings, bool), Seq<char>>((settings, false)),
{
}

/// A single choice stored by an older version turns both kinds of
/// notification on or off, and the document is rewritten.
pub proof fn law_legacy_choice_migrates(enabled: bool)
    ensures
        crate::notifications::spec_migrate_settings(
            crate::notifications::SettingsFields {
                version: None,
                new_pull_requests: None,
                new_pull_requests_snake: None,
                pull_request_updates: None,
                pull_request_updates_snake: None,
                enabled: Some(enabled),
                notifications_enabled: None,
            },
        ) == Ok::<(crate::notifications::NotificationSettings, bool), Seq<char>>((
            crate::notifications::NotificationSettings {
                new_pull_requests: enabled,
                pull_request_updates: enabled,
            },
            true,
        )),
{
}

/// With nothing matching in `s`, `first_match` finds nothing; so when it
/// finds nothing, nothing matches.
proof fn lemma_no_match<T>(s: Seq<T>, p: spec_fn(T) -> bool, j: int)
    requires
        first_match(s, p) is None,
        0 <= j < s.len(),
    ensures
        !p(s[j]),
{
    if p(s[j]) {
        crate::text::lemma_first_of_any(s, p, j);
    }
}

/// Remembering a pull request under its key keeps the keys unique.
proof fn lemma_upsert_keys(s: Seq<ObservationView>, v: ObservationView)
    requires
        keys_unique(s),
    ensures
        keys_unique(upsert(s, key_is(v.key), v)),
{
    let p = key_is(v.key);
    let t = upsert(s, p, v);
    match first_match(s, p) {
        Some(i) => {
            lemma_first_match_some(s, p);
            assert forall|a: int, b: int| 0 <= a < b < t.len() implies (#[trigger] t[a]).key != (#[trigger] t[b]).key by {
                if a == i {
                    assert(t[b] == s[b]);
                    assert(s[a].key == v.key);
                } else if b == i {
                    assert(t[a] == s[a]);
                    assert(s[b].key == v.key);
                } else {
                    assert(t[a] == s[a] && t[b] == s[b]);
                }
            }
        },
        None => {
            assert forall|a: int, b: int| 0 <= a < b < t.len() implies (#[trigger] t[a]).key != (#[trigger] t[b]).key by {
                if b == s.len() {
                    lemma_no_match(s, p, a);
                    assert(t[a] == s[a]);
                } else {
                    assert(t[a] == s[a] && t[b] == s[b]);
                }
            }
        },
    }
}

proof fn lemma_observe_prs_keys(project: ProjectView, was_bootstrapped: bool, start: StepAcc, prs: Seq<PullRequestView>)
    requires
        keys_unique(start.entries),
    ensures
        keys_unique(observe_prs(project, was_bootstrapped, start, prs).entries),
    decreases prs.len(),
{
    if prs.len() > 0 {
        lemma_observe_prs_keys(project, was_bootstrapped, start, prs.drop_last());
        let acc = observe_prs(project, was_bootstrapped, start, prs.drop_last());
        let key = decimal(prs.last().number as nat);
        if !acc.seen.contains(key) {
            let previous = remembered(acc.entries, key);
            let entry = ObservationView {
                key: key,
                identity: crate::notifications::spec_pull_request_identity(project.id, prs.last().number),
                revision: spec_material_revision(prs.last()),
                attention_state: prs.last().attention_state,
                event_state: crate::notifications::pr_event_state(was_bootstrapped, previous, prs.last()),
                present: true,
            };
            lemma_upsert_keys(acc.entries, entry);
        }
    }
}

/// Observing a project keeps its pull requests' keys unique.
proof fn lemma_observe_project_keys(obs: ProjectObservationView, project: ProjectView)
    requires
        keys_unique(obs.pull_requests),
    ensures
        keys_unique(observe_project(obs, project).0.pull_requests),
        observe_project(obs, project).0.id == obs.id,
{
    let start = StepAcc { entries: obs.pull_requests, seen: Seq::empty(), events: Seq::empty() };
    lemma_observe_prs_keys(project, obs.bootstrapped, start, project.pull_requests);
    let acc = observe_prs(project, obs.bootstrapped, start, project.pull_requests);
    let marked = mark_presence(acc.entries, acc.seen);
    assert forall|a: int, b: int| 0 <= a < b < marked.len() implies (#[trigger] marked[a]).key != (#[trigger] marked[b]).key by {
        assert(marked[a].key == acc.entries[a].key && marked[b].key == acc.entries[b].key);
    }
}

proof fn lemma_observe_projects_unique(state: Seq<ProjectObservationView>, projects: Seq<ProjectView>)
    requires
        state_unique(state),
    ensures
        state_unique(observe_projects(state, projects).0),
    decreases projects.len(),
{
    if projects.len() > 0 {
        lemma_observe_projects_unique(state, projects.drop_last());
        let before = observe_projects(state, projects.drop_last()).0;
        let project = projects.last();
        if project.available {
            let p = id_is(project.id);
            let old = remembered_project(before, project.id);
            lemma_remembered_project_id(before, project.id);
            match first_match(before, p) {
                Some(i) => {
                    lemma_first_match_some(before, p);
                },
                None => {},
            }
            assert(keys_unique(old.pull_requests));
            lemma_observe_project_keys(old, project);
            let obs = observe_project(old, project).0;
            let t = upsert(before, p, obs);
            match first_match(before, p) {
                Some(i) => {
                    lemma_first_match_some(before, p);
                    assert forall|a: int, b: int| 0 <= a < b < t.len() implies (#[trigger] t[a]).id != (#[trigger] t[b]).id by {
                        if a == i {
                            assert(t[b] == before[b]);
                        } else if b == i {
                            assert(t[a] == before[a]);
                        } else {
                            assert(t[a] == before[a] && t[b] == before[b]);
                        }
                    }
                    assert forall|a: int| 0 <= a < t.len() implies keys_unique(#[trigger] t[a].pull_requests) by {
                        if a != i {
                            assert(t[a] == before[a]);
                        }
                    }
                },
                None => {
                    assert forall|a: int, b: int| 0 <= a < b < t.len() implies (#[trigger] t[a]).id != (#[trigger] t[b]).id by {
                        if b == before.len() {
                            lemma_no_match(before, p, a);
                            assert(t[a] == before[a]);
                        } else {
                            assert(t[a] == before[a] && t[b] == before[b]);
                        }
                    }
                    assert forall|a: int| 0 <= a < t.len() implies keys_unique(#[trigger] t[a].pull_requests) by {
                        if a < before.len() {
                            assert(t[a] == before[a]);
                        }
                    }
                },
            }
        }
    }
}

/// A poll keeps what is remembered free of repetition: when no project,
/// and no pull request within a project, was remembered twice, none is
/// afterwards.
pub proof fn law_observation_state_stays_unique(state: StateView, projects: Seq<ProjectView>)
    requires
        state_unique(state.projects),
    ensures
        state_unique(spec_observe(state, projects).0.projects),
{
    lemma_observe_projects_unique(state.projects, projects);
}

/// Failed checks ask for the user whatever the pull request's merge state:
/// an attention state whose last piece is `checks=failed` requires
/// attention; so do the review requests, and the merge states that ask for
/// the user.
pub proof fn law_failed_checks_need_attention(merge_state: Seq<char>, before: Seq<char>, checks: Seq<char>)
    ensures
        crate::notifications::spec_requires_attention(merge_state, before + "|checks=failed"@),
        (forall|i: int| 0 <= i < checks.len() ==> checks[i] != '|') ==> {
            &&& crate::notifications::spec_requires_attention(merge_state, "review=changesRequested|checks="@ + checks)
            &&& crate::notifications::spec_requires_attention(merge_state, "review=reviewRequired|checks="@ + checks)
        },
        crate::notifications::spec_requires_attention("checksFailed"@, checks),
        crate::notifications::spec_requires_attention("reviewRequired"@, checks),
        crate::notifications::spec_requires_attention("conflicting"@, checks),
{
    reveal_strlit("|checks=failed");
    reveal_strlit("checks=failed");
    let failed = "checks=failed"@;
    assert forall|i: int| 0 <= i < failed.len() implies failed[i] != '|' by {}
    assert(before + "|checks=failed"@ =~= before.push('|') + failed);
    crate::text::lemma_split_after_sep(before, '|', failed);
    let pieces = crate::text::split(before + "|checks=failed"@, '|');
    assert(pieces[pieces.len() - 1] == failed);
    assert(crate::notifications::attention_piece(pieces[pieces.len() - 1]));
    if forall|i: int| 0 <= i < checks.len() ==> checks[i] != '|' {
        reveal_strlit("checks=");
        reveal_strlit("review=changesRequested");
        reveal_strlit("review=reviewRequired");
        reveal_strlit("review=changesRequested|checks=");
        reveal_strlit("review=reviewRequired|checks=");
        let rest = "checks="@ + checks;
        assert forall|i: int| 0 <= i < rest.len() implies rest[i] != '|' by {
            if i >= 7 {
                assert(rest[i] == checks[i - 7]);
            }
        }
        let changes = "review=changesRequested"@;
        let required = "review=reviewRequired"@;
        assert forall|i: int| 0 <= i < changes.len() implies changes[i] != '|' by {}
        assert forall|i: int| 0 <= i < required.len() implies required[i] != '|' by {}
        crate::text::lemma_split_no_sep(changes, '|');
        crate::text::lemma_split_no_sep(required, '|');
        crate::text::lemma_split_after_sep(changes, '|', rest);
        crate::text::lemma_split_after_sep(required, '|', rest);
        assert("review=changesRequested|checks="@ + checks =~= changes.push('|') + rest);
        assert("review=reviewRequired|checks="@ + checks =~= required.push('|') + rest);
        let p1 = crate::text::split("review=changesRequested|checks="@ + checks, '|');
        let p2 = crate::text::split("review=reviewRequired|checks="@ + checks, '|');
        assert(p1[0] == changes);
        assert(p2[0] == required);
        assert(crate::notifications::attention_piece(p1[0]));
        assert(crate::notifications::attention_piece(p2[0]));
    }
}


/// Why a remembered pull request counts as updated: not at all when
/// nothing material changed; new commits when its head moved; otherwise
/// that it needs attention when its attention state changed to one that
/// asks for the user; otherwise that its status changed.
pub proof fn law_material_update_reasons(old: PullRequestView, current: PullRequestView, previous: ObservationView)
    requires
        previous.revision == spec_material_revision(old),
        forall|i: int| 0 <= i < old.head_sha.len() ==> old.head_sha[i] != '|',
        forall|i: int| 0 <= i < current.head_sha.len() ==> current.head_sha[i] != '|',
    ensures
        spec_material_revision(current) == spec_material_revision(old) ==> spec_material_update(previous, current) is None,
        old.head_sha != current.head_sha ==> spec_material_update(previous, current) == Some(
            crate::notifications::UpdateReason::NewCommits,
        ),
        old.head_sha == current.head_sha && spec_material_revision(current) != spec_material_revision(old)
            && previous.attention_state != current.attention_state
            && crate::notifications::spec_requires_attention(current.merge_state, current.attention_state)
            ==> spec_material_update(previous, current) == Some(crate::notifications::UpdateReason::NeedsAttention),
        old.head_sha == current.head_sha && spec_material_revision(current) != spec_material_revision(old)
            && previous.attention_state == current.attention_state ==> spec_material_update(previous, current) == Some(
            crate::notifications::UpdateReason::StatusChanged,
        ),
{
    let rest_old = spec_material_revision(old).subrange(old.head_sha.len() as int + 1, spec_material_revision(old).len() as int);
    let rest_new = spec_material_revision(current).subrange(current.head_sha.len() as int + 1, spec_material_revision(current).len() as int);
    assert(spec_material_revision(old) =~= old.head_sha.push('|') + rest_old);
    assert(spec_material_revision(current) =~= current.head_sha.push('|') + rest_new);
    crate::text::lemma_split_first(old.head_sha, '|', rest_old);
    crate::text::lemma_split_first(current.head_sha, '|', rest_new);
}

} // verus!
