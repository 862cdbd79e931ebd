use vstd::prelude::*;
use crate::cleanup::{
    ActionModel, CleanupModel, EventModel, Stage, initial, model_wf, moved, step_model,
};
use crate::scan::{EntryModel, candidates_of, is_marker_name, marker_entries, marks_parent};

verus! {

/// The state after the events `events`, from state `m`.
pub open spec fn run(m: CleanupModel, events: Seq<EventModel>) -> CleanupModel
    decreases events.len(),
{
    if events.len() == 0 {
        m
    } else {
        step_model(run(m, events.drop_last()), events.last()).0
    }
}

/// The action asked for by the last of the events `events`, from state `m`.
pub open spec fn last_action(m: CleanupModel, events: Seq<EventModel>) -> ActionModel {
    if events.len() == 0 {
        ActionModel::Wait
    } else {
        step_model(run(m, events.drop_last()), events.last()).1
    }
}

/// The events of a walk that meets `entries`, in order.
pub open spec fn walk_events(entries: Seq<EntryModel>) -> Seq<EventModel> {
    entries.map_values(|e: EntryModel| EventModel::Entry(e))
}

/// `n` successful removals.
pub open spec fn removals(n: nat) -> Seq<EventModel> {
    Seq::new(n, |i: int| EventModel::DirRemoved)
}

/// The events between the end of the walk and the first removal: the
/// operator's line where a confirmation is asked for.
pub open spec fn confirm_events(silent: bool, found: nat) -> Seq<EventModel> {
    if found > 0 && !silent {
        seq![EventModel::WalkDone, EventModel::LineRead]
    } else {
        seq![EventModel::WalkDone]
    }
}

proof fn lemma_run_append(m: CleanupModel, a: Seq<EventModel>, b: Seq<EventModel>)
    ensures
        run(m, a + b) == run(run(m, a), b),
        b.len() > 0 ==> last_action(m, a + b) == last_action(run(m, a), b),
    decreases b.len(),
{
    if b.len() > 0 {
        assert((a + b).drop_last() =~= a + b.drop_last());
        assert((a + b).last() == b.last());
        lemma_run_append(m, a, b.drop_last());
    } else {
        assert(a + b =~= a);
    }
}

/// A walk collects, in order, the parent directory of each marker entry that
/// it meets, and nothing else.
pub proof fn lemma_walk_collects(silent: bool, entries: Seq<EntryModel>)
    ensures
        run(initial(silent), walk_events(entries)) == (CleanupModel {
            stage: Stage::Scanning,
            silent,
            candidates: candidates_of(entries),
            removed: 0,
        }),
    decreases entries.len(),
{
    if entries.len() > 0 {
        let p = entries.drop_last();
        let x = entries.last();
        assert(walk_events(entries).drop_last() =~= walk_events(p));
        lemma_walk_collects(silent, p);
        reveal(Seq::filter);
        if marks_parent(x) {
            assert(marker_entries(entries) == marker_entries(p).push(x));
            assert(candidates_of(entries) =~= candidates_of(p).push(x.parent->0));
        } else {
            assert(marker_entries(entries) == marker_entries(p));
        }
    } else {
        assert(candidates_of(entries) =~= Seq::empty());
    }
}

proof fn lemma_removals_partial(m: CleanupModel, j: nat)
    requires
        model_wf(m),
        m.stage == Stage::Removing,
        m.removed + j < m.candidates.len(),
    ensures
        run(m, removals(j)) == moved(m, Stage::Removing, m.removed + j),
    decreases j,
{
    if j > 0 {
        assert(removals(j).drop_last() =~= removals((j - 1) as nat));
        lemma_removals_partial(m, (j - 1) as nat);
    } else {
        assert(run(m, removals(j)) == m);
    }
}

/// From the first removal on, as many successful removals as there are
/// directories left end the run, with every collected directory counted.
pub proof fn lemma_removals_finish(m: CleanupModel)
    requires
        model_wf(m),
        m.stage == Stage::Removing,
    ensures
        run(m, removals((m.candidates.len() - m.removed) as nat)) == moved(
            m,
            Stage::Finished,
            m.candidates.len(),
        ),
        last_action(m, removals((m.candidates.len() - m.removed) as nat)) == ActionModel::Finish(
            m.candidates.len(),
        ),
{
    let k = (m.candidates.len() - m.removed) as nat;
    assert(removals(k).drop_last() =~= removals((k - 1) as nat));
    lemma_removals_partial(m, (k - 1) as nat);
}

/// Where no entry met by the walk marks its parent, nothing is collected,
/// no confirmation is asked for, whatever `silent` is, and the run ends at
/// once with nothing removed.
pub proof fn lemma_nothing_found(silent: bool, entries: Seq<EntryModel>)
    requires
        candidates_of(entries).len() == 0,
    ensures
        run(initial(silent), walk_events(entries).push(EventModel::WalkDone)) == (CleanupModel {
            stage: Stage::Finished,
            silent,
            candidates: Seq::empty(),
            removed: 0,
        }),
        last_action(initial(silent), walk_events(entries).push(EventModel::WalkDone))
            == ActionModel::Finish(0),
{
    lemma_walk_collects(silent, entries);
    assert(walk_events(entries).push(EventModel::WalkDone).drop_last() =~= walk_events(entries));
    assert(candidates_of(entries) =~= Seq::<Seq<char>>::empty());
}

/// A tree without marker files gives no candidate, asks for no
/// confirmation and removes nothing.
pub proof fn lemma_no_markers(silent: bool, entries: Seq<EntryModel>)
    requires
        forall|i: int| 0 <= i < entries.len() ==> !is_marker_name(#[trigger] entries[i].name),
    ensures
        candidates_of(entries).len() == 0,
        run(initial(silent), walk_events(entries).push(EventModel::WalkDone)).removed == 0,
        run(initial(silent), walk_events(entries).push(EventModel::WalkDone)).stage
            == Stage::Finished,
        last_action(initial(silent), walk_events(entries).push(EventModel::WalkDone))
            == ActionModel::Finish(0),
{
    if marker_entries(entries).len() > 0 {
        let pred = |e: EntryModel| marks_parent(e);
        let x = marker_entries(entries)[0];
        entries.lemma_filter_pred(pred, 0);
        assert(marker_entries(entries).contains(x));
        entries.lemma_filter_contains_rev(pred, x);
        let i = choose|i: int| 0 <= i < entries.len() && entries[i] == x;
        assert(!is_marker_name(entries[i].name));
    }
    lemma_nothing_found(silent, entries);
}

/// A tree with `n` marker files gives exactly `n` candidates, each the
/// parent directory of one marker file, in the order of the walk; once the
/// operator has confirmed where asked, `n` successful removals end the run
/// with a count of `n`.
pub proof fn lemma_each_marker_removed(silent: bool, entries: Seq<EntryModel>)
    ensures
        candidates_of(entries).len() == marker_entries(entries).len(),
        forall|i: int|
            0 <= i < candidates_of(entries).len() ==> marks_parent(
                #[trigger] marker_entries(entries)[i],
            ) && entries.contains(marker_entries(entries)[i]) && marker_entries(entries)[i].parent
                == Some(candidates_of(entries)[i]),
        ({
            let n = marker_entries(entries).len();
            let events = walk_events(entries) + confirm_events(silent, n) + removals(n);
            &&& run(initial(silent), events).stage == Stage::Finished
            &&& run(initial(silent), events).removed == n
            &&& last_action(initial(silent), events) == ActionModel::Finish(n)
        }),
{
    let pred = |e: EntryModel| marks_parent(e);
    let me = marker_entries(entries);
    let n = me.len();
    assert forall|i: int| 0 <= i < candidates_of(entries).len() implies marks_parent(
        #[trigger] me[i],
    ) && entries.contains(me[i]) && me[i].parent == Some(candidates_of(entries)[i]) by {
        entries.lemma_filter_pred(pred, i);
        assert(me.contains(me[i]));
        entries.lemma_filter_contains_rev(pred, me[i]);
    }
    lemma_walk_collects(silent, entries);
    let w = walk_events(entries);
    let c = confirm_events(silent, n);
    let r = removals(n);
    let m0 = run(initial(silent), w);
    assert(w + c + r == w + (c + r));
    lemma_run_append(initial(silent), w, c + r);
    lemma_run_append(m0, c, r);
    if n == 0 {
        assert(r =~= Seq::<EventModel>::empty());
        assert(c + r =~= c);
        assert(c.drop_last() =~= Seq::<EventModel>::empty());
        assert(m0.candidates =~= Seq::<Seq<char>>::empty());
    } else {
        let m1 = moved(m0, Stage::Removing, 0);
        if !silent {
            assert(c.drop_last() =~= seq![EventModel::WalkDone]);
            assert(c.drop_last().drop_last() =~= Seq::<EventModel>::empty());
            assert(run(m0, c.drop_last().drop_last()) == m0);
            assert(run(m0, c.drop_last()) == moved(m0, Stage::Confirming, 0));
        } else {
            assert(c.drop_last() =~= Seq::<EventModel>::empty());
            assert(run(m0, c.drop_last()) == m0);
        }
        assert(run(m0, c) == m1);
        lemma_removals_finish(m1);
    }
}

/// Once the directories of every marker are gone, a second run on what is
/// left finds no candidate and removes nothing.
pub proof fn lemma_second_run_finds_nothing(
    silent: bool,
    entries: Seq<EntryModel>,
    rest: Seq<EntryModel>,
)
    requires
        forall|j: int| 0 <= j < rest.len() ==> entries.contains(#[trigger] rest[j]),
        forall|j: int|
            0 <= j < rest.len() && (#[trigger] rest[j]).parent is Some ==> !candidates_of(
                entries,
            ).contains(rest[j].parent->0),
    ensures
        candidates_of(rest).len() == 0,
        run(initial(silent), walk_events(rest).push(EventModel::WalkDone)).removed == 0,
        run(initial(silent), walk_events(rest).push(EventModel::WalkDone)).stage
            == Stage::Finished,
        last_action(initial(silent), walk_events(rest).push(EventModel::WalkDone))
            == ActionModel::Finish(0),
{
    if marker_entries(rest).len() > 0 {
        let pred = |e: EntryModel| marks_parent(e);
        let x = marker_entries(rest)[0];
        rest.lemma_filter_pred(pred, 0);
        assert(marker_entries(rest).contains(x));
        rest.lemma_filter_contains_rev(pred, x);
        let j = choose|j: int| 0 <= j < rest.len() && rest[j] == x;
        assert(entries.contains(rest[j]));
        let i = choose|i: int| 0 <= i < entries.len() && entries[i] == x;
        entries.lemma_filter_contains(pred, i);
        let k = choose|k: int| 0 <= k < marker_entries(entries).len() && marker_entries(entries)[k] == x;
        assert(candidates_of(entries)[k] == x.parent->0);
        assert(candidates_of(entries).contains(x.parent->0));
    }
    lemma_nothing_found(silent, rest);
}

/// In silent mode no event makes the run ask for a confirmation.
pub proof fn lemma_silent_never_prompts(m: CleanupModel, e: EventModel)
    requires
        model_wf(m),
        m.silent,
    ensures
        !(step_model(m, e).1 is Prompt),
        step_model(m, e).0.stage != Stage::Confirming,
{
}

/// Not in silent mode, with candidates found, the end of the walk asks for a
/// confirmation; the run then waits through every other event until a line
/// of input arrives, and goes on to the first removal whatever the line held.
pub proof fn lemma_prompt_waits_for_line(m: CleanupModel, e: EventModel)
    requires
        model_wf(m),
        m.stage == Stage::Scanning,
        !m.silent,
        m.candidates.len() > 0,
    ensures
        step_model(m, EventModel::WalkDone) == (
            moved(m, Stage::Confirming, 0),
            ActionModel::Prompt(m.candidates.len()),
        ),
        !(e is LineRead) && !(e is InputFailed) ==> step_model(moved(m, Stage::Confirming, 0), e)
            == (moved(m, Stage::Confirming, 0), ActionModel::Wait),
        step_model(moved(m, Stage::Confirming, 0), EventModel::LineRead) == (
            moved(m, Stage::Removing, 0),
            ActionModel::Remove(m.candidates[0]),
        ),
{
}

} // verus!
