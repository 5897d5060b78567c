//! What holds of the operations, whatever the state.

use vstd::prelude::*;
use crate::entry::EntryView;
use crate::filter::Filter;
use crate::model::{
    lemma_shown_complete, lemma_shown_prefix, lemma_shown_sound, lemma_shown_step, shown_positions,
    StateView,
};
use crate::msg::Msg;
use crate::text::{lemma_trimmed_is_idempotent, trimmed};

verus! {

/// The shown positions are the positions of the filtered entries: there are
/// as many of the one as of the other, and the entry at the `k`-th shown
/// position is the `k`-th of the entries that pass the filter.
pub proof fn lemma_shown_positions_follow_the_filter(filter: Filter, entries: Seq<EntryView>)
    ensures
        shown_positions(filter, entries).len() == entries.filter(filter.predicate()).len(),
        forall|k: int|
            0 <= k < shown_positions(filter, entries).len() ==> entries[#[trigger] shown_positions(
                filter,
                entries,
            )[k]] == entries.filter(filter.predicate())[k],
    decreases entries.len(),
{
    reveal(Seq::filter);
    if entries.len() > 0 {
        let front = entries.drop_last();
        lemma_shown_positions_follow_the_filter(filter, front);
        lemma_shown_sound(filter, front);
        let shown = shown_positions(filter, entries);
        assert forall|k: int| 0 <= k < shown.len() implies entries[#[trigger] shown[k]]
            == entries.filter(filter.predicate())[k] by {
            if k < shown_positions(filter, front).len() {
                assert(shown[k] == shown_positions(filter, front)[k]);
                assert(entries[shown[k]] == front[shown[k]]);
            }
        }
    }
}

/// A position `k` among the shown entries resolves to the `k`-th of the entries
/// that pass the filter, however many entries before it the filter
/// rejects: the backing position lies in the backing sequence, the filter
/// lets the entry there pass, that entry is the `k`-th of the filtered
/// entries, and exactly `k` entries that pass stand before it.
pub proof fn lemma_backing_is_the_kth_shown(state: StateView, k: int)
    requires
        state.in_range(k),
    ensures
        0 <= state.backing(k) < state.entries.len(),
        state.filter.passes(state.entries[state.backing(k)]),
        state.entries[state.backing(k)] == state.shown_entries()[k],
        shown_positions(state.filter, state.entries.take(state.backing(k))).len() == k,
{
    let at = state.backing(k);
    lemma_shown_sound(state.filter, state.entries);
    lemma_shown_positions_follow_the_filter(state.filter, state.entries);
    lemma_shown_step(state.filter, state.entries, at);
    lemma_shown_prefix(state.filter, state.entries, at + 1);
    let before = shown_positions(state.filter, state.entries.take(at)).len() as int;
    let upto = shown_positions(state.filter, state.entries.take(at + 1));
    assert(upto[before] == at);
    assert(state.shown().take(upto.len() as int)[before] == at);
    assert(state.shown()[before] == state.shown()[k]);
}

/// Positions from the number of shown entries on resolve to nothing, and
/// that number is the number of entries that pass the filter.
pub proof fn lemma_positions_end_with_the_shown(state: StateView, k: int)
    requires
        k >= state.shown_entries().len(),
    ensures
        !state.in_range(k),
{
    lemma_shown_positions_follow_the_filter(state.filter, state.entries);
}

/// "All completed" means that at least one entry passes the filter and that
/// every entry that passes is completed. With nothing shown it is false.
pub proof fn lemma_all_completed_needs_an_entry(state: StateView)
    ensures
        state.shown_entries().len() == 0 ==> !state.is_all_completed(),
        state.is_all_completed() <==> state.shown_entries().len() > 0 && forall|k: int|
            0 <= k < state.shown_entries().len() ==> (#[trigger] state.shown_entries()[k]).completed,
{
    let shown = state.shown();
    let filtered = state.shown_entries();
    lemma_shown_positions_follow_the_filter(state.filter, state.entries);
    lemma_shown_sound(state.filter, state.entries);
    if state.is_all_completed() {
        assert forall|k: int| 0 <= k < filtered.len() implies (#[trigger] filtered[k]).completed by {
            assert(state.entries[shown[k]] == filtered[k]);
        }
    }
    if filtered.len() > 0 && (forall|k: int|
        0 <= k < filtered.len() ==> (#[trigger] filtered[k]).completed) {
        assert forall|i: int|
            0 <= i < state.entries.len() && state.filter.passes(
                #[trigger] state.entries[i],
            ) implies state.entries[i].completed by {
            lemma_shown_complete(state.filter, state.entries, i);
            let k = choose|k: int| 0 <= k < shown.len() && shown[k] == i;
            assert(state.entries[shown[k]] == filtered[k]);
        }
    }
}

/// An edit whose text is empty once trimmed does to the entries what the
/// removal of the same shown entry does; the filter stays, and the edit
/// buffer is emptied.
pub proof fn lemma_blank_edit_removes(state: StateView, idx: int, value: Seq<char>)
    requires
        state.in_range(idx),
        trimmed(value).len() == 0,
    ensures
        state.after_edit(idx, value).entries == state.after_remove(idx).entries,
        state.after_edit(idx, value).filter == state.after_remove(idx).filter,
        state.after_edit(idx, value).edit_value.len() == 0,
{
}

/// Adding a description that is empty once trimmed changes nothing. Any
/// other adds one entry at the end, with the trimmed description, active
/// and not being edited, and leaves the entries before it as they were.
pub proof fn lemma_add_appends_or_does_nothing(state: StateView, description: Seq<char>)
    ensures
        trimmed(description).len() == 0 ==> state.after_add(description) == state,
        trimmed(description).len() > 0 ==> {
            let after = state.after_add(description);
            &&& after.entries.len() == state.entries.len() + 1
            &&& after.entries.last() == EntryView {
                description: trimmed(description),
                completed: false,
                editing: false,
            }
            &&& after.entries.drop_last() == state.entries
        },
{
    if trimmed(description).len() > 0 {
        assert(state.after_add(description).entries.drop_last() =~= state.entries);
    }
}

/// Under [`Filter::All`] every entry is shown, at its own position.
pub proof fn lemma_all_shows_every_entry(entries: Seq<EntryView>)
    ensures
        shown_positions(Filter::All, entries).len() == entries.len(),
        forall|k: int| 0 <= k < entries.len() ==> shown_positions(Filter::All, entries)[k] == k,
    decreases entries.len(),
{
    if entries.len() > 0 {
        lemma_all_shows_every_entry(entries.drop_last());
    }
}

/// Under [`Filter::All`] toggling the same position twice gives the state
/// back. (Under another filter the toggled entry leaves the shown ones, and
/// the position then addresses another entry or none.)
pub proof fn lemma_toggle_twice_under_all(state: StateView, idx: int)
    requires
        state.filter == Filter::All,
        state.in_range(idx),
    ensures
        state.after_toggle(idx).in_range(idx),
        state.after_toggle(idx).after_toggle(idx) == state,
{
    lemma_all_shows_every_entry(state.entries);
    let once = state.after_toggle(idx);
    lemma_all_shows_every_entry(once.entries);
    assert(once.after_toggle(idx).entries =~= state.entries);
}

/// Every entry is either active or completed: the two filters split the
/// entries between them.
pub proof fn lemma_active_and_completed_split(entries: Seq<EntryView>)
    ensures
        entries.filter(Filter::Active.predicate()).len() + entries.filter(
            Filter::Completed.predicate(),
        ).len() == entries.len(),
    decreases entries.len(),
{
    reveal(Seq::filter);
    if entries.len() > 0 {
        lemma_active_and_completed_split(entries.drop_last());
    }
}

/// Filtering entries that pass the filter, all of them, keeps them all.
pub proof fn lemma_filter_keeps_what_passes(filter: Filter, entries: Seq<EntryView>)
    requires
        forall|i: int| 0 <= i < entries.len() ==> filter.passes(#[trigger] entries[i]),
    ensures
        entries.filter(filter.predicate()) == entries,
    decreases entries.len(),
{
    reveal(Seq::filter);
    if entries.len() > 0 {
        let front = entries.drop_last();
        assert forall|i: int| 0 <= i < front.len() implies filter.passes(#[trigger] front[i]) by {
            assert(front[i] == entries[i]);
        }
        lemma_filter_keeps_what_passes(filter, front);
        assert(front.push(entries.last()) =~= entries);
    }
}

/// Clearing the completed entries leaves none completed, and takes away as
/// many entries as were completed.
pub proof fn lemma_clear_completed_counts(state: StateView)
    ensures
        state.after_clear_completed().completed_count() == 0,
        state.after_clear_completed().total() + state.completed_count() == state.total(),
{
    let kept = state.entries.filter(Filter::Active.predicate());
    lemma_active_and_completed_split(state.entries);
    lemma_active_and_completed_split(kept);
    assert forall|i: int| 0 <= i < kept.len() implies Filter::Active.passes(#[trigger] kept[i]) by {
        state.entries.lemma_filter_pred(Filter::Active.predicate(), i);
    }
    lemma_filter_keeps_what_passes(Filter::Active, kept);
}

/// A description is tidy when it is non-empty and neither starts nor ends
/// with white space. No message makes an untidy description out of tidy
/// ones.
pub proof fn lemma_messages_keep_descriptions_tidy(state: StateView, msg: Msg)
    requires
        state.is_tidy(),
        msg.accepted_by(state),
    ensures
        msg.applied_to(state).is_tidy(),
{
    let after = msg.applied_to(state);
    lemma_shown_sound(state.filter, state.entries);
    match msg {
        Msg::Add(description) => {
            lemma_trimmed_is_idempotent(description@);
        },
        Msg::Edit(idx, value) => {
            lemma_trimmed_is_idempotent(value@);
        },
        Msg::ClearCompleted => {
            let kept = state.entries.filter(Filter::Active.predicate());
            assert forall|i: int| 0 <= i < kept.len() implies (#[trigger] kept[i]).is_tidy() by {
                state.entries.lemma_filter_contains_rev(Filter::Active.predicate(), kept[i]);
            }
        },
        _ => {},
    }
}

} // verus!
