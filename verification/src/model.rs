//! The mathematical model of the list's state.
//!
//! An operation of the list addresses an entry by its position among the
//! entries that pass the current filter. [`shown_positions`] maps such a
//! position to a position in the backing sequence; the `after_*` functions
//! say what each operation makes of a state.

use vstd::prelude::*;
use crate::entry::EntryView;
use crate::filter::Filter;
use crate::text::trimmed;

verus! {

/// The backing positions of the entries that pass `filter`, in order.
pub open spec fn shown_positions(filter: Filter, entries: Seq<EntryView>) -> Seq<int>
    decreases entries.len(),
{
    if entries.len() == 0 {
        Seq::empty()
    } else {
        let before = shown_positions(filter, entries.drop_last());
        if filter.passes(entries.last()) {
            before.push(entries.len() - 1)
        } else {
            before
        }
    }
}

/// The state as the contracts see it.
pub ghost struct StateView {
    pub entries: Seq<EntryView>,
    pub filter: Filter,
    pub edit_value: Seq<char>,
}

impl StateView {
    /// Every description is non-empty and neither starts nor ends with
    /// white space.
    pub open spec fn is_tidy(self) -> bool {
        forall|i: int| 0 <= i < self.entries.len() ==> (#[trigger] self.entries[i]).is_tidy()
    }

    /// The backing positions of the shown entries, in order.
    pub open spec fn shown(self) -> Seq<int> {
        shown_positions(self.filter, self.entries)
    }

    /// The shown entries themselves, in order.
    pub open spec fn shown_entries(self) -> Seq<EntryView> {
        self.entries.filter(self.filter.predicate())
    }

    /// Whether `idx` is the position of a shown entry.
    pub open spec fn in_range(self, idx: int) -> bool {
        0 <= idx < self.shown().len()
    }

    /// The backing position of the shown entry at `idx`.
    pub open spec fn backing(self, idx: int) -> int
        recommends
            self.in_range(idx),
    {
        self.shown()[idx]
    }

    /// The number of entries, shown or not.
    pub open spec fn total(self) -> nat {
        self.entries.len()
    }

    /// The number of completed entries, shown or not.
    pub open spec fn completed_count(self) -> nat {
        self.entries.filter(Filter::Completed.predicate()).len()
    }

    /// At least one entry is shown, and every shown entry is completed.
    pub open spec fn is_all_completed(self) -> bool {
        &&& self.shown().len() > 0
        &&& forall|i: int|
            0 <= i < self.entries.len() && self.filter.passes(#[trigger] self.entries[i])
                ==> self.entries[i].completed
    }

    /// A new entry with the trimmed description at the end, unless the
    /// trimmed description is empty.
    pub open spec fn after_add(self, description: Seq<char>) -> StateView {
        let text = trimmed(description);
        if text.len() == 0 {
            self
        } else {
            StateView {
                entries: self.entries.push(
                    EntryView { description: text, completed: false, editing: false },
                ),
                ..self
            }
        }
    }

    /// Every shown entry has `completed` set to `value`; the others are as
    /// they were.
    pub open spec fn after_toggle_all(self, value: bool) -> StateView {
        StateView {
            entries: Seq::new(
                self.entries.len(),
                |i: int|
                    if self.filter.passes(self.entries[i]) {
                        self.entries[i].with_completed(value)
                    } else {
                        self.entries[i]
                    },
            ),
            ..self
        }
    }

    /// The shown entry at `idx` has `completed` flipped.
    pub open spec fn after_toggle(self, idx: int) -> StateView
        recommends
            self.in_range(idx),
    {
        let at = self.backing(idx);
        let entry = self.entries[at];
        StateView {
            entries: self.entries.update(at, entry.with_completed(!entry.completed)),
            ..self
        }
    }

    /// The shown entry at `idx` has `editing` flipped.
    pub open spec fn after_toggle_edit(self, idx: int) -> StateView
        recommends
            self.in_range(idx),
    {
        let at = self.backing(idx);
        let entry = self.entries[at];
        StateView {
            entries: self.entries.update(at, entry.with_editing(!entry.editing)),
            ..self
        }
    }

    /// The shown entry at `idx` is gone; the entries behind it move up.
    pub open spec fn after_remove(self, idx: int) -> StateView
        recommends
            self.in_range(idx),
    {
        StateView { entries: self.entries.remove(self.backing(idx)), ..self }
    }

    /// With an empty `text` the shown entry at `idx` is removed; otherwise
    /// it gets `text` as its description and `editing` flipped.
    pub open spec fn after_complete_edit(self, idx: int, text: Seq<char>) -> StateView
        recommends
            self.in_range(idx),
    {
        if text.len() == 0 {
            self.after_remove(idx)
        } else {
            let at = self.backing(idx);
            let entry = self.entries[at];
            StateView {
                entries: self.entries.update(
                    at,
                    entry.with_description(text).with_editing(!entry.editing),
                ),
                ..self
            }
        }
    }

    /// The edit is completed with the trimmed `value`, and the edit buffer
    /// is emptied.
    pub open spec fn after_edit(self, idx: int, value: Seq<char>) -> StateView
        recommends
            self.in_range(idx),
    {
        StateView { edit_value: Seq::empty(), ..self.after_complete_edit(idx, trimmed(value)) }
    }

    /// The completed entries are gone, shown or not; the others keep their
    /// order.
    pub open spec fn after_clear_completed(self) -> StateView {
        StateView { entries: self.entries.filter(Filter::Active.predicate()), ..self }
    }

    /// The filter is replaced.
    pub open spec fn after_set_filter(self, filter: Filter) -> StateView {
        StateView { filter, ..self }
    }
}

/// Looking at one entry more adds its position to the shown ones if the
/// entry passes the filter, and changes nothing otherwise.
pub proof fn lemma_shown_step(filter: Filter, entries: Seq<EntryView>, n: int)
    requires
        0 <= n < entries.len(),
    ensures
        shown_positions(filter, entries.take(n + 1)) == if filter.passes(entries[n]) {
            shown_positions(filter, entries.take(n)).push(n)
        } else {
            shown_positions(filter, entries.take(n))
        },
{
    assert(entries.take(n + 1).drop_last() =~= entries.take(n));
}

/// The shown positions of a prefix are a prefix of the shown positions.
pub proof fn lemma_shown_prefix(filter: Filter, entries: Seq<EntryView>, n: int)
    requires
        0 <= n <= entries.len(),
    ensures
        shown_positions(filter, entries.take(n)).len() <= shown_positions(filter, entries).len(),
        shown_positions(filter, entries.take(n)) == shown_positions(filter, entries).take(
            shown_positions(filter, entries.take(n)).len() as int,
        ),
    decreases entries.len() - n,
{
    if n == entries.len() {
        assert(entries.take(n) =~= entries);
    } else {
        lemma_shown_step(filter, entries, n);
        lemma_shown_prefix(filter, entries, n + 1);
    }
}

/// Looking at one entry more adds it to the filtered entries if the
/// predicate holds of it, and changes nothing otherwise.
pub proof fn lemma_filter_step(entries: Seq<EntryView>, pred: spec_fn(EntryView) -> bool, n: int)
    requires
        0 <= n < entries.len(),
    ensures
        entries.take(n + 1).filter(pred) == if pred(entries[n]) {
            entries.take(n).filter(pred).push(entries[n])
        } else {
            entries.take(n).filter(pred)
        },
{
    reveal(Seq::filter);
    assert(entries.take(n + 1).drop_last() =~= entries.take(n));
}

/// Every shown position is a position of the backing sequence, the filter
/// lets the entry there pass, and the positions rise.
pub proof fn lemma_shown_sound(filter: Filter, entries: Seq<EntryView>)
    ensures
        shown_positions(filter, entries).len() <= entries.len(),
        forall|k: int|
            0 <= k < shown_positions(filter, entries).len() ==> {
                &&& 0 <= (#[trigger] shown_positions(filter, entries)[k]) < entries.len()
                &&& filter.passes(entries[shown_positions(filter, entries)[k]])
            },
        forall|j: int, k: int|
            0 <= j < k < shown_positions(filter, entries).len() ==> shown_positions(
                filter,
                entries,
            )[j] < shown_positions(filter, entries)[k],
    decreases entries.len(),
{
    if entries.len() > 0 {
        lemma_shown_sound(filter, entries.drop_last());
    }
}

/// Every position whose entry passes the filter is among the shown ones.
pub proof fn lemma_shown_complete(filter: Filter, entries: Seq<EntryView>, at: int)
    requires
        0 <= at < entries.len(),
        filter.passes(entries[at]),
    ensures
        shown_positions(filter, entries).contains(at),
    decreases entries.len(),
{
    let shown = shown_positions(filter, entries);
    if at == entries.len() - 1 {
        assert(shown[shown.len() - 1] == at);
    } else {
        lemma_shown_complete(filter, entries.drop_last(), at);
        let before = shown_positions(filter, entries.drop_last());
        let k = choose|k: int| 0 <= k < before.len() && before[k] == at;
        assert(shown[k] == at);
    }
}

} // verus!
