//! The list's state and its operations.

use vstd::prelude::*;
use crate::entry::Entry;
use crate::error::OutOfRange;
use crate::filter::Filter;
use crate::text::{trim, trimmed};
use crate::model::{
    lemma_filter_step, lemma_shown_prefix, lemma_shown_step, shown_positions,
    StateView,
};

verus! {

/// The entries in the order in which they were added, the filter that
/// selects the shown ones, and the text with which an edit field starts.
pub struct State {
    pub entries: Vec<Entry>,
    pub filter: Filter,
    pub edit_value: String,
}

impl View for State {
    type V = StateView;

    open spec fn view(&self) -> StateView {
        StateView {
            entries: self.entries.deep_view(),
            filter: self.filter,
            edit_value: self.edit_value@,
        }
    }
}

impl State {
    /// A state with the given entries, all of them shown, and an empty edit
    /// buffer.
    pub fn new(entries: Vec<Entry>) -> (state: State)
        ensures
            state.entries == entries,
            state.filter == Filter::All,
            state.edit_value@.len() == 0,
    {
        State { entries, filter: Filter::All, edit_value: String::new() }
    }

    /// The number of entries, shown or not.
    pub fn total(&self) -> (n: usize)
        ensures
            n == self@.total(),
    {
        self.entries.len()
    }

    /// Whether at least one entry is shown and every shown entry is
    /// completed. With no entry shown the answer is `false`.
    pub fn is_all_completed(&self) -> (b: bool)
        ensures
            b == self@.is_all_completed(),
            self@.shown().len() == 0 ==> !b,
    {
        let ghost entries = self.entries.deep_view();
        let mut any = false;
        let mut at: usize = 0;
        while at < self.entries.len()
            invariant
                at <= self.entries.len(),
                entries == self.entries.deep_view(),
                any == (shown_positions(self.filter, entries.take(at as int)).len() > 0),
                forall|i: int|
                    0 <= i < at && self.filter.passes(#[trigger] entries[i])
                        ==> entries[i].completed,
            decreases self.entries.len() - at,
        {
            proof {
                lemma_shown_step(self.filter, entries, at as int);
            }
            if self.filter.fits(&self.entries[at]) {
                if !self.entries[at].completed {
                    return false;
                }
                any = true;
            }
            at = at + 1;
        }
        assert(entries.take(at as int) =~= entries);
        any
    }

    /// Sets `completed` to `value` on every shown entry; the others are as
    /// they were.
    pub fn toggle_all(&mut self, value: bool)
        ensures
            final(self)@ == old(self)@.after_toggle_all(value),
    {
        let ghost before = self.entries.deep_view();
        let mut at: usize = 0;
        while at < self.entries.len()
            invariant
                at <= self.entries.len(),
                self.filter == old(self).filter,
                self.edit_value == old(self).edit_value,
                before == old(self).entries.deep_view(),
                self.entries.len() == before.len(),
                forall|i: int|
                    0 <= i < at ==> (#[trigger] self.entries.deep_view()[i]) == if self.filter.passes(
                        before[i],
                    ) {
                        before[i].with_completed(value)
                    } else {
                        before[i]
                    },
                forall|i: int|
                    at <= i < before.len() ==> (#[trigger] self.entries.deep_view()[i]) == before[i],
            decreases self.entries.len() - at,
        {
            let ghost now = self.entries.deep_view();
            if self.filter.fits(&self.entries[at]) {
                self.entries[at].completed = value;
                assert(self.entries.deep_view() =~= now.update(
                    at as int,
                    now[at as int].with_completed(value),
                ));
            }
            at = at + 1;
        }
        assert(final(self)@.entries =~= old(self)@.after_toggle_all(value).entries);
    }

    /// Removes every completed entry, shown or not; the others keep their
    /// order.
    pub fn clear_completed(&mut self)
        ensures
            final(self)@ == old(self)@.after_clear_completed(),
    {
        let ghost before = self.entries.deep_view();
        let ghost active = Filter::Active.predicate();
        let mut all: Vec<Entry> = Vec::new();
        std::mem::swap(&mut self.entries, &mut all);
        let ghost source = all@;
        for entry in it: all
            invariant
                self.filter == old(self).filter,
                self.edit_value == old(self).edit_value,
                it.seq() == source,
                source.len() == before.len(),
                forall|i: int| 0 <= i < source.len() ==> (#[trigger] source[i])@ == before[i],
                active == Filter::Active.predicate(),
                self.entries.deep_view() == before.take(it.index() as int).filter(active),
        {
            proof {
                lemma_filter_step(before, active, it.index() as int);
            }
            if !entry.completed {
                let ghost now = self.entries.deep_view();
                self.entries.push(entry);
                assert(self.entries.deep_view() =~= now.push(entry@));
            }
        }
        assert(before.take(before.len() as int) =~= before);
        assert(final(self)@.entries =~= old(self)@.after_clear_completed().entries);
    }

    /// The number of completed entries, shown or not.
    pub fn completed_count(&self) -> (n: usize)
        ensures
            n == self@.completed_count(),
    {
        let ghost entries = self.entries.deep_view();
        let ghost done = Filter::Completed.predicate();
        let mut n: usize = 0;
        let mut at: usize = 0;
        while at < self.entries.len()
            invariant
                n <= at <= self.entries.len(),
                entries == self.entries.deep_view(),
                done == Filter::Completed.predicate(),
                n == entries.take(at as int).filter(done).len(),
            decreases self.entries.len() - at,
        {
            proof {
                lemma_filter_step(entries, done, at as int);
            }
            if Filter::Completed.fits(&self.entries[at]) {
                n = n + 1;
            }
            at = at + 1;
        }
        assert(entries.take(at as int) =~= entries);
        n
    }

    /// Replaces the filter; the entries are as they were.
    pub fn set_filter(&mut self, filter: Filter)
        ensures
            final(self)@ == old(self)@.after_set_filter(filter),
            final(self).entries == old(self).entries,
            final(self).edit_value == old(self).edit_value,
    {
        self.filter = filter;
    }

    /// The backing positions of the shown entries, in order: the entry at
    /// position `k` of the result is the one that the operations address
    /// as `k`.
    pub fn shown_indices(&self) -> (shown: Vec<usize>)
        ensures
            shown@.len() == self@.shown().len(),
            forall|k: int| 0 <= k < shown@.len() ==> shown@[k] == self@.shown()[k],
    {
        let ghost entries = self.entries.deep_view();
        let mut shown: Vec<usize> = Vec::new();
        let mut at: usize = 0;
        while at < self.entries.len()
            invariant
                at <= self.entries.len(),
                entries == self.entries.deep_view(),
                shown@.len() == shown_positions(self.filter, entries.take(at as int)).len(),
                forall|k: int|
                    0 <= k < shown@.len() ==> shown@[k] == shown_positions(
                        self.filter,
                        entries.take(at as int),
                    )[k],
            decreases self.entries.len() - at,
        {
            proof {
                lemma_shown_step(self.filter, entries, at as int);
            }
            if self.filter.fits(&self.entries[at]) {
                shown.push(at);
            }
            at = at + 1;
        }
        assert(entries.take(at as int) =~= entries);
        shown
    }

    /// The backing position of the shown entry at `idx`.
    ///
    /// The shown entries are counted anew on every call. Fails if fewer
    /// than `idx + 1` entries are shown.
    pub fn backing_index(&self, idx: usize) -> (r: Result<usize, OutOfRange>)
        ensures
            match r {
                Ok(at) => self@.in_range(idx as int) && at == self@.backing(idx as int) && at
                    < self.entries.len(),
                Err(e) => !self@.in_range(idx as int) && e.index == idx && e.shown
                    == self@.shown().len(),
            },
    {
        let ghost entries = self.entries.deep_view();
        let mut seen: usize = 0;
        let mut at: usize = 0;
        while at < self.entries.len()
            invariant
                at <= self.entries.len(),
                entries == self.entries.deep_view(),
                seen == shown_positions(self.filter, entries.take(at as int)).len(),
                seen <= idx,
                seen <= at,
            decreases self.entries.len() - at,
        {
            proof {
                lemma_shown_step(self.filter, entries, at as int);
                lemma_shown_prefix(self.filter, entries, at + 1);
            }
            if self.filter.fits(&self.entries[at]) {
                if seen == idx {
                    proof {
                        let upto = shown_positions(self.filter, entries.take(at + 1));
                        assert(upto[idx as int] == at);
                        assert(shown_positions(self.filter, entries).take(upto.len() as int)[idx as int]
                            == at);
                    }
                    return Ok(at);
                }
                seen = seen + 1;
            }
            at = at + 1;
        }
        assert(entries.take(at as int) =~= entries);
        Err(OutOfRange { index: idx, shown: seen })
    }

    /// Appends an entry with the trimmed `description`, not completed and
    /// not being edited. A description that is empty once trimmed adds
    /// nothing.
    pub fn add(&mut self, description: &str)
        ensures
            final(self)@ == old(self)@.after_add(description@),
            trimmed(description@).len() == 0 ==> *final(self) == *old(self),
    {
        let text = trim(description);
        if !text.is_empty() {
            self.entries.push(Entry::new(text.to_owned()));
            assert(final(self)@.entries =~= old(self)@.after_add(description@).entries);
        }
    }

    /// Completes the edit of the shown entry at `idx` with the trimmed
    /// `value`, and empties the edit buffer.
    ///
    /// A `value` that is empty once trimmed removes the entry. Fails, and
    /// changes nothing, if no entry is shown at `idx`.
    pub fn edit(&mut self, idx: usize, value: &str) -> (r: Result<(), OutOfRange>)
        ensures
            match r {
                Ok(()) => old(self)@.in_range(idx as int) && final(self)@ == old(self)@.after_edit(
                    idx as int,
                    value@,
                ),
                Err(e) => !old(self)@.in_range(idx as int) && *final(self) == *old(self)
                    && e.index == idx && e.shown == old(self)@.shown().len(),
            },
    {
        match self.complete_edit(idx, trim(value).to_owned()) {
            Ok(()) => {
                self.edit_value = String::new();
                Ok(())
            },
            Err(e) => Err(e),
        }
    }

    /// Completes the edit of the shown entry at `idx` with `val`, which is
    /// taken as it is.
    ///
    /// An empty `val` removes the entry. Any other becomes the entry's
    /// description, and `editing` is flipped. Fails, and changes nothing,
    /// if no entry is shown at `idx`.
    pub fn complete_edit(&mut self, idx: usize, val: String) -> (r: Result<(), OutOfRange>)
        ensures
            match r {
                Ok(()) => old(self)@.in_range(idx as int) && final(self)@ == old(
                    self,
                )@.after_complete_edit(idx as int, val@),
                Err(e) => !old(self)@.in_range(idx as int) && *final(self) == *old(self)
                    && e.index == idx && e.shown == old(self)@.shown().len(),
            },
    {
        if val.as_str().is_empty() {
            self.remove(idx)
        } else {
            match self.backing_index(idx) {
                Ok(at) => {
                    self.entries[at].description = val;
                    self.entries[at].editing = !self.entries[at].editing;
                    assert(final(self)@.entries =~= old(self)@.after_complete_edit(
                        idx as int,
                        val@,
                    ).entries);
                    Ok(())
                },
                Err(e) => Err(e),
            }
        }
    }

    /// Removes the shown entry at `idx`; the entries behind it move up.
    ///
    /// Fails, and changes nothing, if no entry is shown at `idx`.
    pub fn remove(&mut self, idx: usize) -> (r: Result<(), OutOfRange>)
        ensures
            match r {
                Ok(()) => old(self)@.in_range(idx as int) && final(self)@ == old(
                    self,
                )@.after_remove(idx as int),
                Err(e) => !old(self)@.in_range(idx as int) && *final(self) == *old(self)
                    && e.index == idx && e.shown == old(self)@.shown().len(),
            },
    {
        match self.backing_index(idx) {
            Ok(at) => {
                self.entries.remove(at);
                assert(final(self)@.entries =~= old(self)@.after_remove(idx as int).entries);
                Ok(())
            },
            Err(e) => Err(e),
        }
    }

    /// Flips `completed` on the shown entry at `idx`.
    ///
    /// Fails, and changes nothing, if no entry is shown at `idx`.
    pub fn toggle(&mut self, idx: usize) -> (r: Result<(), OutOfRange>)
        ensures
            match r {
                Ok(()) => old(self)@.in_range(idx as int) && final(self)@ == old(
                    self,
                )@.after_toggle(idx as int),
                Err(e) => !old(self)@.in_range(idx as int) && *final(self) == *old(self)
                    && e.index == idx && e.shown == old(self)@.shown().len(),
            },
    {
        match self.backing_index(idx) {
            Ok(at) => {
                self.entries[at].completed = !self.entries[at].completed;
                assert(final(self)@.entries =~= old(self)@.after_toggle(idx as int).entries);
                Ok(())
            },
            Err(e) => Err(e),
        }
    }

    /// Flips `editing` on the shown entry at `idx`. Other entries that are
    /// being edited stay so.
    ///
    /// Fails, and changes nothing, if no entry is shown at `idx`.
    pub fn toggle_edit(&mut self, idx: usize) -> (r: Result<(), OutOfRange>)
        ensures
            match r {
                Ok(()) => old(self)@.in_range(idx as int) && final(self)@ == old(
                    self,
                )@.after_toggle_edit(idx as int),
                Err(e) => !old(self)@.in_range(idx as int) && *final(self) == *old(self)
                    && e.index == idx && e.shown == old(self)@.shown().len(),
            },
    {
        match self.backing_index(idx) {
            Ok(at) => {
                self.entries[at].editing = !self.entries[at].editing;
                assert(final(self)@.entries =~= old(self)@.after_toggle_edit(idx as int).entries);
                Ok(())
            },
            Err(e) => Err(e),
        }
    }
}

} // verus!
