//! One item of the list.

use vstd::prelude::*;
use crate::text::trimmed;

verus! {

/// An item of the list: its text, whether it is done, and whether its text
/// is being edited at the moment.
#[derive(Debug, PartialEq, Eq)]
pub struct Entry {
    pub description: String,
    pub completed: bool,
    pub editing: bool,
}

/// What an [`Entry`] is to the contracts: the same three fields, with the
/// description as a sequence of characters.
pub ghost struct EntryView {
    pub description: Seq<char>,
    pub completed: bool,
    pub editing: bool,
}

impl View for Entry {
    type V = EntryView;

    open spec fn view(&self) -> EntryView {
        EntryView {
            description: self.description@,
            completed: self.completed,
            editing: self.editing,
        }
    }
}

impl DeepView for Entry {
    type V = EntryView;

    open spec fn deep_view(&self) -> EntryView {
        self@
    }
}

impl EntryView {
    /// The description is non-empty and neither starts nor ends with white
    /// space.
    pub open spec fn is_tidy(self) -> bool {
        self.description.len() > 0 && trimmed(self.description) == self.description
    }

    /// The entry with its `completed` flag set to `value`.
    pub open spec fn with_completed(self, value: bool) -> EntryView {
        EntryView { completed: value, ..self }
    }

    /// The entry with its `editing` flag set to `value`.
    pub open spec fn with_editing(self, value: bool) -> EntryView {
        EntryView { editing: value, ..self }
    }

    /// The entry with its description replaced.
    pub open spec fn with_description(self, description: Seq<char>) -> EntryView {
        EntryView { description, ..self }
    }
}

impl Entry {
    /// A fresh entry: not completed, not being edited.
    pub fn new(description: String) -> (entry: Entry)
        ensures
            entry.description == description,
            !entry.completed,
            !entry.editing,
    {
        Entry { description, completed: false, editing: false }
    }
}

} // verus!
