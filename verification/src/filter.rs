//! Which entries are shown.

use vstd::prelude::*;
use crate::entry::{Entry, EntryView};

verus! {

/// A predicate over entries: all of them, those still to do, or those done.
#[derive(Clone, Copy, Debug, PartialEq, Eq, Structural)]
pub enum Filter {
    All,
    Active,
    Completed,
}

impl Filter {
    /// Whether the filter lets the entry through.
    pub open spec fn passes(self, entry: EntryView) -> bool {
        match self {
            Filter::All => true,
            Filter::Active => !entry.completed,
            Filter::Completed => entry.completed,
        }
    }

    /// [`Filter::passes`] as a function value, for `Seq::filter`.
    pub open spec fn predicate(self) -> spec_fn(EntryView) -> bool {
        |entry: EntryView| self.passes(entry)
    }

    /// The fragment that selects the filter in a link.
    pub open spec fn href(self) -> Seq<char> {
        match self {
            Filter::All => "#/"@,
            Filter::Active => "#/active"@,
            Filter::Completed => "#/completed"@,
        }
    }

    /// Whether `entry` passes the filter.
    pub fn fits(&self, entry: &Entry) -> (b: bool)
        ensures
            b == self.passes(entry@),
    {
        match self {
            Filter::All => true,
            Filter::Active => !entry.completed,
            Filter::Completed => entry.completed,
        }
    }

    /// The link target of the filter: `#/`, `#/active` or `#/completed`.
    pub fn as_href(&self) -> (href: &'static str)
        ensures
            href@ == self.href(),
    {
        match self {
            Filter::All => "#/",
            Filter::Active => "#/active",
            Filter::Completed => "#/completed",
        }
    }
}

} // verus!
