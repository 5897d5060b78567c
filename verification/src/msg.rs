//! The messages that drive the list, and what each of them does.

use vstd::prelude::*;
use crate::error::OutOfRange;
use crate::filter::Filter;
use crate::model::StateView;
use crate::state::State;
use crate::theorems::lemma_messages_keep_descriptions_tidy;

verus! {

/// A request to the list.
pub enum Msg {
    /// Add an entry with this description.
    Add(String),
    /// Complete every shown entry, or, if all of them are completed
    /// already, make them active again.
    ToggleAll,
    /// Start or end the editing of the shown entry at this position.
    ToggleEdit(usize),
    /// Flip `completed` on the shown entry at this position.
    Toggle(usize),
    /// Remove the shown entry at this position.
    Remove(usize),
    /// Complete the edit of the shown entry at this position with this
    /// text.
    Edit(usize, String),
    /// Put the input focus on the edit field.
    Focus,
    /// Show the entries that pass this filter.
    Filter(Filter),
    /// Remove the completed entries.
    ClearCompleted,
}

/// What is left to the caller once a message has been applied.
#[derive(Clone, Copy, Debug, PartialEq, Eq, Structural)]
pub enum Effect {
    /// Store the entries.
    Store,
    /// Put the input focus on the edit field, then store the entries.
    FocusThenStore,
}

impl Msg {
    /// Whether the message can be applied to `state`: one that addresses
    /// an entry needs an entry shown at that position.
    pub open spec fn accepted_by(self, state: StateView) -> bool {
        match self {
            Msg::ToggleEdit(idx) => state.in_range(idx as int),
            Msg::Toggle(idx) => state.in_range(idx as int),
            Msg::Remove(idx) => state.in_range(idx as int),
            Msg::Edit(idx, _) => state.in_range(idx as int),
            _ => true,
        }
    }

    /// The position that the message addresses, if it addresses one.
    pub open spec fn position(self) -> Option<usize> {
        match self {
            Msg::ToggleEdit(idx) => Some(idx),
            Msg::Toggle(idx) => Some(idx),
            Msg::Remove(idx) => Some(idx),
            Msg::Edit(idx, _) => Some(idx),
            _ => None,
        }
    }

    /// The state that the message makes of `state`.
    pub open spec fn applied_to(self, state: StateView) -> StateView
        recommends
            self.accepted_by(state),
    {
        match self {
            Msg::Add(description) => state.after_add(description@),
            Msg::ToggleAll => state.after_toggle_all(!state.is_all_completed()),
            Msg::ToggleEdit(idx) => state.after_toggle_edit(idx as int),
            Msg::Toggle(idx) => state.after_toggle(idx as int),
            Msg::Remove(idx) => state.after_remove(idx as int),
            Msg::Edit(idx, value) => state.after_edit(idx as int, value@),
            Msg::Focus => state,
            Msg::Filter(filter) => state.after_set_filter(filter),
            Msg::ClearCompleted => state.after_clear_completed(),
        }
    }

    /// What the message leaves to the caller.
    pub open spec fn effect(self) -> Effect {
        match self {
            Msg::Focus => Effect::FocusThenStore,
            _ => Effect::Store,
        }
    }
}

impl State {
    /// Applies `msg` and says what is left to the caller.
    ///
    /// Fails, and changes nothing, if `msg` addresses a position at which
    /// no entry is shown. Descriptions that were tidy stay tidy.
    pub fn update(&mut self, msg: Msg) -> (r: Result<Effect, OutOfRange>)
        ensures
            match r {
                Ok(effect) => msg.accepted_by(old(self)@) && final(self)@ == msg.applied_to(
                    old(self)@,
                ) && effect == msg.effect(),
                Err(e) => !msg.accepted_by(old(self)@) && *final(self) == *old(self)
                    && msg.position() == Some(e.index) && e.shown == old(self)@.shown().len(),
            },
            old(self)@.is_tidy() ==> final(self)@.is_tidy(),
    {
        proof {
            if self@.is_tidy() && msg.accepted_by(self@) {
                lemma_messages_keep_descriptions_tidy(self@, msg);
            }
        }
        match msg {
            Msg::Add(description) => {
                self.add(description.as_str());
                Ok(Effect::Store)
            },
            Msg::ToggleAll => {
                let value = !self.is_all_completed();
                self.toggle_all(value);
                Ok(Effect::Store)
            },
            Msg::ToggleEdit(idx) => match self.toggle_edit(idx) {
                Ok(()) => Ok(Effect::Store),
                Err(e) => Err(e),
            },
            Msg::Toggle(idx) => match self.toggle(idx) {
                Ok(()) => Ok(Effect::Store),
                Err(e) => Err(e),
            },
            Msg::Remove(idx) => match self.remove(idx) {
                Ok(()) => Ok(Effect::Store),
                Err(e) => Err(e),
            },
            Msg::Edit(idx, value) => match self.edit(idx, value.as_str()) {
                Ok(()) => Ok(Effect::Store),
                Err(e) => Err(e),
            },
            Msg::Focus => Ok(Effect::FocusThenStore),
            Msg::Filter(filter) => {
                self.set_filter(filter);
                Ok(Effect::Store)
            },
            Msg::ClearCompleted => {
                self.clear_completed();
                Ok(Effect::Store)
            },
        }
    }
}

} // verus!
