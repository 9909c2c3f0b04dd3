//! Where each user stands in a conversation, and the store that keeps it.
use std::collections::HashMap;

use vstd::prelude::*;

use crate::date::Date;

verus! {

broadcast use vstd::std_specs::hash::group_hash_axioms;

/// The step of a flow that a user has reached. A user with no state is idle.
#[derive(Debug, PartialEq, Eq)]
pub enum ConversationState {
    /// The next text message is the name of a new category.
    AwaitingCategoryName,
    /// The proposed name was echoed in reply to message `msg_id`; a confirm or reject
    /// button tied to that message is awaited.
    AwaitingCategoryNameConfirmation { msg_id: i32, category_name: String },
    /// The category is confirmed; a date button tied to message `msg_id` is awaited.
    AwaitingExpenseDate { msg_id: i32, category_name: String },
    /// The date is chosen; the next text message is the amount.
    AwaitingExpenseAmount { category_name: String, date: Date },
}

/// A `ConversationState` with its names as character sequences.
pub enum StateView {
    AwaitingCategoryName,
    AwaitingCategoryNameConfirmation { msg_id: i32, category_name: Seq<char> },
    AwaitingExpenseDate { msg_id: i32, category_name: Seq<char> },
    AwaitingExpenseAmount { category_name: Seq<char>, date: Date },
}

impl View for ConversationState {
    type V = StateView;

    open spec fn view(&self) -> StateView {
        match self {
            ConversationState::AwaitingCategoryName => StateView::AwaitingCategoryName,
            ConversationState::AwaitingCategoryNameConfirmation { msg_id, category_name } => {
                StateView::AwaitingCategoryNameConfirmation {
                    msg_id: *msg_id,
                    category_name: category_name@,
                }
            },
            ConversationState::AwaitingExpenseDate { msg_id, category_name } => {
                StateView::AwaitingExpenseDate { msg_id: *msg_id, category_name: category_name@ }
            },
            ConversationState::AwaitingExpenseAmount { category_name, date } => {
                StateView::AwaitingExpenseAmount { category_name: category_name@, date: *date }
            },
        }
    }
}

/// The view of an optional state.
pub open spec fn state_view(s: Option<ConversationState>) -> Option<StateView> {
    match s {
        Some(s) => Some(s@),
        None => None,
    }
}

impl Clone for ConversationState {
    fn clone(&self) -> (r: Self)
        ensures
            r == *self,
    {
        match self {
            ConversationState::AwaitingCategoryName => ConversationState::AwaitingCategoryName,
            ConversationState::AwaitingCategoryNameConfirmation { msg_id, category_name } => {
                ConversationState::AwaitingCategoryNameConfirmation {
                    msg_id: *msg_id,
                    category_name: category_name.clone(),
                }
            },
            ConversationState::AwaitingExpenseDate { msg_id, category_name } => {
                ConversationState::AwaitingExpenseDate {
                    msg_id: *msg_id,
                    category_name: category_name.clone(),
                }
            },
            ConversationState::AwaitingExpenseAmount { category_name, date } => {
                ConversationState::AwaitingExpenseAmount {
                    category_name: category_name.clone(),
                    date: *date,
                }
            },
        }
    }
}

/// The current state of each user: at most one per user, none for an idle user.
pub struct ConversationStates {
    states: HashMap<u64, ConversationState>,
}

impl View for ConversationStates {
    type V = Map<u64, StateView>;

    closed spec fn view(&self) -> Map<u64, StateView> {
        self.states@.map_values(|s: ConversationState| s@)
    }
}

impl ConversationStates {
    /// A store in which every user is idle.
    pub fn new() -> (r: ConversationStates)
        ensures
            r@ == Map::<u64, StateView>::empty(),
    {
        let r = ConversationStates { states: HashMap::new() };
        assert(r@ =~= Map::<u64, StateView>::empty());
        r
    }

    /// Makes `state` the state of `user_id`, replacing any earlier one.
    pub fn set(&mut self, user_id: u64, state: ConversationState)
        ensures
            final(self)@ == old(self)@.insert(user_id, state@),
    {
        let ghost state_view = state@;
        self.states.insert(user_id, state);
        assert(self@ =~= old(self)@.insert(user_id, state_view));
    }

    /// The state of `user_id`; `None` when the user is idle.
    pub fn get(&self, user_id: u64) -> (r: Option<ConversationState>)
        ensures
            state_view(r) == self@.get(user_id),
    {
        match self.states.get(&user_id) {
            Some(s) => Some(s.clone()),
            None => None,
        }
    }

    /// Makes `user_id` idle.
    pub fn clear(&mut self, user_id: u64)
        ensures
            final(self)@ == old(self)@.remove(user_id),
    {
        self.states.remove(&user_id);
        assert(self@ =~= old(self)@.remove(user_id));
    }
}

impl Default for ConversationStates {
    fn default() -> (r: ConversationStates)
        ensures
            r@ == Map::<u64, StateView>::empty(),
    {
        ConversationStates::new()
    }
}

/// Clearing a user and then reading their state gives no state, whatever the store held.
pub proof fn lemma_clear_then_get(states: Map<u64, StateView>, user_id: u64)
    ensures
        states.remove(user_id).get(user_id) == None::<StateView>,
{
}

/// A user holds at most one state: a second `set` replaces the first, and reading gives
/// the latest; other users keep theirs.
pub proof fn lemma_set_replaces(
    states: Map<u64, StateView>,
    user_id: u64,
    first: StateView,
    second: StateView,
    other: u64,
)
    requires
        other != user_id,
    ensures
        states.insert(user_id, first).insert(user_id, second).get(user_id) == Some(second),
        states.insert(user_id, first).insert(user_id, second).get(other) == states.get(other),
{
}

} // verus!
