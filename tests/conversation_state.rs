use exp_bot::conversation_state::{ConversationState, ConversationStates};
use exp_bot::date::Date;

#[test]
fn clear_then_get_is_absent() {
    let mut states = ConversationStates::new();
    states.set(1, ConversationState::AwaitingCategoryName);
    assert_eq!(states.get(1), Some(ConversationState::AwaitingCategoryName));
    states.clear(1);
    assert_eq!(states.get(1), None);
    states.clear(1);
    assert_eq!(states.get(1), None);
}

#[test]
fn one_state_per_user() {
    let mut states = ConversationStates::default();
    assert_eq!(states.get(7), None);
    states.set(7, ConversationState::AwaitingCategoryName);
    let later = ConversationState::AwaitingExpenseAmount {
        category_name: "Food".to_string(),
        date: Date { epoch_day: 3 },
    };
    states.set(7, later.clone());
    states.set(8, ConversationState::AwaitingCategoryName);
    assert_eq!(states.get(7), Some(later));
    assert_eq!(states.get(8), Some(ConversationState::AwaitingCategoryName));
    states.clear(7);
    assert_eq!(states.get(7), None);
    assert_eq!(states.get(8), Some(ConversationState::AwaitingCategoryName));
}
