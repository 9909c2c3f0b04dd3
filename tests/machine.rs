use exp_bot::amount::Amount;
use exp_bot::command::Command;
use exp_bot::conversation_state::{ConversationState, ConversationStates};
use exp_bot::date::Date;
use exp_bot::machine::{
    category_added, expense_added, transition, Button, Decision, Event, NextState, Reply,
};

const USER: u64 = 11;

fn text(msg_id: i32, t: &str) -> Event {
    Event::Text { msg_id, text: t.to_string() }
}

fn press(msg_id: i32, token: &str, today: Date) -> Event {
    Event::Callback { msg_id, command: Command::parse_at(token, today).unwrap() }
}

fn button(label: &str, data: &str) -> Button {
    Button { label: label.to_string(), data: data.to_string() }
}

fn reply_text(d: &Decision) -> &str {
    match d {
        Decision::Reply { reply, .. } => &reply.text,
        other => panic!("not a reply: {other:?}"),
    }
}

/// Carries out a reply decision on the store and returns what would be sent.
fn apply(states: &mut ConversationStates, d: Decision) -> Option<Reply> {
    match d {
        Decision::Reply { reply, next } => {
            match next {
                NextState::Keep => {}
                NextState::Replace(s) => states.set(USER, s),
                NextState::Clear => states.clear(USER),
            }
            Some(reply)
        }
        Decision::Ignore | Decision::Delete { .. } => None,
        other => panic!("store decisions are carried out by the caller: {other:?}"),
    }
}

#[test]
fn scenario_add_expense_then_add_category() {
    let mut states = ConversationStates::new();
    let d = transition(&states.get(USER), &text(1, "/add_expense"));
    let reply = apply(&mut states, d).unwrap();
    assert_eq!(reply.text, "choose category");
    assert_eq!(reply.keyboard, vec![vec![button("add category", "add_category")]]);
    assert_eq!(states.get(USER), None);

    let d = transition(&states.get(USER), &press(2, &reply.keyboard[0][0].data, Date { epoch_day: 0 }));
    let reply = apply(&mut states, d).unwrap();
    assert_eq!(reply.text, "please, provide category name");
    assert!(reply.keyboard.is_empty());
    assert_eq!(states.get(USER), Some(ConversationState::AwaitingCategoryName));
}

#[test]
fn scenario_category_name_is_echoed() {
    let mut states = ConversationStates::new();
    states.set(USER, ConversationState::AwaitingCategoryName);
    let d = transition(&states.get(USER), &text(57, "Groceries"));
    let reply = apply(&mut states, d).unwrap();
    assert_eq!(reply.text, "[category confirmation]: Groceries");
    assert_eq!(
        reply.keyboard,
        vec![vec![button("confirm", "ccn:57"), button("reject", "rcn:57")]]
    );
    assert_eq!(
        states.get(USER),
        Some(ConversationState::AwaitingCategoryNameConfirmation {
            msg_id: 57,
            category_name: "Groceries".to_string(),
        })
    );
}

#[test]
fn scenario_confirm_with_matching_id() {
    let mut states = ConversationStates::new();
    states.set(
        USER,
        ConversationState::AwaitingCategoryNameConfirmation {
            msg_id: 57,
            category_name: "Groceries".to_string(),
        },
    );
    let today = Date { epoch_day: 20_000 };
    let d = transition(&states.get(USER), &press(58, "ccn:57", today));
    assert_eq!(
        d,
        Decision::StoreCategory { category_name: "Groceries".to_string(), prompt_msg_id: 58 }
    );
    // the caller stores the category, which was new
    let reply = apply(&mut states, category_added("Groceries", 58, true)).unwrap();
    assert_eq!(
        reply.text,
        "category 'Groceries' added\n\nplease, provide expense date"
    );
    assert_eq!(
        reply.keyboard,
        vec![
            vec![button("today", "ped:58:today")],
            vec![button("yesterday", "ped:58:yesterday")],
        ]
    );
    assert_eq!(
        states.get(USER),
        Some(ConversationState::AwaitingExpenseDate {
            msg_id: 58,
            category_name: "Groceries".to_string(),
        })
    );

    let d = transition(&states.get(USER), &press(59, &reply.keyboard[1][0].data, today));
    let reply = apply(&mut states, d).unwrap();
    assert_eq!(reply.text, "please, provide expense amount");
    assert_eq!(
        states.get(USER),
        Some(ConversationState::AwaitingExpenseAmount {
            category_name: "Groceries".to_string(),
            date: Date { epoch_day: 19_999 },
        })
    );
}

#[test]
fn scenario_confirm_with_stale_id() {
    let mut states = ConversationStates::new();
    let waiting = ConversationState::AwaitingCategoryNameConfirmation {
        msg_id: 60,
        category_name: "Rent".to_string(),
    };
    states.set(USER, waiting.clone());
    let d = transition(&states.get(USER), &press(61, "ccn:57", Date { epoch_day: 1 }));
    assert_eq!(d, Decision::Ignore);
    assert_eq!(apply(&mut states, d), None);
    assert_eq!(states.get(USER), Some(waiting.clone()));
    let d = transition(&states.get(USER), &press(61, "rcn:57", Date { epoch_day: 1 }));
    assert_eq!(d, Decision::Ignore);
    let d = transition(&states.get(USER), &press(61, "ped:60:today", Date { epoch_day: 1 }));
    assert_eq!(d, Decision::Ignore);
    assert_eq!(states.get(USER), Some(waiting));
}

#[test]
fn scenario_invalid_then_valid_amount() {
    let mut states = ConversationStates::new();
    let date = Date { epoch_day: 19_500 };
    let waiting = ConversationState::AwaitingExpenseAmount {
        category_name: "Groceries".to_string(),
        date,
    };
    states.set(USER, waiting.clone());
    let d = transition(&states.get(USER), &text(70, "12.345"));
    let reply = apply(&mut states, d).unwrap();
    assert_eq!(reply.text, "invalid expense amount, try again");
    assert_eq!(states.get(USER), Some(waiting));

    let d = transition(&states.get(USER), &text(71, "12.34"));
    assert_eq!(
        d,
        Decision::StoreExpense {
            category_name: "Groceries".to_string(),
            amount: Amount { mantissa: 1234, scale: 2 },
            date,
        }
    );
    let reply = apply(&mut states, expense_added()).unwrap();
    assert_eq!(reply.text, "expense added");
    assert_eq!(states.get(USER), None);
}

#[test]
fn category_insert_outcomes() {
    let added = category_added("Fuel", 9, true);
    let already = category_added("Fuel", 9, false);
    assert_eq!(reply_text(&added), "category 'Fuel' added\n\nplease, provide expense date");
    assert_eq!(
        reply_text(&already),
        "category 'Fuel' has already been added\n\nplease, provide expense date"
    );
    let mut a = ConversationStates::new();
    let mut b = ConversationStates::new();
    let ra = apply(&mut a, added).unwrap();
    let rb = apply(&mut b, already).unwrap();
    assert_eq!(ra.keyboard, rb.keyboard);
    assert_eq!(a.get(USER), b.get(USER));
    assert_eq!(
        a.get(USER),
        Some(ConversationState::AwaitingExpenseDate { msg_id: 9, category_name: "Fuel".to_string() })
    );
}

#[test]
fn transition_is_deterministic() {
    let state = Some(ConversationState::AwaitingCategoryName);
    let event = text(3, "Books");
    assert_eq!(transition(&state, &event), transition(&state, &event));
    let state = Some(ConversationState::AwaitingExpenseAmount {
        category_name: "Books".to_string(),
        date: Date { epoch_day: 5 },
    });
    let event = text(4, "3,5");
    assert_eq!(transition(&state, &event), transition(&state, &event));
}

#[test]
fn idle_text_is_deleted() {
    assert_eq!(transition(&None, &text(12, "hello")), Decision::Delete { msg_id: 12 });
    let confirming = Some(ConversationState::AwaitingCategoryNameConfirmation {
        msg_id: 1,
        category_name: "X".to_string(),
    });
    assert_eq!(transition(&confirming, &text(13, "hello")), Decision::Delete { msg_id: 13 });
    let naming = Some(ConversationState::AwaitingCategoryName);
    assert_eq!(transition(&naming, &text(14, "/start")), Decision::Delete { msg_id: 14 });
    assert_eq!(transition(&naming, &text(15, "")), Decision::Delete { msg_id: 15 });
}

#[test]
fn add_expense_in_any_state_keeps_it() {
    let naming = Some(ConversationState::AwaitingCategoryName);
    match transition(&naming, &text(16, "/add_expense")) {
        Decision::Reply { reply, next } => {
            assert_eq!(reply.text, "choose category");
            assert_eq!(next, NextState::Keep);
        }
        other => panic!("unexpected {other:?}"),
    }
}

#[test]
fn reject_returns_to_idle() {
    let confirming = Some(ConversationState::AwaitingCategoryNameConfirmation {
        msg_id: 30,
        category_name: "Taxi".to_string(),
    });
    match transition(&confirming, &press(31, "rcn:30", Date { epoch_day: 0 })) {
        Decision::Reply { reply, next } => {
            assert_eq!(reply.text, "choose category");
            assert_eq!(reply.keyboard, vec![vec![button("add category", "add_category")]]);
            assert_eq!(next, NextState::Clear);
        }
        other => panic!("unexpected {other:?}"),
    }
}

#[test]
fn add_category_button_in_any_state() {
    let amount = Some(ConversationState::AwaitingExpenseAmount {
        category_name: "Taxi".to_string(),
        date: Date { epoch_day: 0 },
    });
    match transition(&amount, &press(40, "add_category", Date { epoch_day: 0 })) {
        Decision::Reply { reply, next } => {
            assert_eq!(reply.text, "please, provide category name");
            assert_eq!(next, NextState::Replace(ConversationState::AwaitingCategoryName));
        }
        other => panic!("unexpected {other:?}"),
    }
}
