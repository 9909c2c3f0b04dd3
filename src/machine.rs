//! The conversation state machine: from a user's state and an inbound event to the
//! next state and what to do about it. It performs no I/O; the caller carries out
//! each decision and, after a store, reports the outcome back.
use vstd::prelude::*;
use vstd::string::*;

use crate::amount::{amount_of, parse_amount, Amount};
use crate::command::Command;
use crate::conversation_state::{state_view, ConversationState, StateView};
use crate::date::Date;
use crate::digits::{decimal_string, decimal_text};
use crate::text::{chars_of, rest_equals};

verus! {

/// An inline button: what it shows and the token it sends back when pressed.
#[derive(Debug, PartialEq, Eq)]
pub struct Button {
    pub label: String,
    pub data: String,
}

/// A message to send, with rows of inline buttons under it.
#[derive(Debug, PartialEq, Eq)]
pub struct Reply {
    pub text: String,
    pub keyboard: Vec<Vec<Button>>,
}

/// What becomes of the user's stored state.
#[derive(Debug, PartialEq, Eq)]
pub enum NextState {
    Keep,
    Replace(ConversationState),
    Clear,
}

/// An inbound event: a text message, or a pressed button whose token was decoded.
/// `msg_id` is the id of the message the event comes with.
#[derive(Debug, PartialEq, Eq)]
pub enum Event {
    Text { msg_id: i32, text: String },
    Callback { msg_id: i32, command: Command },
}

/// What the caller does for an event.
#[derive(Debug, PartialEq, Eq)]
pub enum Decision {
    /// Nothing at all.
    Ignore,
    /// Delete the inbound message `msg_id`; the state stays.
    Delete { msg_id: i32 },
    /// Apply `next` to the stored state, then send `reply`.
    Reply { reply: Reply, next: NextState },
    /// Store the category (insert-or-ignore), then go on with `category_added`.
    StoreCategory { category_name: String, prompt_msg_id: i32 },
    /// Store the expense, then go on with `expense_added`.
    StoreExpense { category_name: String, amount: Amount, date: Date },
}

pub type ButtonView = (Seq<char>, Seq<char>);

pub enum NextView {
    Keep,
    Replace(StateView),
    Clear,
}

pub enum EventView {
    Text { msg_id: i32, text: Seq<char> },
    Callback { msg_id: i32, command: Command },
}

pub enum DecisionView {
    Ignore,
    Delete { msg_id: i32 },
    Reply { text: Seq<char>, keyboard: Seq<Seq<ButtonView>>, next: NextView },
    StoreCategory { category_name: Seq<char>, prompt_msg_id: i32 },
    StoreExpense { category_name: Seq<char>, amount: Amount, date: Date },
}

impl View for Button {
    type V = ButtonView;

    open spec fn view(&self) -> ButtonView {
        (self.label@, self.data@)
    }
}

pub open spec fn keyboard_view(k: Vec<Vec<Button>>) -> Seq<Seq<ButtonView>> {
    k@.map_values(|row: Vec<Button>| row@.map_values(|b: Button| b@))
}

impl View for NextState {
    type V = NextView;

    open spec fn view(&self) -> NextView {
        match self {
            NextState::Keep => NextView::Keep,
            NextState::Replace(s) => NextView::Replace(s@),
            NextState::Clear => NextView::Clear,
        }
    }
}

impl View for Event {
    type V = EventView;

    open spec fn view(&self) -> EventView {
        match self {
            Event::Text { msg_id, text } => EventView::Text { msg_id: *msg_id, text: text@ },
            Event::Callback { msg_id, command } => EventView::Callback {
                msg_id: *msg_id,
                command: *command,
            },
        }
    }
}

impl View for Decision {
    type V = DecisionView;

    open spec fn view(&self) -> DecisionView {
        match self {
            Decision::Ignore => DecisionView::Ignore,
            Decision::Delete { msg_id } => DecisionView::Delete { msg_id: *msg_id },
            Decision::Reply { reply, next } => DecisionView::Reply {
                text: reply.text@,
                keyboard: keyboard_view(reply.keyboard),
                next: next@,
            },
            Decision::StoreCategory { category_name, prompt_msg_id } => {
                DecisionView::StoreCategory {
                    category_name: category_name@,
                    prompt_msg_id: *prompt_msg_id,
                }
            },
            Decision::StoreExpense { category_name, amount, date } => {
                DecisionView::StoreExpense {
                    category_name: category_name@,
                    amount: *amount,
                    date: *date,
                }
            },
        }
    }
}

pub open spec fn reply_view(text: Seq<char>, keyboard: Seq<Seq<ButtonView>>, next: NextView) -> DecisionView {
    DecisionView::Reply { text, keyboard, next }
}

pub open spec fn choose_category_keyboard() -> Seq<Seq<ButtonView>> {
    seq![seq![("add category"@, "add_category"@)]]
}

/// `/add_expense`: offer the categories; the state stays.
pub open spec fn add_expense_step() -> DecisionView {
    reply_view("choose category"@, choose_category_keyboard(), NextView::Keep)
}

/// The add-category button: ask for the name.
pub open spec fn add_category_step() -> DecisionView {
    reply_view(
        "please, provide category name"@,
        Seq::empty(),
        NextView::Replace(StateView::AwaitingCategoryName),
    )
}

/// A proposed category name in message `msg_id`: echo it with buttons tied to that message.
pub open spec fn category_name_step(msg_id: i32, name: Seq<char>) -> DecisionView {
    reply_view(
        "[category confirmation]: "@ + name,
        seq![
            seq![
                ("confirm"@, "ccn:"@ + decimal_text(msg_id as int)),
                ("reject"@, "rcn:"@ + decimal_text(msg_id as int)),
            ],
        ],
        NextView::Replace(
            StateView::AwaitingCategoryNameConfirmation { msg_id, category_name: name },
        ),
    )
}

/// The confirm button of prompt `source`, pressed on message `msg_id`.
pub open spec fn confirm_category_name_step(
    state: Option<StateView>,
    source: i32,
    msg_id: i32,
) -> DecisionView {
    match state {
        Some(StateView::AwaitingCategoryNameConfirmation { msg_id: expected, category_name }) => {
            if expected == source {
                DecisionView::StoreCategory { category_name, prompt_msg_id: msg_id }
            } else {
                DecisionView::Ignore
            }
        },
        _ => DecisionView::Ignore,
    }
}

/// After storing category `name` (`inserted` when it was new): ask for the date with
/// buttons tied to message `prompt_msg_id`.
pub open spec fn category_added_step(name: Seq<char>, prompt_msg_id: i32, inserted: bool) -> DecisionView {
    let id = decimal_text(prompt_msg_id as int);
    reply_view(
        (if inserted {
            "category '"@ + name + "' added"@
        } else {
            "category '"@ + name + "' has already been added"@
        }) + "\n\nplease, provide expense date"@,
        seq![
            seq![("today"@, "ped:"@ + id + ":today"@)],
            seq![("yesterday"@, "ped:"@ + id + ":yesterday"@)],
        ],
        NextView::Replace(StateView::AwaitingExpenseDate { msg_id: prompt_msg_id, category_name: name }),
    )
}

/// The reject button of prompt `source`.
pub open spec fn reject_category_name_step(state: Option<StateView>, source: i32) -> DecisionView {
    match state {
        Some(StateView::AwaitingCategoryNameConfirmation { msg_id: expected, .. }) => {
            if expected == source {
                reply_view("choose category"@, choose_category_keyboard(), NextView::Clear)
            } else {
                DecisionView::Ignore
            }
        },
        _ => DecisionView::Ignore,
    }
}

/// A date button of prompt `source`.
pub open spec fn pick_expense_date_step(state: Option<StateView>, source: i32, date: Date) -> DecisionView {
    match state {
        Some(StateView::AwaitingExpenseDate { msg_id: expected, category_name }) => {
            if expected == source {
                reply_view(
                    "please, provide expense amount"@,
                    Seq::empty(),
                    NextView::Replace(StateView::AwaitingExpenseAmount { category_name, date }),
                )
            } else {
                DecisionView::Ignore
            }
        },
        _ => DecisionView::Ignore,
    }
}

/// A proposed amount for an expense in category `name` on `date`.
pub open spec fn expense_amount_step(name: Seq<char>, date: Date, text: Seq<char>) -> DecisionView {
    match amount_of(text) {
        Some(amount) => DecisionView::StoreExpense { category_name: name, amount, date },
        None => reply_view("invalid expense amount, try again"@, Seq::empty(), NextView::Keep),
    }
}

/// After storing an expense: confirm it and end the flow.
pub open spec fn expense_added_step() -> DecisionView {
    reply_view("expense added"@, Seq::empty(), NextView::Clear)
}

/// A text that starts with `/`.
pub open spec fn is_command_text(text: Seq<char>) -> bool {
    text.len() > 0 && text[0] == '/'
}

/// Text message `msg_id` holding `text`.
pub open spec fn message_step(state: Option<StateView>, msg_id: i32, text: Seq<char>) -> DecisionView {
    if text == "/add_expense"@ {
        add_expense_step()
    } else {
        match state {
            Some(StateView::AwaitingCategoryName) => {
                if text.len() > 0 && !is_command_text(text) {
                    category_name_step(msg_id, text)
                } else {
                    DecisionView::Delete { msg_id }
                }
            },
            Some(StateView::AwaitingExpenseAmount { category_name, date }) => {
                expense_amount_step(category_name, date, text)
            },
            _ => DecisionView::Delete { msg_id },
        }
    }
}

/// A button press on message `msg_id` whose token decoded to `command`.
pub open spec fn callback_step(state: Option<StateView>, msg_id: i32, command: Command) -> DecisionView {
    match command {
        Command::AddCategory => add_category_step(),
        Command::ConfirmCategoryName { msg_id: source } => {
            confirm_category_name_step(state, source, msg_id)
        },
        Command::RejectCategoryName { msg_id: source } => reject_category_name_step(state, source),
        Command::PickExpenseDate { msg_id: source, date } => {
            pick_expense_date_step(state, source, date)
        },
    }
}

/// The transition table: what to do for `event` when the user's state is `state`
/// (`None`: idle).
pub open spec fn step(state: Option<StateView>, event: EventView) -> DecisionView {
    match event {
        EventView::Text { msg_id, text } => message_step(state, msg_id, text),
        EventView::Callback { msg_id, command } => callback_step(state, msg_id, command),
    }
}

fn button(label: &str, data: String) -> (b: Button)
    ensures
        b@ == (label@, data@),
{
    Button { label: String::from_str(label), data }
}

fn choose_category_reply() -> (r: Reply)
    ensures
        r.text@ == "choose category"@,
        keyboard_view(r.keyboard) == choose_category_keyboard(),
{
    let mut row: Vec<Button> = Vec::new();
    row.push(button("add category", String::from_str("add_category")));
    let mut keyboard: Vec<Vec<Button>> = Vec::new();
    keyboard.push(row);
    assert(keyboard_view(keyboard) =~~= choose_category_keyboard());
    Reply { text: String::from_str("choose category"), keyboard }
}

fn plain_reply(text: &str) -> (r: Reply)
    ensures
        r.text@ == text@,
        keyboard_view(r.keyboard) == Seq::<Seq<ButtonView>>::empty(),
{
    let keyboard: Vec<Vec<Button>> = Vec::new();
    assert(keyboard_view(keyboard) =~~= Seq::<Seq<ButtonView>>::empty());
    Reply { text: String::from_str(text), keyboard }
}

/// Answers `/add_expense`.
pub fn add_expense() -> (d: Decision)
    ensures
        d@ == add_expense_step(),
{
    Decision::Reply { reply: choose_category_reply(), next: NextState::Keep }
}

/// Answers the add-category button.
pub fn add_category() -> (d: Decision)
    ensures
        d@ == add_category_step(),
{
    Decision::Reply {
        reply: plain_reply("please, provide category name"),
        next: NextState::Replace(ConversationState::AwaitingCategoryName),
    }
}

/// Answers a proposed category name `name` sent in message `msg_id`.
pub fn category_name(msg_id: i32, name: &str) -> (d: Decision)
    ensures
        d@ == category_name_step(msg_id, name@),
{
    let mut text = String::from_str("[category confirmation]: ");
    text.append(name);
    let mut confirm = String::from_str("ccn:");
    confirm.append(decimal_string(msg_id).as_str());
    let mut reject = String::from_str("rcn:");
    reject.append(decimal_string(msg_id).as_str());
    let mut row: Vec<Button> = Vec::new();
    row.push(button("confirm", confirm));
    row.push(button("reject", reject));
    let mut keyboard: Vec<Vec<Button>> = Vec::new();
    keyboard.push(row);
    assert(keyboard_view(keyboard) =~~= seq![
        seq![
            ("confirm"@, "ccn:"@ + decimal_text(msg_id as int)),
            ("reject"@, "rcn:"@ + decimal_text(msg_id as int)),
        ],
    ]);
    Decision::Reply {
        reply: Reply { text, keyboard },
        next: NextState::Replace(
            ConversationState::AwaitingCategoryNameConfirmation {
                msg_id,
                category_name: String::from_str(name),
            },
        ),
    }
}

/// Answers the confirm button of prompt `source`, pressed on message `msg_id`.
pub fn confirm_category_name(state: &Option<ConversationState>, source: i32, msg_id: i32) -> (d: Decision)
    ensures
        d@ == confirm_category_name_step(state_view(*state), source, msg_id),
{
    match state {
        Some(ConversationState::AwaitingCategoryNameConfirmation { msg_id: expected, category_name }) => {
            if *expected == source {
                Decision::StoreCategory { category_name: category_name.clone(), prompt_msg_id: msg_id }
            } else {
                Decision::Ignore
            }
        },
        _ => Decision::Ignore,
    }
}

/// Goes on after category `name` was stored; `inserted` tells whether it was new.
pub fn category_added(name: &str, prompt_msg_id: i32, inserted: bool) -> (d: Decision)
    ensures
        d@ == category_added_step(name@, prompt_msg_id, inserted),
{
    let mut text = String::from_str("category '");
    text.append(name);
    if inserted {
        text.append("' added");
    } else {
        text.append("' has already been added");
    }
    text.append("\n\nplease, provide expense date");
    let mut today = String::from_str("ped:");
    today.append(decimal_string(prompt_msg_id).as_str());
    today.append(":today");
    let mut yesterday = String::from_str("ped:");
    yesterday.append(decimal_string(prompt_msg_id).as_str());
    yesterday.append(":yesterday");
    let mut first: Vec<Button> = Vec::new();
    first.push(button("today", today));
    let mut second: Vec<Button> = Vec::new();
    second.push(button("yesterday", yesterday));
    let mut keyboard: Vec<Vec<Button>> = Vec::new();
    keyboard.push(first);
    keyboard.push(second);
    let ghost id = decimal_text(prompt_msg_id as int);
    assert(keyboard_view(keyboard) =~~= seq![
        seq![("today"@, "ped:"@ + id + ":today"@)],
        seq![("yesterday"@, "ped:"@ + id + ":yesterday"@)],
    ]);
    assert(text@ == (if inserted {
        "category '"@ + name@ + "' added"@
    } else {
        "category '"@ + name@ + "' has already been added"@
    }) + "\n\nplease, provide expense date"@);
    Decision::Reply {
        reply: Reply { text, keyboard },
        next: NextState::Replace(
            ConversationState::AwaitingExpenseDate {
                msg_id: prompt_msg_id,
                category_name: String::from_str(name),
            },
        ),
    }
}

/// Answers the reject button of prompt `source`.
pub fn reject_category_name(state: &Option<ConversationState>, source: i32) -> (d: Decision)
    ensures
        d@ == reject_category_name_step(state_view(*state), source),
{
    match state {
        Some(ConversationState::AwaitingCategoryNameConfirmation { msg_id: expected, .. }) => {
            if *expected == source {
                Decision::Reply { reply: choose_category_reply(), next: NextState::Clear }
            } else {
                Decision::Ignore
            }
        },
        _ => Decision::Ignore,
    }
}

/// Answers a date button of prompt `source` that picked `date`.
pub fn pick_expense_date(state: &Option<ConversationState>, source: i32, date: Date) -> (d: Decision)
    ensures
        d@ == pick_expense_date_step(state_view(*state), source, date),
{
    match state {
        Some(ConversationState::AwaitingExpenseDate { msg_id: expected, category_name }) => {
            if *expected == source {
                Decision::Reply {
                    reply: plain_reply("please, provide expense amount"),
                    next: NextState::Replace(
                        ConversationState::AwaitingExpenseAmount {
                            category_name: category_name.clone(),
                            date,
                        },
                    ),
                }
            } else {
                Decision::Ignore
            }
        },
        _ => Decision::Ignore,
    }
}

/// Answers a proposed amount `text` for an expense in category `name` on `date`.
pub fn expense_amount(name: &String, date: Date, text: &str) -> (d: Decision)
    ensures
        d@ == expense_amount_step(name@, date, text@),
{
    match parse_amount(text) {
        Some(amount) => Decision::StoreExpense { category_name: name.clone(), amount, date },
        None => Decision::Reply {
            reply: plain_reply("invalid expense amount, try again"),
            next: NextState::Keep,
        },
    }
}

/// Goes on after an expense was stored.
pub fn expense_added() -> (d: Decision)
    ensures
        d@ == expense_added_step(),
{
    Decision::Reply { reply: plain_reply("expense added"), next: NextState::Clear }
}

/// Answers text message `msg_id` holding `text`.
pub fn handle_message(state: &Option<ConversationState>, msg_id: i32, text: &str) -> (d: Decision)
    ensures
        d@ == message_step(state_view(*state), msg_id, text@),
{
    let v = chars_of(text);
    assert(v@.subrange(0, v@.len() as int) == v@);
    if rest_equals(&v, 0, "/add_expense") {
        return add_expense();
    }
    match state {
        Some(ConversationState::AwaitingCategoryName) => {
            if v.len() > 0 && v[0] != '/' {
                category_name(msg_id, text)
            } else {
                Decision::Delete { msg_id }
            }
        },
        Some(ConversationState::AwaitingExpenseAmount { category_name, date }) => {
            expense_amount(category_name, *date, text)
        },
        _ => Decision::Delete { msg_id },
    }
}

/// Answers a button press on message `msg_id` whose token decoded to `command`.
pub fn handle_callback(state: &Option<ConversationState>, msg_id: i32, command: Command) -> (d: Decision)
    ensures
        d@ == callback_step(state_view(*state), msg_id, command),
{
    match command {
        Command::AddCategory => add_category(),
        Command::ConfirmCategoryName { msg_id: source } => confirm_category_name(state, source, msg_id),
        Command::RejectCategoryName { msg_id: source } => reject_category_name(state, source),
        Command::PickExpenseDate { msg_id: source, date } => pick_expense_date(state, source, date),
    }
}

/// What to do for `event` when the user's stored state is `state` (`None`: idle).
pub fn transition(state: &Option<ConversationState>, event: &Event) -> (d: Decision)
    ensures
        d@ == step(state_view(*state), event@),
{
    match event {
        Event::Text { msg_id, text } => handle_message(state, *msg_id, text.as_str()),
        Event::Callback { msg_id, command } => handle_callback(state, *msg_id, *command),
    }
}

/// The transition is a function of the state and the event alone: two decisions taken
/// for the same state and the same event are the same decision.
pub proof fn lemma_transition_deterministic(
    state: Option<StateView>,
    event: EventView,
    first: DecisionView,
    second: DecisionView,
)
    requires
        first == step(state, event),
        second == step(state, event),
    ensures
        first == second,
{
}

/// A confirm button whose prompt is not the one the stored state awaits (a stale or
/// duplicate press) neither changes the state nor produces any effect.
pub proof fn lemma_stale_confirm_ignored(state: Option<StateView>, msg_id: i32, source: i32)
    requires
        match state {
            Some(StateView::AwaitingCategoryNameConfirmation { msg_id: expected, .. }) => expected
                != source,
            _ => true,
        },
    ensures
        step(
            state,
            EventView::Callback { msg_id, command: Command::ConfirmCategoryName { msg_id: source } },
        ) == DecisionView::Ignore,
{
}

/// Storing a category that was new and one that was already there lead to the same next
/// state and the same date buttons; only the first line of the reply differs.
pub proof fn lemma_category_store_outcomes(name: Seq<char>, prompt_msg_id: i32)
    ensures
        match (category_added_step(name, prompt_msg_id, true), category_added_step(name, prompt_msg_id, false)) {
            (
                DecisionView::Reply { text: added, keyboard: k1, next: n1 },
                DecisionView::Reply { text: already, keyboard: k2, next: n2 },
            ) => {
                &&& k1 == k2
                &&& n1 == n2
                &&& n1 == NextView::Replace(
                    StateView::AwaitingExpenseDate { msg_id: prompt_msg_id, category_name: name },
                )
                &&& added == "category '"@ + name + "' added"@ + "\n\nplease, provide expense date"@
                &&& already == "category '"@ + name + "' has already been added"@
                    + "\n\nplease, provide expense date"@
            },
            _ => false,
        },
{
}

/// How far into a flow a state is: idle, awaiting the name, its confirmation, the date,
/// the amount.
pub open spec fn stage(state: Option<StateView>) -> int {
    match state {
        None => 0,
        Some(StateView::AwaitingCategoryName) => 1,
        Some(StateView::AwaitingCategoryNameConfirmation { .. }) => 2,
        Some(StateView::AwaitingExpenseDate { .. }) => 3,
        Some(StateView::AwaitingExpenseAmount { .. }) => 4,
    }
}

/// A flow only moves forward one step at a time: a new state is the next stage or, for
/// the add-category button, the start of a flow; the stores happen in the stages that
/// they end, and the step after each store is the next stage or idle.
pub proof fn lemma_flow_moves_one_step(state: Option<StateView>, event: EventView)
    ensures
        match step(state, event) {
            DecisionView::Reply { next: NextView::Replace(s), .. } => stage(Some(s)) == stage(state)
                + 1 || s == StateView::AwaitingCategoryName,
            DecisionView::StoreCategory { .. } => stage(state) == 2,
            DecisionView::StoreExpense { .. } => stage(state) == 4,
            _ => true,
        },
        forall|name: Seq<char>, id: i32, inserted: bool|
            #[trigger] category_added_step(name, id, inserted) matches DecisionView::Reply {
                next: NextView::Replace(s),
                ..
            } && stage(Some(s)) == 3,
        expense_added_step() matches DecisionView::Reply { next: NextView::Clear, .. },
{
}

/// The reject and date buttons are guarded like the confirm button: one whose prompt is
/// not the one the stored state awaits changes nothing and does nothing.
pub proof fn lemma_stale_buttons_ignored(state: Option<StateView>, msg_id: i32, source: i32, date: Date)
    requires
        match state {
            Some(StateView::AwaitingCategoryNameConfirmation { msg_id: expected, .. }) => expected
                != source,
            Some(StateView::AwaitingExpenseDate { msg_id: expected, .. }) => expected != source,
            _ => true,
        },
    ensures
        step(
            state,
            EventView::Callback { msg_id, command: Command::RejectCategoryName { msg_id: source } },
        ) == DecisionView::Ignore,
        step(
            state,
            EventView::Callback { msg_id, command: Command::PickExpenseDate { msg_id: source, date } },
        ) == DecisionView::Ignore,
{
}

} // verus!
