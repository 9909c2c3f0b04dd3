//! Decision logic of an expense-tracking chat bot and of its expense-log chart tool:
//! button-token parsing, amount validation, the per-user conversation state store, the
//! conversation state machine, and the reading of plain-text expense logs.
pub mod amount;
pub mod calendar;
pub mod command;
pub mod conversation_state;
pub mod date;
pub mod digits;
pub mod dispatch;
pub mod expense_log;
pub mod machine;
pub mod storage;
pub mod text;
