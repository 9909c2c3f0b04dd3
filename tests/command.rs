use exp_bot::command::{Command, ParseError};
use exp_bot::date::Date;
use exp_bot::digits::decimal_string;

const TODAY: Date = Date { epoch_day: 19_000 };

#[test]
fn parses_add_category() {
    assert_eq!(Command::parse_at("add_category", TODAY), Ok(Command::AddCategory));
}

#[test]
fn parses_confirm_and_reject() {
    assert_eq!(
        Command::parse_at("ccn:42", TODAY),
        Ok(Command::ConfirmCategoryName { msg_id: 42 })
    );
    assert_eq!(
        Command::parse_at("rcn:7", TODAY),
        Ok(Command::RejectCategoryName { msg_id: 7 })
    );
    assert_eq!(
        Command::parse_at("ccn:2147483647", TODAY),
        Ok(Command::ConfirmCategoryName { msg_id: 2147483647 })
    );
}

#[test]
fn parses_date_picks() {
    assert_eq!(
        Command::parse_at("ped:5:today", TODAY),
        Ok(Command::PickExpenseDate { msg_id: 5, date: TODAY })
    );
    assert_eq!(
        Command::parse_at("ped:5:yesterday", TODAY),
        Ok(Command::PickExpenseDate { msg_id: 5, date: Date { epoch_day: 18_999 } })
    );
}

#[test]
fn rejects_bad_message_ids() {
    for t in ["ccn:", "ccn:abc", "ccn:0", "ccn:-3", "ccn:2147483648", "rcn:1x", "ped::today", "ped:x:today"] {
        assert_eq!(Command::parse_at(t, TODAY), Err(ParseError::InvalidMessageId), "{t}");
    }
}

#[test]
fn rejects_unknown_date_kinds() {
    for t in ["ped:5:tomorrow", "ped:5", "ped:5:", "ped:5:today:x", "ped:5:Today"] {
        assert_eq!(Command::parse_at(t, TODAY), Err(ParseError::UnknownDateKind), "{t}");
    }
}

#[test]
fn rejects_unrecognized_tokens() {
    for t in ["", "add_category ", "Jan", "ccn", "xyz:5", "add"] {
        assert_eq!(Command::parse_at(t, TODAY), Err(ParseError::UnrecognizedCommand), "{t}");
    }
}

#[test]
fn decimal_forms_of_message_ids() {
    assert_eq!(decimal_string(0), "0");
    assert_eq!(decimal_string(7), "7");
    assert_eq!(decimal_string(57), "57");
    assert_eq!(decimal_string(1000), "1000");
    assert_eq!(decimal_string(-3), "-3");
    assert_eq!(decimal_string(i32::MAX), "2147483647");
    assert_eq!(decimal_string(i32::MIN), "-2147483648");
    for id in [1, 9, 10, 99, 12345, i32::MAX] {
        let token = format!("ccn:{}", decimal_string(id));
        assert_eq!(Command::parse_at(&token, TODAY), Ok(Command::ConfirmCategoryName { msg_id: id }));
    }
}
