use exp_bot::calendar::month_days;
use exp_bot::expense_log::{
    calculate, day_number, frequency_order, read_log, split_spaces_of, DayLog, Entry, LogError,
};

fn lines(text: &[&str]) -> Vec<String> {
    text.iter().map(|l| l.to_string()).collect()
}

fn entry(category: &str, values: &[&str]) -> Entry {
    Entry { category: category.to_string(), values: values.iter().map(|v| v.to_string()).collect() }
}

#[test]
fn month_day_lists() {
    assert_eq!(month_days(2023, 2).len(), 28);
    assert_eq!(month_days(2024, 2).len(), 29);
    assert_eq!(month_days(1900, 2).len(), 28);
    assert_eq!(month_days(2000, 2).len(), 29);
    assert_eq!(month_days(2023, 4).len(), 30);
    assert_eq!(month_days(2023, 12), (1..=31).collect::<Vec<u32>>());
    assert!(month_days(2023, 13).is_empty());
    assert!(month_days(2023, 0).is_empty());
}

#[test]
fn splits_on_single_spaces() {
    assert_eq!(split_spaces_of("food 1.5 2"), vec!["food", "1.5", "2"]);
    assert_eq!(split_spaces_of("food"), vec!["food"]);
    assert_eq!(split_spaces_of(""), vec![""]);
    assert_eq!(split_spaces_of("a  b "), vec!["a", "", "b", ""]);
}

#[test]
fn day_numbers() {
    assert_eq!(day_number("7"), Some(7));
    assert_eq!(day_number("+7"), Some(7));
    assert_eq!(day_number("007"), Some(7));
    assert_eq!(day_number("4294967295"), Some(u32::MAX));
    assert_eq!(day_number("4294967296"), None);
    assert_eq!(day_number(""), None);
    assert_eq!(day_number("+"), None);
    assert_eq!(day_number("-1"), None);
    assert_eq!(day_number("x1"), None);
}

#[test]
fn reads_a_month_log() {
    let log = lines(&["1", "food 10 2.5", " taxi 7 ", "", "", "3", "food 4", "", "32", "rent 500"]);
    let (days, order) = calculate(&log, 2023, 2).unwrap();
    assert_eq!(days.len(), 29);
    assert_eq!(days[0], DayLog { day: 1, entries: vec![entry("food", &["10", "2.5"]), entry("taxi", &["7"])] });
    assert_eq!(days[1], DayLog { day: 2, entries: vec![] });
    assert_eq!(days[2], DayLog { day: 3, entries: vec![entry("food", &["4"])] });
    assert_eq!(days[28], DayLog { day: 32, entries: vec![entry("rent", &["500"])] });
    assert_eq!(order, vec!["food", "taxi", "rent"]);
}

#[test]
fn log_errors() {
    assert_eq!(
        calculate(&lines(&["x"]), 2023, 1),
        Err(LogError::InvalidDay { line: 0 })
    );
    assert_eq!(
        calculate(&lines(&["2", "food 1", "", "2", "taxi 1"]), 2023, 1),
        Err(LogError::DuplicateDay { line: 3, day: 2 })
    );
    assert_eq!(
        calculate(&lines(&["2", "food 1", "food 2"]), 2023, 1),
        Err(LogError::DuplicateCategory { line: 2, day: 2 })
    );
}

#[test]
fn an_empty_day_may_be_named_again() {
    let (days, _) = calculate(&lines(&["2", "", "2", "food 1"]), 2023, 1).unwrap();
    assert_eq!(days[1], DayLog { day: 2, entries: vec![entry("food", &["1"])] });
    let days = read_log(vec![], &lines(&["5", "", "5", "a 1", "", "6"])).unwrap();
    assert_eq!(
        days,
        vec![DayLog { day: 5, entries: vec![entry("a", &["1"])] }, DayLog { day: 6, entries: vec![] }]
    );
}

#[test]
fn categories_by_frequency() {
    let days = read_log(
        vec![],
        &lines(&["1", "b 1", "a 1", "", "2", "c 1", "a 1", "", "3", "c 1", "d 1", "b 1"]),
    )
    .unwrap();
    assert_eq!(frequency_order(&days), vec!["b", "a", "c", "d"]);
    assert!(frequency_order(&vec![]).is_empty());
}

#[test]
fn lines_are_trimmed_of_unicode_white_space() {
    let log = lines(&["\u{3000}4\t", "\tfood 1\u{a0}", " \t ", "5", "taxi\u{2003}2 3"]);
    let (days, _) = calculate(&log, 2023, 1).unwrap();
    assert_eq!(days[3], DayLog { day: 4, entries: vec![entry("food", &["1"])] });
    assert_eq!(days[4], DayLog { day: 5, entries: vec![entry("taxi\u{2003}2", &["3"])] });
}
