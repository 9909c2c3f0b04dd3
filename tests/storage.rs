use exp_bot::dispatch::next_offset;
use exp_bot::storage::{inserted, user_key};

#[test]
fn user_keys_fit_signed_integers() {
    assert_eq!(user_key(0), Some(0));
    assert_eq!(user_key(123456789), Some(123456789));
    assert_eq!(user_key(9223372036854775807), Some(i64::MAX));
    assert_eq!(user_key(9223372036854775808), None);
    assert_eq!(user_key(u64::MAX), None);
}

#[test]
fn modified_rows_tell_insertion() {
    assert!(inserted(1));
    assert!(!inserted(0));
}

#[test]
fn offset_moves_past_handled_updates() {
    assert_eq!(next_offset(0, 0), 1);
    assert_eq!(next_offset(0, 41), 42);
    assert_eq!(next_offset(42, 41), 42);
    assert_eq!(next_offset(42, 42), 43);
    assert_eq!(next_offset(-5, 3), 4);
}
