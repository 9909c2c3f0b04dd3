use exp_bot::amount::{parse_amount, Amount};

fn valid(s: &str) -> bool {
    parse_amount(s).is_some()
}

#[test]
fn amount_pattern_accepts_examples() {
    for s in ["0", "12", "12.5", "12.34", "0.99"] {
        assert!(valid(s), "{s} should be valid");
    }
}

#[test]
fn amount_pattern_rejects_examples() {
    for s in ["00", "12.345", "abc", "", "-5"] {
        assert!(!valid(s), "{s} should be invalid");
    }
}

#[test]
fn amount_pattern_edge_cases() {
    for s in ["12,5", "0,99", "7", "100", "1.00"] {
        assert!(valid(s), "{s} should be valid");
    }
    for s in ["0050", "012", ".5", "1.", "12.", "1.5.5", "1..5", "a", "a5", "5a", "1 ", " 1", "+5", "1,2,3"] {
        assert!(!valid(s), "{s} should be invalid");
    }
}

#[test]
fn amount_values() {
    assert_eq!(parse_amount("0"), Some(Amount { mantissa: 0, scale: 0 }));
    assert_eq!(parse_amount("12"), Some(Amount { mantissa: 12, scale: 0 }));
    assert_eq!(parse_amount("12.5"), Some(Amount { mantissa: 125, scale: 1 }));
    assert_eq!(parse_amount("12,34"), Some(Amount { mantissa: 1234, scale: 2 }));
    assert_eq!(parse_amount("0.99"), Some(Amount { mantissa: 99, scale: 2 }));
}

#[test]
fn amount_largest_mantissa() {
    assert_eq!(
        parse_amount("9223372036854775808"),
        Some(Amount { mantissa: 9223372036854775808, scale: 0 })
    );
    assert_eq!(
        parse_amount("79228162514264337593543950335"),
        Some(Amount { mantissa: 79228162514264337593543950335, scale: 0 })
    );
    assert_eq!(
        parse_amount("792281625142643375935439503,35"),
        Some(Amount { mantissa: 79228162514264337593543950335, scale: 2 })
    );
    assert_eq!(parse_amount("79228162514264337593543950336"), None);
    assert_eq!(parse_amount("123456789012345678901234567890"), None);
}
