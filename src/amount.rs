//! Expense amounts typed by the user.
use vstd::prelude::*;

use crate::digits::{all_digits, decimal_value, digits_value, is_digit};
use crate::text::chars_of;

verus! {

/// The largest mantissa an amount may have: 2^96 - 1, the largest that a 96-bit decimal
/// mantissa (as rust_decimal's `Decimal` has) holds.
pub const MAX_MANTISSA: u128 = 79228162514264337593543950335;

/// A non-negative decimal number: `mantissa / 10^scale`.
#[derive(Clone, Copy, Debug, PartialEq, Eq, Structural)]
pub struct Amount {
    pub mantissa: u128,
    pub scale: u32,
}

pub open spec fn is_separator(c: char) -> bool {
    c == '.' || c == ','
}

/// The whole part of an amount: `0`, or a nonzero digit followed by any digits.
pub open spec fn is_whole_part(s: Seq<char>) -> bool {
    s == seq!['0'] || (s.len() >= 1 && '1' <= s[0] && s[0] <= '9' && all_digits(s))
}

/// Where the decimal separator of an amount stands: one or two places before the end.
/// `s.len()` when neither place holds a separator.
pub open spec fn separator_index(s: Seq<char>) -> int {
    if s.len() >= 2 && is_separator(s[s.len() - 2]) {
        s.len() - 2
    } else if s.len() >= 3 && is_separator(s[s.len() - 3]) {
        s.len() - 3
    } else {
        s.len() as int
    }
}

pub open spec fn whole_digits(s: Seq<char>) -> Seq<char> {
    s.take(separator_index(s))
}

pub open spec fn fraction_digits(s: Seq<char>) -> Seq<char> {
    if separator_index(s) < s.len() {
        s.skip(separator_index(s) + 1)
    } else {
        Seq::empty()
    }
}

/// A valid amount: a whole part, then optionally a separator (`.` or `,`) and one or two
/// digits. So `0`, `12`, `12.5`, `0,99` are amounts; `00`, `012`, `12.345`, `.5`, `-5` are not.
pub open spec fn is_amount(s: Seq<char>) -> bool {
    is_whole_part(whole_digits(s)) && all_digits(fraction_digits(s))
}

/// The digits of an amount without its separator.
pub open spec fn mantissa_digits(s: Seq<char>) -> Seq<char> {
    whole_digits(s) + fraction_digits(s)
}

/// The amount that `s` denotes, when `s` is a valid amount whose mantissa is at most
/// `MAX_MANTISSA`.
pub open spec fn amount_of(s: Seq<char>) -> Option<Amount> {
    if is_amount(s) && digits_value(mantissa_digits(s)) <= MAX_MANTISSA {
        Some(
            Amount {
                mantissa: digits_value(mantissa_digits(s)) as u128,
                scale: fraction_digits(s).len() as u32,
            },
        )
    } else {
        None
    }
}

/// Reads an expense amount as the user typed it.
pub fn parse_amount(s: &str) -> (r: Option<Amount>)
    ensures
        r == amount_of(s@),
{
    let v = chars_of(s);
    let n = v.len();
    let idx: usize = if n >= 2 && (v[n - 2] == '.' || v[n - 2] == ',') {
        n - 2
    } else if n >= 3 && (v[n - 3] == '.' || v[n - 3] == ',') {
        n - 3
    } else {
        n
    };
    let ghost w = whole_digits(s@);
    let ghost f = fraction_digits(s@);
    assert(idx == separator_index(s@));
    assert(w == v@.take(idx as int));
    if idx == 0 || (v[0] == '0' && idx != 1) {
        assert(!is_whole_part(w)) by {
            if idx != 0 {
                assert(w[0] == '0');
                assert(w != seq!['0']) by {
                    assert(w.len() != 1);
                }
            }
        }
        return None;
    }
    let mut digits = v;
    if idx < n {
        digits.remove(idx);
    }
    let ghost m = mantissa_digits(s@);
    assert(digits@ =~= m);
    assert(all_digits(m) <==> (all_digits(w) && all_digits(f))) by {
        if all_digits(w) && all_digits(f) {
            assert forall|k: int| 0 <= k < m.len() implies is_digit(#[trigger] m[k]) by {
                if k < w.len() {
                    assert(m[k] == w[k]);
                } else {
                    assert(m[k] == f[k - w.len()]);
                }
            }
        }
        if all_digits(m) {
            assert forall|k: int| 0 <= k < w.len() implies is_digit(#[trigger] w[k]) by {
                assert(m[k] == w[k]);
            }
            assert forall|k: int| 0 <= k < f.len() implies is_digit(#[trigger] f[k]) by {
                assert(m[k + w.len()] == f[k]);
            }
        }
    }
    assert(is_whole_part(w) <==> all_digits(w)) by {
        if all_digits(w) && w[0] == '0' {
            assert(w =~= seq!['0']);
        }
    }
    let len = digits.len();
    assert(digits@.subrange(0, len as int) == m);
    match decimal_value(&digits, 0, len, MAX_MANTISSA) {
        Some(mantissa) => {
            let scale: u32 = if idx < n { (n - idx - 1) as u32 } else { 0 };
            Some(Amount { mantissa, scale })
        },
        None => None,
    }
}

} // verus!
