//! Decimal digit strings and their values.
use vstd::prelude::*;

verus! {

pub open spec fn is_digit(c: char) -> bool {
    '0' <= c && c <= '9'
}

pub open spec fn all_digits(s: Seq<char>) -> bool {
    forall|i: int| 0 <= i < s.len() ==> is_digit(#[trigger] s[i])
}

pub open spec fn digit_value(c: char) -> int {
    (c as u32) - ('0' as u32)
}

/// The number that the decimal digits `s` denote, most significant first.
pub open spec fn digits_value(s: Seq<char>) -> int
    decreases s.len(),
{
    if s.len() == 0 {
        0
    } else {
        10 * digits_value(s.drop_last()) + digit_value(s.last())
    }
}

pub proof fn lemma_digits_value_nonneg(s: Seq<char>)
    requires
        all_digits(s),
    ensures
        digits_value(s) >= 0,
    decreases s.len(),
{
    if s.len() > 0 {
        assert(is_digit(s[s.len() - 1]));
        lemma_digits_value_nonneg(s.drop_last());
    }
}

/// The value of `s[lo..hi]` read as a decimal number, when every character
/// there is a digit and the value is at most `limit`.
pub fn decimal_value(s: &Vec<char>, lo: usize, hi: usize, limit: u128) -> (r: Option<u128>)
    requires
        lo <= hi <= s@.len(),
        limit <= 10_000_000_000_000_000_000_000_000_000_000_000_000u128,
    ensures
        r == (if all_digits(s@.subrange(lo as int, hi as int)) && digits_value(
            s@.subrange(lo as int, hi as int),
        ) <= limit {
            Some(digits_value(s@.subrange(lo as int, hi as int)) as u128)
        } else {
            None
        }),
{
    let mut value: u128 = 0;
    let mut too_big = false;
    let mut i = lo;
    while i < hi
        invariant
            lo <= i <= hi <= s@.len(),
            limit <= 10_000_000_000_000_000_000_000_000_000_000_000_000u128,
            all_digits(s@.subrange(lo as int, i as int)),
            !too_big ==> value == digits_value(s@.subrange(lo as int, i as int)) && value <= limit,
            too_big ==> digits_value(s@.subrange(lo as int, i as int)) > limit,
        decreases hi - i,
    {
        let c = s[i];
        let ghost prev = s@.subrange(lo as int, i as int);
        let ghost next = s@.subrange(lo as int, i + 1);
        assert(next.drop_last() == prev);
        if !('0' <= c && c <= '9') {
            assert(!is_digit(s@.subrange(lo as int, hi as int)[i - lo]));
            return None;
        }
        assert(all_digits(next)) by {
            assert forall|k: int| 0 <= k < next.len() implies is_digit(#[trigger] next[k]) by {
                if k < prev.len() {
                    assert(next[k] == prev[k]);
                }
            }
        }
        proof {
            lemma_digits_value_nonneg(prev);
        }
        if !too_big {
            let d = (c as u32 - '0' as u32) as u128;
            value = value * 10 + d;
            if value > limit {
                too_big = true;
            }
        }
        i = i + 1;
    }
    assert(s@.subrange(lo as int, i as int) == s@.subrange(lo as int, hi as int));
    if too_big {
        None
    } else {
        Some(value)
    }
}

/// The character of the decimal digit `d`.
pub open spec fn digit_char(d: int) -> char {
    ((d + 48) as u8) as char
}

/// The decimal form of `n`, without leading zeros.
pub open spec fn natural_text(n: nat) -> Seq<char>
    decreases n,
{
    if n < 10 {
        seq![digit_char(n as int)]
    } else {
        natural_text(n / 10).push(digit_char((n % 10) as int))
    }
}

/// The decimal form of `n`, with a leading `-` when it is negative.
pub open spec fn decimal_text(n: int) -> Seq<char> {
    if n < 0 {
        seq!['-'] + natural_text((-n) as nat)
    } else {
        natural_text(n as nat)
    }
}

/// The decimal form of a number reads back as that number.
pub proof fn lemma_natural_text(n: nat)
    ensures
        natural_text(n).len() > 0,
        all_digits(natural_text(n)),
        digits_value(natural_text(n)) == n,
    decreases n,
{
    let s = natural_text(n);
    let d = (n % 10) as int;
    assert(digit_value(digit_char(d)) == d) by {
        assert(0 <= d < 10);
        assert(((d + 48) as u8) as char as u32 == d + 48);
    }
    assert(s.last() == digit_char(d));
    if n < 10 {
        assert(s.drop_last() =~= Seq::<char>::empty());
        assert(digits_value(s.drop_last()) == 0);
    } else {
        lemma_natural_text(n / 10);
        assert(s.drop_last() == natural_text(n / 10));
        assert forall|i: int| 0 <= i < s.len() implies is_digit(#[trigger] s[i]) by {
            if i < s.len() - 1 {
                assert(s[i] == natural_text(n / 10)[i]);
            }
        }
        assert(10 * (n / 10) + n % 10 == n);
    }
}

/// The one-character string of the decimal digit `d`.
fn digit_str(d: u32) -> (r: &'static str)
    requires
        d < 10,
    ensures
        r@ == seq![digit_char(d as int)],
{
    proof {
        reveal_strlit("0");
        reveal_strlit("1");
        reveal_strlit("2");
        reveal_strlit("3");
        reveal_strlit("4");
        reveal_strlit("5");
        reveal_strlit("6");
        reveal_strlit("7");
        reveal_strlit("8");
        reveal_strlit("9");
    }
    let r = if d == 0 {
        "0"
    } else if d == 1 {
        "1"
    } else if d == 2 {
        "2"
    } else if d == 3 {
        "3"
    } else if d == 4 {
        "4"
    } else if d == 5 {
        "5"
    } else if d == 6 {
        "6"
    } else if d == 7 {
        "7"
    } else if d == 8 {
        "8"
    } else {
        "9"
    };
    assert(r@ =~= seq![digit_char(d as int)]);
    r
}

/// The decimal form of `n`.
fn natural_string(n: u32) -> (r: String)
    ensures
        r@ == natural_text(n as nat),
    decreases n,
{
    if n < 10 {
        String::from_str(digit_str(n))
    } else {
        let mut r = natural_string(n / 10);
        r.append(digit_str(n % 10));
        assert(r@ =~= natural_text((n / 10) as nat).push(digit_char((n % 10) as int)));
        r
    }
}

/// The decimal form of `n`, with a leading `-` when it is negative.
pub fn decimal_string(n: i32) -> (r: String)
    ensures
        r@ == decimal_text(n as int),
{
    if n < 0 {
        proof {
            reveal_strlit("-");
        }
        let mut r = String::from_str("-");
        let magnitude = (-(n as i64)) as u32;
        r.append(natural_string(magnitude).as_str());
        r
    } else {
        natural_string(n as u32)
    }
}

} // verus!
