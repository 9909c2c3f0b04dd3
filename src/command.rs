//! Commands carried by the tokens of inline buttons.
use vstd::prelude::*;

use crate::date::Date;
use crate::digits::{
    all_digits, decimal_text, decimal_value, digits_value, lemma_digits_value_nonneg,
    lemma_natural_text, natural_text,
};
use crate::text::{chars_of, occurs_at, rest_equals};

verus! {

/// What pressing an inline button asks for.
#[derive(Clone, Copy, Debug, PartialEq, Eq, Structural)]
pub enum Command {
    AddCategory,
    ConfirmCategoryName { msg_id: i32 },
    RejectCategoryName { msg_id: i32 },
    PickExpenseDate { msg_id: i32, date: Date },
}

/// Why a token is not a command.
#[derive(Clone, Copy, Debug, PartialEq, Eq, Structural)]
pub enum ParseError {
    InvalidMessageId,
    UnknownDateKind,
    UnrecognizedCommand,
}

/// A message id in a token: decimal digits denoting a positive `i32`.
pub open spec fn message_id_of(s: Seq<char>) -> Option<i32> {
    if s.len() > 0 && all_digits(s) && 1 <= digits_value(s) <= i32::MAX {
        Some(digits_value(s) as i32)
    } else {
        None
    }
}

/// Index of the first `:` in `s`; `s.len()` when there is none.
pub open spec fn colon_index(s: Seq<char>) -> int
    decreases s.len(),
{
    if s.len() == 0 {
        0
    } else if s[0] == ':' {
        0
    } else {
        1 + colon_index(s.drop_first())
    }
}

/// `<msg_id>:<kind>`, the part of a date-picking token after its `ped:` code.
pub open spec fn date_pick_of(rest: Seq<char>, today: Date) -> Result<Command, ParseError> {
    let k = colon_index(rest);
    match message_id_of(rest.take(k)) {
        None => Err(ParseError::InvalidMessageId),
        Some(msg_id) => if k < rest.len() && rest.skip(k + 1) == "today"@ {
            Ok(Command::PickExpenseDate { msg_id, date: today })
        } else if k < rest.len() && rest.skip(k + 1) == "yesterday"@ {
            Ok(Command::PickExpenseDate { msg_id, date: Date { epoch_day: (today.epoch_day - 1) as i32 } })
        } else {
            Err(ParseError::UnknownDateKind)
        },
    }
}

pub open spec fn has_code(token: Seq<char>, code: Seq<char>) -> bool {
    token.len() >= code.len() && token.take(code.len() as int) == code
}

/// The command that `token` denotes, with `today` as the date that `today` and
/// `yesterday` are counted from.
pub open spec fn command_of(token: Seq<char>, today: Date) -> Result<Command, ParseError> {
    if token == "add_category"@ {
        Ok(Command::AddCategory)
    } else if has_code(token, "ccn:"@) {
        match message_id_of(token.skip(4)) {
            Some(msg_id) => Ok(Command::ConfirmCategoryName { msg_id }),
            None => Err(ParseError::InvalidMessageId),
        }
    } else if has_code(token, "rcn:"@) {
        match message_id_of(token.skip(4)) {
            Some(msg_id) => Ok(Command::RejectCategoryName { msg_id }),
            None => Err(ParseError::InvalidMessageId),
        }
    } else if has_code(token, "ped:"@) {
        date_pick_of(token.skip(4), today)
    } else {
        Err(ParseError::UnrecognizedCommand)
    }
}

pub proof fn lemma_colon_index(s: Seq<char>, i: int)
    requires
        0 <= i <= s.len(),
        forall|j: int| 0 <= j < i ==> s[j] != ':',
        i == s.len() || s[i] == ':',
    ensures
        colon_index(s) == i,
    decreases i,
{
    if i > 0 {
        lemma_colon_index(s.drop_first(), i - 1);
    }
}

/// The message id that `v[lo..hi]` denotes.
fn message_id_in(v: &Vec<char>, lo: usize, hi: usize) -> (r: Option<i32>)
    requires
        lo <= hi <= v@.len(),
    ensures
        r == message_id_of(v@.subrange(lo as int, hi as int)),
{
    if lo == hi {
        return None;
    }
    let ghost sub = v@.subrange(lo as int, hi as int);
    proof {
        if all_digits(sub) {
            lemma_digits_value_nonneg(sub);
        }
    }
    match decimal_value(v, lo, hi, 2147483647) {
        Some(n) => if n >= 1 {
            Some(n as i32)
        } else {
            None
        },
        None => None,
    }
}

impl Command {
    /// Decodes a button token; `today` is the date that `today` and `yesterday` are
    /// counted from.
    pub fn parse_at(token: &str, today: Date) -> (r: Result<Command, ParseError>)
        requires
            today.epoch_day > i32::MIN,
        ensures
            r == command_of(token@, today),
    {
        proof {
            reveal_strlit("ccn:");
            reveal_strlit("rcn:");
            reveal_strlit("ped:");
        }
        let v = chars_of(token);
        let n = v.len();
        assert(v@.subrange(0, n as int) == v@);
        if rest_equals(&v, 0, "add_category") {
            return Ok(Command::AddCategory);
        }
        if occurs_at(&v, 0, "ccn:") {
            assert(v@.skip(4) == v@.subrange(4, n as int));
            return match message_id_in(&v, 4, n) {
                Some(msg_id) => Ok(Command::ConfirmCategoryName { msg_id }),
                None => Err(ParseError::InvalidMessageId),
            };
        }
        if occurs_at(&v, 0, "rcn:") {
            assert(v@.skip(4) == v@.subrange(4, n as int));
            return match message_id_in(&v, 4, n) {
                Some(msg_id) => Ok(Command::RejectCategoryName { msg_id }),
                None => Err(ParseError::InvalidMessageId),
            };
        }
        if occurs_at(&v, 0, "ped:") {
            let ghost rest = v@.skip(4);
            let mut k: usize = 4;
            while k < n && v[k] != ':'
                invariant
                    4 <= k <= n == v@.len(),
                    rest == v@.skip(4),
                    forall|j: int| 0 <= j < k - 4 ==> rest[j] != ':',
                decreases n - k,
            {
                k = k + 1;
            }
            proof {
                lemma_colon_index(rest, k - 4);
            }
            assert(rest.take(k - 4) == v@.subrange(4, k as int));
            let msg_id = match message_id_in(&v, 4, k) {
                Some(msg_id) => msg_id,
                None => return Err(ParseError::InvalidMessageId),
            };
            if k < n {
                assert(rest.skip(k - 4 + 1) == v@.subrange(k + 1, n as int));
                if rest_equals(&v, k + 1, "today") {
                    return Ok(Command::PickExpenseDate { msg_id, date: today });
                }
                if rest_equals(&v, k + 1, "yesterday") {
                    return Ok(Command::PickExpenseDate { msg_id, date: today.previous() });
                }
            }
            return Err(ParseError::UnknownDateKind);
        }
        Err(ParseError::UnrecognizedCommand)
    }
}

proof fn lemma_date_token(id: Seq<char>, kind: Seq<char>)
    requires
        all_digits(id),
        kind.len() > 0,
        kind[0] == ':',
    ensures
        ("ped:"@ + id + kind)[0] == 'p',
        ("ped:"@ + id + kind).take(4) == "ped:"@,
        colon_index(("ped:"@ + id + kind).skip(4)) == id.len(),
        ("ped:"@ + id + kind).skip(4).take(id.len() as int) == id,
        ("ped:"@ + id + kind).skip(4).skip(id.len() as int + 1) == kind.drop_first(),
{
    reveal_strlit("ped:");
    let t = "ped:"@ + id + kind;
    let rest = t.skip(4);
    assert(t.take(4) =~= "ped:"@);
    assert(rest =~= id + kind);
    assert forall|j: int| 0 <= j < id.len() implies rest[j] != ':' by {
        assert(rest[j] == id[j]);
    }
    assert(rest[id.len() as int] == ':');
    lemma_colon_index(rest, id.len() as int);
    assert(rest.take(id.len() as int) =~= id);
    assert(rest.skip(id.len() as int + 1) =~= kind.drop_first());
}

/// The tokens that the conversation's buttons carry decode to the commands they stand
/// for, with the message id that they were made with.
pub proof fn lemma_button_tokens_decode(msg_id: i32, today: Date)
    requires
        msg_id >= 1,
    ensures
        command_of("add_category"@, today) == Ok::<Command, ParseError>(Command::AddCategory),
        command_of("ccn:"@ + decimal_text(msg_id as int), today) == Ok::<Command, ParseError>(
            Command::ConfirmCategoryName { msg_id },
        ),
        command_of("rcn:"@ + decimal_text(msg_id as int), today) == Ok::<Command, ParseError>(
            Command::RejectCategoryName { msg_id },
        ),
        command_of("ped:"@ + decimal_text(msg_id as int) + ":today"@, today) == Ok::<
            Command,
            ParseError,
        >(Command::PickExpenseDate { msg_id, date: today }),
        command_of("ped:"@ + decimal_text(msg_id as int) + ":yesterday"@, today) == Ok::<
            Command,
            ParseError,
        >(Command::PickExpenseDate { msg_id, date: Date { epoch_day: (today.epoch_day - 1) as i32 } }),
{
    reveal_strlit("add_category");
    reveal_strlit("ccn:");
    reveal_strlit("rcn:");
    reveal_strlit("ped:");
    reveal_strlit(":today");
    reveal_strlit(":yesterday");
    reveal_strlit("today");
    reveal_strlit("yesterday");
    let id = decimal_text(msg_id as int);
    lemma_natural_text(msg_id as nat);
    assert(id == natural_text(msg_id as nat));
    assert(message_id_of(id) == Some(msg_id));
    let ccn = "ccn:"@ + id;
    assert(ccn[0] == 'c');
    assert(ccn.take(4) =~= "ccn:"@);
    assert(ccn.skip(4) =~= id);
    let rcn = "rcn:"@ + id;
    assert(rcn[0] == 'r');
    assert(rcn.take(4) =~= "rcn:"@);
    assert(rcn.skip(4) =~= id);
    lemma_date_token(id, ":today"@);
    lemma_date_token(id, ":yesterday"@);
    assert(("ped:"@ + id + ":today"@).skip(4).skip(id.len() as int + 1) =~= "today"@);
    assert(("ped:"@ + id + ":yesterday"@).skip(4).skip(id.len() as int + 1) =~= "yesterday"@);
    assert("yesterday"@ != "today"@) by {
        assert("yesterday"@.len() != "today"@.len());
    }
}

} // verus!
