//! The plain-text expense log: blocks of lines separated by blank lines, each block a
//! day number followed by one line per category, `<category> <value> <value> ...`.
use itertools::Itertools;
use vstd::prelude::*;
use vstd::string::*;

use crate::calendar::{month_days, month_days_up_to};
use crate::digits::{all_digits, decimal_value, digits_value, lemma_digits_value_nonneg};
use crate::text::chars_of;

verus! {

/// `s` cut at every space, as `str::split(' ')` cuts it: `n` spaces give `n + 1`
/// pieces, empty ones included.
pub open spec fn split_spaces(s: Seq<char>) -> Seq<Seq<char>>
    decreases s.len(),
{
    if s.len() == 0 {
        seq![Seq::empty()]
    } else {
        let init = split_spaces(s.drop_last());
        if s.last() == ' ' {
            init.push(Seq::empty())
        } else {
            init.update(init.len() - 1, init.last().push(s.last()))
        }
    }
}

pub proof fn lemma_split_spaces_nonempty(s: Seq<char>)
    ensures
        split_spaces(s).len() >= 1,
    decreases s.len(),
{
    if s.len() > 0 {
        lemma_split_spaces_nonempty(s.drop_last());
    }
}

pub open spec fn strings_view(v: Vec<String>) -> Seq<Seq<char>> {
    v@.map_values(|s: String| s@)
}

/// The pieces of `s` between spaces.
pub fn split_spaces_of(s: &str) -> (r: Vec<String>)
    ensures
        strings_view(r) == split_spaces(s@),
{
    let n = s.unicode_len();
    let mut pieces: Vec<String> = Vec::new();
    let mut start: usize = 0;
    let mut i: usize = 0;
    assert(s@.take(0).len() == 0);
    assert(strings_view(pieces).push(s@.subrange(0, 0)) =~~= split_spaces(s@.take(0)));
    while i < n
        invariant
            n == s@.len(),
            start <= i <= n,
            split_spaces(s@.take(i as int)) == strings_view(pieces).push(
                s@.subrange(start as int, i as int),
            ),
        decreases n - i,
    {
        let c = s.get_char(i);
        let ghost prev = split_spaces(s@.take(i as int));
        assert(s@.take(i + 1).drop_last() == s@.take(i as int));
        assert(s@.take(i + 1).last() == c);
        if c == ' ' {
            let piece = String::from_str(s.substring_char(start, i));
            let ghost before = strings_view(pieces);
            let ghost piece_view = piece@;
            pieces.push(piece);
            assert(strings_view(pieces) =~= before.push(piece_view));
            assert(split_spaces(s@.take(i + 1)) == prev.push(Seq::empty()));
            assert(prev.push(Seq::empty()) =~~= strings_view(pieces).push(s@.subrange(i + 1, i + 1)));
            start = i + 1;
        } else {
            assert(s@.subrange(start as int, i + 1) =~= s@.subrange(start as int, i as int).push(c));
            assert(split_spaces(s@.take(i + 1)) == prev.update(prev.len() - 1, prev.last().push(c)));
            assert(prev.update(prev.len() - 1, prev.last().push(c)) =~= strings_view(pieces).push(
                s@.subrange(start as int, i + 1),
            ));
        }
        i = i + 1;
    }
    let piece = String::from_str(s.substring_char(start, n));
    let ghost before = strings_view(pieces);
    let ghost piece_view = piece@;
    pieces.push(piece);
    assert(strings_view(pieces) =~= before.push(piece_view));
    assert(s@.take(n as int) == s@);
    pieces
}

/// A day number as `str::parse::<u32>` reads it: an optional `+`, then decimal digits
/// whose value fits in `u32`.
pub open spec fn day_number_of(s: Seq<char>) -> Option<u32> {
    let digits = if s.len() > 0 && s[0] == '+' {
        s.drop_first()
    } else {
        s
    };
    if digits.len() > 0 && all_digits(digits) && digits_value(digits) <= u32::MAX {
        Some(digits_value(digits) as u32)
    } else {
        None
    }
}

/// Reads a day number.
pub fn day_number(s: &str) -> (r: Option<u32>)
    ensures
        r == day_number_of(s@),
{
    let v = chars_of(s);
    let n = v.len();
    let lo: usize = if n > 0 && v[0] == '+' {
        1
    } else {
        0
    };
    assert(v@.subrange(lo as int, n as int) =~= (if s@.len() > 0 && s@[0] == '+' {
        s@.drop_first()
    } else {
        s@
    }));
    if lo == n {
        return None;
    }
    proof {
        if all_digits(v@.subrange(lo as int, n as int)) {
            lemma_digits_value_nonneg(v@.subrange(lo as int, n as int));
        }
    }
    match decimal_value(&v, lo, n, 4294967295) {
        Some(d) => Some(d as u32),
        None => None,
    }
}

/// One category line of a day: the category and its value tokens, not yet read as numbers.
#[derive(Debug, PartialEq, Eq)]
pub struct Entry {
    pub category: String,
    pub values: Vec<String>,
}

/// A day of the log and its category lines, in the order they were written.
#[derive(Debug, PartialEq, Eq)]
pub struct DayLog {
    pub day: u32,
    pub entries: Vec<Entry>,
}

/// Why a log cannot be read; `line` counts from 0.
#[derive(Clone, Copy, Debug, PartialEq, Eq, Structural)]
pub enum LogError {
    /// A block does not start with a day number.
    InvalidDay { line: usize },
    /// A block names a day that already has entries.
    DuplicateDay { line: usize, day: u32 },
    /// A day lists the same category twice.
    DuplicateCategory { line: usize, day: u32 },
}

pub type EntryView = (Seq<char>, Seq<Seq<char>>);

pub type DayView = (u32, Seq<EntryView>);

impl View for Entry {
    type V = EntryView;

    open spec fn view(&self) -> EntryView {
        (self.category@, strings_view(self.values))
    }
}

impl View for DayLog {
    type V = DayView;

    open spec fn view(&self) -> DayView {
        (self.day, self.entries@.map_values(|e: Entry| e@))
    }
}

pub open spec fn days_view(v: Vec<DayLog>) -> Seq<DayView> {
    v@.map_values(|d: DayLog| d@)
}

/// Where a reader of the log stands after some lines: inside a block or not, the
/// index of the block's day, and the days read so far.
pub struct LogState {
    pub in_block: bool,
    pub current: int,
    pub days: Seq<DayView>,
}

/// The index of `day` among `days`, searching from the end.
pub open spec fn find_day(days: Seq<DayView>, day: u32) -> Option<int>
    decreases days.len(),
{
    if days.len() == 0 {
        None
    } else if days.last().0 == day {
        Some(days.len() - 1)
    } else {
        find_day(days.drop_last(), day)
    }
}

pub open spec fn has_category(entries: Seq<EntryView>, category: Seq<char>) -> bool {
    exists|k: int| 0 <= k < entries.len() && #[trigger] entries[k].0 == category
}

/// A category line: its first piece is the category, the others are the values.
pub open spec fn entry_of(line: Seq<char>) -> EntryView {
    (split_spaces(line)[0], split_spaces(line).skip(1))
}

/// Reads line number `index`, `line`, in state `st`.
pub open spec fn read_line(st: LogState, line: Seq<char>, index: int) -> Result<LogState, LogError> {
    if line.len() == 0 {
        Ok(LogState { in_block: false, ..st })
    } else if !st.in_block {
        match day_number_of(line) {
            None => Err(LogError::InvalidDay { line: index as usize }),
            Some(day) => match find_day(st.days, day) {
                Some(k) => if st.days[k].1.len() > 0 {
                    Err(LogError::DuplicateDay { line: index as usize, day })
                } else {
                    Ok(LogState { in_block: true, current: k, days: st.days })
                },
                None => Ok(
                    LogState {
                        in_block: true,
                        current: st.days.len() as int,
                        days: st.days.push((day, Seq::empty())),
                    },
                ),
            },
        }
    } else {
        let (day, entries) = st.days[st.current];
        let entry = entry_of(line);
        if has_category(entries, entry.0) {
            Err(LogError::DuplicateCategory { line: index as usize, day })
        } else {
            Ok(LogState { days: st.days.update(st.current, (day, entries.push(entry))), ..st })
        }
    }
}

/// Reads `lines` in order, starting outside any block with the days `init`.
pub open spec fn read_lines(init: Seq<DayView>, lines: Seq<Seq<char>>) -> Result<LogState, LogError>
    decreases lines.len(),
{
    if lines.len() == 0 {
        Ok(LogState { in_block: false, current: 0, days: init })
    } else {
        match read_lines(init, lines.drop_last()) {
            Err(e) => Err(e),
            Ok(st) => read_line(st, lines.last(), lines.len() - 1),
        }
    }
}

/// The days that `lines` give, starting from the days `init`.
pub open spec fn log_of(init: Seq<DayView>, lines: Seq<Seq<char>>) -> Result<Seq<DayView>, LogError> {
    match read_lines(init, lines) {
        Ok(st) => Ok(st.days),
        Err(e) => Err(e),
    }
}

pub open spec fn log_result_view(r: Result<Vec<DayLog>, LogError>) -> Result<Seq<DayView>, LogError> {
    match r {
        Ok(days) => Ok(days_view(days)),
        Err(e) => Err(e),
    }
}

proof fn lemma_error_sticks(init: Seq<DayView>, lines: Seq<Seq<char>>, j: int)
    requires
        0 <= j <= lines.len(),
        read_lines(init, lines.take(j)) is Err,
    ensures
        read_lines(init, lines) == read_lines(init, lines.take(j)),
    decreases lines.len() - j,
{
    if j < lines.len() {
        assert(lines.take(j + 1).drop_last() == lines.take(j));
        lemma_error_sticks(init, lines, j + 1);
    } else {
        assert(lines.take(j) == lines);
    }
}

proof fn lemma_find_day(days: Seq<DayView>, day: u32)
    ensures
        match find_day(days, day) {
            Some(k) => 0 <= k < days.len() && days[k].0 == day,
            None => forall|k: int| 0 <= k < days.len() ==> days[k].0 != day,
        },
    decreases days.len(),
{
    if days.len() > 0 {
        lemma_find_day(days.drop_last(), day);
        if days.last().0 != day {
            assert forall|k: int| 0 <= k < days.len() - 1 implies days[k] == days.drop_last()[k] by {}
        }
    }
}

fn find_day_in(days: &Vec<DayLog>, day: u32) -> (r: Option<usize>)
    ensures
        match r {
            Some(k) => find_day(days_view(*days), day) == Some(k as int),
            None => find_day(days_view(*days), day) == None::<int>,
        },
{
    let ghost all = days_view(*days);
    let mut i = days.len();
    assert(all.take(i as int) == all);
    while i > 0
        invariant
            i <= days@.len(),
            all == days_view(*days),
            find_day(all, day) == find_day(all.take(i as int), day),
        decreases i,
    {
        assert(all.take(i as int).drop_last() == all.take(i - 1));
        if days[i - 1].day == day {
            return Some(i - 1);
        }
        i = i - 1;
    }
    None
}

fn has_category_in(entries: &Vec<Entry>, category: &String) -> (r: bool)
    ensures
        r == has_category(entries@.map_values(|e: Entry| e@), category@),
{
    let ghost all = entries@.map_values(|e: Entry| e@);
    let mut i: usize = 0;
    while i < entries.len()
        invariant
            i <= entries@.len(),
            all == entries@.map_values(|e: Entry| e@),
            forall|k: int| 0 <= k < i ==> all[k].0 != category@,
        decreases entries@.len() - i,
    {
        if entries[i].category == *category {
            assert(all[i as int].0 == category@);
            return true;
        }
        i = i + 1;
    }
    false
}

/// Reads the lines of a log, each already trimmed, starting from the days `init`.
pub fn read_log(init: Vec<DayLog>, lines: &Vec<String>) -> (r: Result<Vec<DayLog>, LogError>)
    ensures
        log_result_view(r) == log_of(days_view(init), strings_view(*lines)),
{
    let ghost init_view = days_view(init);
    let ghost all = strings_view(*lines);
    let mut days = init;
    let mut in_block = false;
    let mut current: usize = 0;
    let mut i: usize = 0;
    while i < lines.len()
        invariant
            i <= lines@.len(),
            all == strings_view(*lines),
            init_view == days_view(init),
            read_lines(init_view, all.take(i as int)) == Ok::<LogState, LogError>(
                LogState { in_block, current: current as int, days: days_view(days) },
            ),
            in_block ==> current < days@.len(),
        decreases lines@.len() - i,
    {
        assert(all.take(i + 1).drop_last() == all.take(i as int));
        let line = lines[i].as_str();
        assert(all.take(i + 1).last() == line@);
        if line.is_empty() {
            in_block = false;
        } else if !in_block {
            let day = match day_number(line) {
                Some(day) => day,
                None => {
                    proof { lemma_error_sticks(init_view, all, i + 1); }
                    return Err(LogError::InvalidDay { line: i });
                },
            };
            proof { lemma_find_day(days_view(days), day); }
            match find_day_in(&days, day) {
                Some(k) => {
                    if days[k].entries.len() > 0 {
                        proof { lemma_error_sticks(init_view, all, i + 1); }
                        return Err(LogError::DuplicateDay { line: i, day });
                    }
                    current = k;
                },
                None => {
                    let ghost before = days_view(days);
                    days.push(DayLog { day, entries: Vec::new() });
                    assert(days_view(days) =~~= before.push((day, Seq::empty())));
                    current = days.len() - 1;
                },
            }
            in_block = true;
        } else {
            let mut pieces = split_spaces_of(line);
            proof { lemma_split_spaces_nonempty(line@); }
            let ghost split = strings_view(pieces);
            let category = pieces.remove(0);
            assert(strings_view(pieces) =~= split.skip(1));
            if has_category_in(&days[current].entries, &category) {
                proof { lemma_error_sticks(init_view, all, i + 1); }
                return Err(LogError::DuplicateCategory { line: i, day: days[current].day });
            }
            let ghost before = days_view(days);
            let entry = Entry { category, values: pieces };
            let ghost entry_view = entry@;
            assert(entry_view == entry_of(line@));
            days[current].entries.push(entry);
            assert(days_view(days) =~~= before.update(
                current as int,
                (before[current as int].0, before[current as int].1.push(entry_view)),
            ));
        }
        i = i + 1;
    }
    assert(all.take(i as int) == all);
    Ok(days)
}

/// The categories of all entries, day by day, in the order they were written.
pub open spec fn entry_categories(days: Seq<DayView>) -> Seq<Seq<char>>
    decreases days.len(),
{
    if days.len() == 0 {
        Seq::empty()
    } else {
        entry_categories(days.drop_last()) + days.last().1.map_values(|e: EntryView| e.0)
    }
}

/// The elements of `s` without repeats, in the order they first appear.
pub open spec fn distinct(s: Seq<Seq<char>>) -> Seq<Seq<char>>
    decreases s.len(),
{
    if s.len() == 0 {
        Seq::empty()
    } else if distinct(s.drop_last()).contains(s.last()) {
        distinct(s.drop_last())
    } else {
        distinct(s.drop_last()).push(s.last())
    }
}

/// How many times `c` occurs in `s`.
pub open spec fn occurrences(s: Seq<Seq<char>>, c: Seq<char>) -> nat
    decreases s.len(),
{
    if s.len() == 0 {
        0
    } else {
        occurrences(s.drop_last(), c) + if s.last() == c {
            1nat
        } else {
            0nat
        }
    }
}

/// The categories of a log, each once, most frequent first; among equally frequent
/// ones, the one written first comes first.
pub open spec fn is_frequency_order(days: Seq<DayView>, r: Seq<Seq<char>>) -> bool {
    let names = entry_categories(days);
    let d = distinct(names);
    &&& r.len() == d.len()
    &&& forall|i: int| 0 <= i < r.len() ==> #[trigger] d.contains(r[i])
    &&& forall|i: int, j: int, a: int, b: int|
        #![trigger r[i], r[j], d[a], d[b]]
        0 <= i < j < r.len() && 0 <= a < d.len() && 0 <= b < d.len() && d[a] == r[i] && d[b]
            == r[j] ==> occurrences(names, r[i]) > occurrences(names, r[j]) || (occurrences(
            names,
            r[i],
        ) == occurrences(names, r[j]) && a < b)
}

pub proof fn lemma_distinct(s: Seq<Seq<char>>)
    ensures
        distinct(s).no_duplicates(),
        forall|x: Seq<char>| distinct(s).contains(x) <==> s.contains(x),
    decreases s.len(),
{
    if s.len() > 0 {
        lemma_distinct(s.drop_last());
        let dd = distinct(s.drop_last());
        assert forall|x: Seq<char>| distinct(s).contains(x) <==> s.contains(x) by {
            if s.drop_last().contains(x) {
                let k = choose|k: int| 0 <= k < s.len() - 1 && s.drop_last()[k] == x;
                assert(s[k] == x);
            }
            if s.contains(x) && x != s.last() {
                let k = choose|k: int| 0 <= k < s.len() && s[k] == x;
                assert(k != s.len() - 1);
                assert(s.drop_last()[k] == x);
            }
            if dd.contains(x) && !dd.contains(s.last()) {
                let k = choose|k: int| 0 <= k < dd.len() && dd[k] == x;
                assert(dd.push(s.last())[k] == x);
            }
            if !dd.contains(s.last()) {
                assert(dd.push(s.last())[dd.len() as int] == s.last());
            }
            if distinct(s).contains(x) && !dd.contains(x) {
                let k = choose|k: int| 0 <= k < distinct(s).len() && distinct(s)[k] == x;
                assert(k == dd.len());
            }
            if x == s.last() {
                assert(s[s.len() - 1] == x);
            }
        }
    }
}

pub proof fn lemma_occurrences_absent(s: Seq<Seq<char>>, c: Seq<char>)
    requires
        !s.contains(c),
    ensures
        occurrences(s, c) == 0,
    decreases s.len(),
{
    if s.len() > 0 {
        assert(s[s.len() - 1] == s.last());
        assert forall|k: int| 0 <= k < s.len() - 1 implies s.drop_last()[k] != c by {
            assert(s[k] == s.drop_last()[k]);
        }
        lemma_occurrences_absent(s.drop_last(), c);
    }
}

/// The categories of all entries of `days`, in order.
fn all_categories(days: &Vec<DayLog>) -> (r: Vec<String>)
    ensures
        strings_view(r) == entry_categories(days_view(*days)),
{
    let ghost dv = days_view(*days);
    let mut r: Vec<String> = Vec::new();
    let mut i: usize = 0;
    while i < days.len()
        invariant
            i <= days@.len(),
            dv == days_view(*days),
            strings_view(r) == entry_categories(dv.take(i as int)),
        decreases days@.len() - i,
    {
        let entries = &days[i].entries;
        let ghost ev = dv[i as int].1;
        let ghost before = strings_view(r);
        let mut j: usize = 0;
        while j < entries.len()
            invariant
                j <= entries@.len(),
                ev == entries@.map_values(|e: Entry| e@),
                strings_view(r) == before + ev.take(j as int).map_values(|e: EntryView| e.0),
            decreases entries@.len() - j,
        {
            let ghost prev = strings_view(r);
            r.push(entries[j].category.clone());
            assert(strings_view(r) =~= prev.push(ev[j as int].0));
            assert(ev.take(j + 1).map_values(|e: EntryView| e.0) =~= ev.take(j as int).map_values(
                |e: EntryView| e.0,
            ).push(ev[j as int].0));
            assert(strings_view(r) =~= before + ev.take(j + 1).map_values(|e: EntryView| e.0));
            j = j + 1;
        }
        assert(ev.take(j as int) == ev);
        assert(dv.take(i + 1).drop_last() == dv.take(i as int));
        assert(dv.take(i + 1).last() == dv[i as int]);
        i = i + 1;
    }
    assert(dv.take(i as int) == dv);
    r
}

/// The distinct names of `names` in order of first appearance, and how often each occurs.
fn count_categories(names: &Vec<String>) -> (r: (Vec<String>, Vec<usize>))
    ensures
        strings_view(r.0) == distinct(strings_view(*names)),
        r.1@.len() == r.0@.len(),
        forall|k: int| 0 <= k < r.1@.len() ==> r.1@[k] == occurrences(strings_view(*names), #[trigger] r.0@[k]@),
{
    let ghost nv = strings_view(*names);
    let mut cats: Vec<String> = Vec::new();
    let mut counts: Vec<usize> = Vec::new();
    let mut j: usize = 0;
    while j < names.len()
        invariant
            j <= names@.len(),
            nv == strings_view(*names),
            strings_view(cats) == distinct(nv.take(j as int)),
            counts@.len() == cats@.len(),
            forall|k: int| 0 <= k < counts@.len() ==> #[trigger] counts@[k] == occurrences(nv.take(j as int), cats@[k]@),
            forall|k: int| 0 <= k < counts@.len() ==> #[trigger] counts@[k] <= j,
        decreases names@.len() - j,
    {
        let ghost prefix = nv.take(j as int);
        let ghost next = nv.take(j + 1);
        let ghost x = nv[j as int];
        assert(next.drop_last() == prefix);
        assert(next.last() == x);
        proof { lemma_distinct(prefix); }
        let mut k: usize = 0;
        while k < cats.len() && !(cats[k] == names[j])
            invariant
                j < names@.len(),
                k <= cats@.len(),
                x == names@[j as int]@,
                forall|t: int| 0 <= t < k ==> cats@[t]@ != x,
            decreases cats@.len() - k,
        {
            k = k + 1;
        }
        let found = k < cats.len();
        if found {
            assert(strings_view(cats)[k as int] == x);
            let c = counts[k];
            counts.set(k, c + 1);
            assert forall|t: int| 0 <= t < counts@.len() implies #[trigger] counts@[t] == occurrences(next, cats@[t]@) by {
                if t != k {
                    assert(strings_view(cats)[t] != strings_view(cats)[k as int]);
                }
            }
        } else {
            assert(!strings_view(cats).contains(x)) by {
                if strings_view(cats).contains(x) {
                    let t = choose|t: int| 0 <= t < cats@.len() && strings_view(cats)[t] == x;
                    assert(cats@[t]@ == x);
                }
            }
            proof { lemma_occurrences_absent(prefix, x); }
            let ghost before = strings_view(cats);
            cats.push(names[j].clone());
            counts.push(1);
            assert(strings_view(cats) =~= before.push(x));
            assert forall|t: int| 0 <= t < counts@.len() implies #[trigger] counts@[t] == occurrences(next, cats@[t]@) by {
                if t < before.len() {
                    assert(before[t] != x) by {
                        assert(before.contains(before[t]));
                    }
                }
            }
        }
        j = j + 1;
    }
    assert(nv.take(j as int) == nv);
    (cats, counts)
}

pub open spec fn pair_le(a: (usize, usize), b: (usize, usize)) -> bool {
    a.0 < b.0 || (a.0 == b.0 && a.1 <= b.1)
}

/// Relies on itertools' `Itertools::sorted`: the same items in ascending order, tuples
/// comparing lexicographically as std orders them.
#[verifier::external_body]
fn sorted_pairs(v: Vec<(usize, usize)>) -> (r: Vec<(usize, usize)>)
    ensures
        r@.to_multiset() == v@.to_multiset(),
        forall|i: int, j: int| 0 <= i < j < r@.len() ==> pair_le(#[trigger] r@[i], #[trigger] r@[j]),
{
    v.into_iter().sorted().collect()
}

/// The categories of `days`, each once, most frequent first; among equally frequent ones
/// the one written first comes first.
pub fn frequency_order(days: &Vec<DayLog>) -> (r: Vec<String>)
    ensures
        is_frequency_order(days_view(*days), strings_view(r)),
{
    broadcast use vstd::seq_lib::group_to_multiset_ensures;

    let names = all_categories(days);
    let (cats, counts) = count_categories(&names);
    let ghost nv = strings_view(names);
    let ghost d = strings_view(cats);
    proof { lemma_distinct(nv); }
    let n = cats.len();
    let mut pairs: Vec<(usize, usize)> = Vec::new();
    let mut k: usize = 0;
    while k < n
        invariant
            k <= n == cats@.len() == counts@.len(),
            pairs@.len() == k,
            forall|t: int| 0 <= t < k ==> #[trigger] pairs@[t] == (counts@[t], (n - t) as usize),
        decreases n - k,
    {
        pairs.push((counts[k], n - k));
        k = k + 1;
    }
    assert(pairs@.no_duplicates()) by {
        assert forall|a: int, b: int| 0 <= a < pairs@.len() && 0 <= b < pairs@.len() && a != b implies pairs@[a] != pairs@[b] by {
            assert(pairs@[a].1 != pairs@[b].1);
        }
    }
    let ghost pv = pairs@;
    proof { pv.lemma_multiset_has_no_duplicates(); }
    let sorted = sorted_pairs(pairs);
    let m = sorted.len();
    proof {
        sorted@.lemma_multiset_has_no_duplicates_conv();
        vstd::seq_lib::to_multiset_len(sorted@);
        vstd::seq_lib::to_multiset_len(pv);
    }
    assert forall|t: int| 0 <= t < m implies 1 <= (#[trigger] sorted@[t]).1 <= n && sorted@[t].0 == counts@[n - sorted@[t].1] by {
        assert(sorted@.contains(sorted@[t]));
        vstd::seq_lib::to_multiset_contains(sorted@, sorted@[t]);
        vstd::seq_lib::to_multiset_contains(pv, sorted@[t]);
        let q = choose|q: int| 0 <= q < pv.len() && pv[q] == sorted@[t];
        assert(pv[q] == (counts@[q], (n - q) as usize));
    }
    let mut r: Vec<String> = Vec::new();
    let mut p = m;
    while p > 0
        invariant
            p <= m == n == cats@.len() == sorted@.len(),
            d == strings_view(cats),
            strings_view(r).len() == m - p,
            forall|t: int| 0 <= t < m ==> 1 <= (#[trigger] sorted@[t]).1 <= n,
            forall|q: int| 0 <= q < m - p ==> #[trigger] strings_view(r)[q] == d[n - sorted@[m - 1 - q].1],
        decreases p,
    {
        p = p - 1;
        let rank = sorted[p].1;
        let ghost before = strings_view(r);
        r.push(cats[n - rank].clone());
        assert(strings_view(r) =~= before.push(d[n - rank]));
    }
    let ghost rv = strings_view(r);
    assert forall|i: int| 0 <= i < rv.len() implies #[trigger] d.contains(rv[i]) by {
        assert(d[n - sorted@[m - 1 - i].1] == rv[i]);
    }
    assert forall|i: int, j: int, a: int, b: int|
        #![trigger rv[i], rv[j], d[a], d[b]]
        0 <= i < j < rv.len() && 0 <= a < d.len() && 0 <= b < d.len() && d[a] == rv[i] && d[b] == rv[j]
        implies occurrences(nv, rv[i]) > occurrences(nv, rv[j]) || (occurrences(nv, rv[i]) == occurrences(nv, rv[j]) && a < b) by {
        let si = sorted@[m - 1 - i];
        let sj = sorted@[m - 1 - j];
        assert(pair_le(sj, si));
        assert(a == n - si.1);
        assert(b == n - sj.1);
        assert(si != sj);
    }
    r
}

/// A character with Unicode's `White_Space` property: these 25 code points.
pub open spec fn is_white_space(c: char) -> bool {
    let u = c as u32;
    ||| 0x9 <= u <= 0xD
    ||| u == 0x20
    ||| u == 0x85
    ||| u == 0xA0
    ||| u == 0x1680
    ||| 0x2000 <= u <= 0x200A
    ||| u == 0x2028
    ||| u == 0x2029
    ||| u == 0x202F
    ||| u == 0x205F
    ||| u == 0x3000
}

/// `s` without its leading white space.
pub open spec fn trim_start_of(s: Seq<char>) -> Seq<char>
    decreases s.len(),
{
    if s.len() > 0 && is_white_space(s[0]) {
        trim_start_of(s.drop_first())
    } else {
        s
    }
}

/// `s` without its trailing white space.
pub open spec fn trim_end_of(s: Seq<char>) -> Seq<char>
    decreases s.len(),
{
    if s.len() > 0 && is_white_space(s.last()) {
        trim_end_of(s.drop_last())
    } else {
        s
    }
}

/// `s` without its leading and trailing white space.
pub open spec fn trim_of(s: Seq<char>) -> Seq<char> {
    trim_end_of(trim_start_of(s))
}

/// Relies on `str::trim`: `s` with leading and trailing characters of Unicode's
/// `White_Space` property removed.
#[verifier::external_body]
fn trimmed(s: &str) -> (r: String)
    ensures
        r@ == trim_of(s@),
{
    s.trim().to_string()
}

pub open spec fn trimmed_lines(lines: Seq<Seq<char>>) -> Seq<Seq<char>> {
    lines.map_values(|l: Seq<char>| trim_of(l))
}

/// Every day of `month` of `year`, with no entries yet.
pub open spec fn month_start(year: int, month: int) -> Seq<DayView> {
    month_days_up_to(year, month, 31).map_values(|d: u32| (d, Seq::<EntryView>::empty()))
}

/// Reads the log `lines` for `month` of `year`: every day of the month, then the days
/// the log adds, each with its entries; and the log's categories by frequency.
pub fn calculate(lines: &Vec<String>, year: i32, month: u32) -> (r: Result<(Vec<DayLog>, Vec<String>), LogError>)
    ensures
        match r {
            Ok((days, order)) => {
                &&& log_of(month_start(year as int, month as int), trimmed_lines(strings_view(*lines)))
                    == Ok::<Seq<DayView>, LogError>(days_view(days))
                &&& is_frequency_order(days_view(days), strings_view(order))
            },
            Err(e) => log_of(month_start(year as int, month as int), trimmed_lines(strings_view(*lines)))
                == Err::<Seq<DayView>, LogError>(e),
        },
{
    let month_days = month_days(year, month);
    let mut init: Vec<DayLog> = Vec::new();
    let mut k: usize = 0;
    while k < month_days.len()
        invariant
            k <= month_days@.len(),
            days_view(init) == month_days@.take(k as int).map_values(|d: u32| (d, Seq::<EntryView>::empty())),
        decreases month_days@.len() - k,
    {
        let ghost before = days_view(init);
        let entries: Vec<Entry> = Vec::new();
        assert(entries@.map_values(|e: Entry| e@) =~= Seq::<EntryView>::empty());
        let day = DayLog { day: month_days[k], entries };
        let ghost day_view = day@;
        init.push(day);
        assert(days_view(init) =~= before.push(day_view));
        assert(month_days@.take(k + 1).map_values(|d: u32| (d, Seq::<EntryView>::empty())) =~= month_days@.take(
            k as int,
        ).map_values(|d: u32| (d, Seq::<EntryView>::empty())).push(day_view));
        k = k + 1;
    }
    assert(month_days@.take(k as int) == month_days@);
    let mut trimmed_log: Vec<String> = Vec::new();
    let mut i: usize = 0;
    while i < lines.len()
        invariant
            i <= lines@.len(),
            strings_view(trimmed_log) == trimmed_lines(strings_view(*lines)).take(i as int),
        decreases lines@.len() - i,
    {
        let ghost before = strings_view(trimmed_log);
        let t = trimmed(lines[i].as_str());
        let ghost tv = t@;
        trimmed_log.push(t);
        assert(strings_view(trimmed_log) =~= before.push(tv));
        assert(trimmed_lines(strings_view(*lines))[i as int] == tv);
        assert(strings_view(trimmed_log) =~= trimmed_lines(strings_view(*lines)).take(i + 1));
        i = i + 1;
    }
    assert(trimmed_lines(strings_view(*lines)).take(i as int) == trimmed_lines(strings_view(*lines)));
    match read_log(init, &trimmed_log) {
        Ok(days) => {
            let order = frequency_order(&days);
            Ok((days, order))
        },
        Err(e) => Err(e),
    }
}

} // verus!
