//! Character-level access to strings.
use vstd::prelude::*;
use vstd::string::*;

verus! {

/// The characters of `s`, in order.
pub fn chars_of(s: &str) -> (v: Vec<char>)
    ensures
        v@ == s@,
{
    let n = s.unicode_len();
    let mut v: Vec<char> = Vec::new();
    let mut i: usize = 0;
    while i < n
        invariant
            n == s@.len(),
            i <= n,
            v@ == s@.subrange(0, i as int),
        decreases n - i,
    {
        v.push(s.get_char(i));
        i = i + 1;
    }
    v
}

/// Whether `p` occurs in `v` starting at index `at`.
pub fn occurs_at(v: &Vec<char>, at: usize, p: &str) -> (r: bool)
    requires
        at <= v@.len(),
    ensures
        r == (at + p@.len() <= v@.len() && v@.subrange(at as int, at + p@.len()) == p@),
{
    let n = p.unicode_len();
    if n > v.len() - at {
        return false;
    }
    let mut i: usize = 0;
    while i < n
        invariant
            n == p@.len(),
            at + n <= v.len(),
            i <= n,
            v@.subrange(at as int, at + i) == p@.subrange(0, i as int),
        decreases n - i,
    {
        if v[at + i] != p.get_char(i) {
            assert(v@.subrange(at as int, at + n)[i as int] != p@[i as int]);
            return false;
        }
        assert(v@.subrange(at as int, at + i + 1) =~= p@.subrange(0, i + 1));
        i = i + 1;
    }
    assert(p@.subrange(0, n as int) == p@);
    true
}

/// Whether `v` from index `at` on holds exactly the characters of `p`.
pub fn rest_equals(v: &Vec<char>, at: usize, p: &str) -> (r: bool)
    requires
        at <= v@.len(),
    ensures
        r == (v@.subrange(at as int, v@.len() as int) == p@),
{
    let r = v.len() - at == p.unicode_len() && occurs_at(v, at, p);
    if !r && v.len() - at != p.unicode_len() {
        assert(v@.subrange(at as int, v@.len() as int).len() != p@.len());
    }
    r
}

} // verus!
