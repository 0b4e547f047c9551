//! Character-level helpers over `str` and `String`.

use vstd::prelude::*;
use vstd::string::*;

verus! {

/// `part` occurs as a contiguous run of characters inside `whole`.
pub open spec fn has_infix(whole: Seq<char>, part: Seq<char>) -> bool {
    exists|i: int|
        0 <= i && i + part.len() <= whole.len() && #[trigger] whole.subrange(i, i + part.len())
            == part
}

/// The characters of `s`, in order.
pub fn chars_of(s: &str) -> (r: Vec<char>)
    ensures
        r@ == s@,
{
    let n = s.unicode_len();
    let mut r: Vec<char> = Vec::new();
    let mut i: usize = 0;
    while i < n
        invariant
            n == s@.len(),
            i <= n,
            r@ == s@.subrange(0, i as int),
        decreases n - i,
    {
        r.push(s.get_char(i));
        i += 1;
    }
    assert(r@ =~= s@);
    r
}

fn matches_at(whole: &Vec<char>, part: &Vec<char>, i: usize) -> (r: bool)
    requires
        i + part@.len() <= whole@.len(),
    ensures
        r == (whole@.subrange(i as int, i + part@.len()) == part@),
{
    let n = whole.len();
    let mut j: usize = 0;
    while j < part.len()
        invariant
            n == whole@.len(),
            j <= part@.len(),
            i + part@.len() <= whole@.len(),
            forall|k: int| 0 <= k < j ==> whole@[i + k] == part@[k],
        decreases part@.len() - j,
    {
        if whole[i + j] != part[j] {
            assert(whole@.subrange(i as int, i + part@.len())[j as int] != part@[j as int]);
            return false;
        }
        j += 1;
    }
    assert(whole@.subrange(i as int, i + part@.len()) =~= part@);
    true
}

/// Whether `part` occurs inside `whole`.
pub fn seq_has_infix(whole: &Vec<char>, part: &Vec<char>) -> (r: bool)
    ensures
        r == has_infix(whole@, part@),
{
    if part.len() > whole.len() {
        return false;
    }
    let last = whole.len() - part.len();
    let mut i: usize = 0;
    loop
        invariant
            i <= last,
            last + part@.len() == whole@.len(),
            forall|k: int| 0 <= k < i ==> #[trigger] whole@.subrange(k, k + part@.len()) != part@,
        decreases last - i,
    {
        if matches_at(whole, part, i) {
            return true;
        }
        if i == last {
            return false;
        }
        i += 1;
    }
}

/// Whether `part` occurs inside `s`.
pub fn str_contains(s: &str, part: &str) -> (r: bool)
    ensures
        r == has_infix(s@, part@),
{
    let w = chars_of(s);
    let p = chars_of(part);
    seq_has_infix(&w, &p)
}

/// Whether two strings hold the same characters.
pub fn str_eq(a: &str, b: &str) -> (r: bool)
    ensures
        r == (a@ == b@),
{
    let x = a.to_owned();
    let y = b.to_owned();
    x == y
}

/// `a` followed by `b`, as a new `String`.
pub fn joined(a: &str, b: &str) -> (r: String)
    ensures
        r@ == a@ + b@,
{
    String::from_str(a).concat(b)
}

} // verus!
