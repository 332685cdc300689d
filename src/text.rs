use vstd::prelude::*;
use vstd::string::*;

verus! {

/// Whether `a` and `b` hold the same characters.
pub fn str_eq(a: &str, b: &str) -> (r: bool)
    ensures
        r == (a@ == b@),
{
    let n = a.unicode_len();
    if n != b.unicode_len() {
        return false;
    }
    let mut i: usize = 0;
    while i < n
        invariant
            i <= n,
            n == a@.len(),
            n == b@.len(),
            forall|j: int| 0 <= j < i ==> a@[j] == b@[j],
        decreases n - i,
    {
        if a.get_char(i) != b.get_char(i) {
            return false;
        }
        i = i + 1;
    }
    assert(a@ =~= b@);
    true
}

/// `s` holds character `x` directly followed by character `y`.
pub open spec fn has_pair(s: Seq<char>, x: char, y: char) -> bool {
    exists|i: int| 0 <= i && i + 1 < s.len() && #[trigger] s[i] == x && s[i + 1] == y
}

/// Whether `s` holds `x` directly followed by `y`.
pub fn contains_pair(s: &str, x: char, y: char) -> (r: bool)
    ensures
        r == has_pair(s@, x, y),
{
    let n = s.unicode_len();
    let mut i: usize = 0;
    while i < n && i + 1 < n
        invariant
            n == s@.len(),
            i <= n,
            forall|j: int| 0 <= j < i && j + 1 < n ==> !(#[trigger] s@[j] == x && s@[j + 1] == y),
        decreases n - i,
    {
        if s.get_char(i) == x && s.get_char(i + 1) == y {
            return true;
        }
        i = i + 1;
    }
    false
}

} // verus!
