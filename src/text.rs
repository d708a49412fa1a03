use vstd::prelude::*;

verus! {

/// Whether two texts are the same, character for character.
pub fn same_text(a: &str, b: &str) -> (r: bool)
    ensures
        r == (a@ == b@),
{
    let n = a.unicode_len();
    if n != b.unicode_len() {
        return false;
    }
    let mut i: usize = 0;
    while i < n
        invariant
            n == a@.len(),
            n == b@.len(),
            i <= n,
            a@.subrange(0, i as int) == b@.subrange(0, i as int),
        decreases n - i,
    {
        if a.get_char(i) != b.get_char(i) {
            return false;
        }
        assert(a@.subrange(0, i + 1) =~= a@.subrange(0, i as int).push(a@[i as int]));
        assert(b@.subrange(0, i + 1) =~= b@.subrange(0, i as int).push(b@[i as int]));
        i = i + 1;
    }
    assert(a@ =~= a@.subrange(0, n as int));
    assert(b@ =~= b@.subrange(0, n as int));
    true
}

/// Whether `s`, from character `start` on, opens with `prefix`.
pub fn has_prefix_at(s: &str, start: usize, prefix: &str) -> (r: bool)
    requires
        start <= s@.len(),
    ensures
        r == prefix@.is_prefix_of(s@.skip(start as int)),
{
    let n = s.unicode_len();
    let m = prefix.unicode_len();
    if m > n - start {
        return false;
    }
    let mut i: usize = 0;
    while i < m
        invariant
            n == s@.len(),
            m == prefix@.len(),
            start + m <= n,
            i <= m,
            forall|j: int| 0 <= j < i ==> prefix@[j] == s@[start + j],
        decreases m - i,
    {
        if prefix.get_char(i) != s.get_char(start + i) {
            return false;
        }
        i = i + 1;
    }
    assert(s@.skip(start as int).subrange(0, m as int) =~= prefix@);
    true
}

} // verus!
