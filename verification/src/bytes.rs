//! Small verified helpers on byte slices.

use vstd::prelude::*;

verus! {

/// Byte-for-byte equality of two slices.
pub fn bytes_eq(a: &[u8], b: &[u8]) -> (r: bool)
    ensures
        r <==> a@ == b@,
{
    if a.len() != b.len() {
        assert(a@ != b@) by {
            assert(a@.len() != b@.len());
        }
        return false;
    }
    let n = a.len();
    let mut i: usize = 0;
    while i < n
        invariant
            n == a@.len() && n == b@.len(),
            i <= n,
            forall|j: int| 0 <= j < i ==> a@[j] == b@[j],
        decreases n - i,
    {
        if a[i] != b[i] {
            return false;
        }
        i += 1;
    }
    assert(a@ =~= b@);
    true
}

/// Does `b` start with `pat`?
pub fn starts_with(b: &[u8], pat: &[u8]) -> (r: bool)
    ensures
        r <==> (b@.len() >= pat@.len() && b@.subrange(0, pat@.len() as int) == pat@),
{
    if b.len() < pat.len() {
        return false;
    }
    let n = pat.len();
    let mut i: usize = 0;
    while i < n
        invariant
            n == pat@.len(),
            b@.len() >= n,
            i <= n,
            forall|j: int| 0 <= j < i ==> b@[j] == pat@[j],
        decreases n - i,
    {
        if b[i] != pat[i] {
            assert(b@.subrange(0, n as int)[i as int] != pat@[i as int]);
            return false;
        }
        i += 1;
    }
    assert(b@.subrange(0, n as int) =~= pat@);
    true
}

/// Appends `src[from..to]` to `dst`.
pub fn extend_from_range(dst: &mut Vec<u8>, src: &[u8], from: usize, to: usize)
    requires
        from <= to <= src@.len(),
    ensures
        final(dst)@ == old(dst)@ + src@.subrange(from as int, to as int),
{
    let mut i: usize = from;
    while i < to
        invariant
            from <= i <= to <= src@.len(),
            dst@ == old(dst)@ + src@.subrange(from as int, i as int),
        decreases to - i,
    {
        dst.push(src[i]);
        assert(dst@ =~= old(dst)@ + src@.subrange(from as int, i as int + 1));
        i += 1;
    }
    assert(dst@ =~= old(dst)@ + src@.subrange(from as int, to as int));
}

/// Appends all of `src` to `dst`.
pub fn extend_from(dst: &mut Vec<u8>, src: &[u8])
    ensures
        final(dst)@ == old(dst)@ + src@,
{
    let n = src.len();
    extend_from_range(dst, src, 0, n);
    assert(src@.subrange(0, n as int) =~= src@);
}

/// Does `s` hold no line break?
pub fn no_newline(s: &[u8]) -> (r: bool)
    ensures
        r <==> (forall|j: int| 0 <= j < s@.len() ==> s@[j] != 10u8),
{
    let n = s.len();
    let mut i: usize = 0;
    while i < n
        invariant
            n == s@.len(),
            i <= n,
            forall|j: int| 0 <= j < i ==> s@[j] != 10u8,
        decreases n - i,
    {
        if s[i] == 10u8 {
            return false;
        }
        i += 1;
    }
    true
}

} // verus!
