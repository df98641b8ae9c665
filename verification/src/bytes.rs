//! Byte-sequence search primitives shared by the HTTP and SSDP framing.
use vstd::prelude::*;

verus! {

/// `p` occurs in `s` starting at `i`.
pub open spec fn bytes_at(s: Seq<u8>, p: Seq<u8>, i: int) -> bool {
    0 <= i && i + p.len() <= s.len() && s.subrange(i, i + p.len()) == p
}

/// `i` is the first occurrence of `p` at or after `from`.
pub open spec fn is_first_from(s: Seq<u8>, p: Seq<u8>, from: int, i: int) -> bool {
    from <= i && bytes_at(s, p, i) && forall|j: int| from <= j < i ==> !bytes_at(s, p, j)
}

/// First occurrence of `p` at or after `from`.
pub open spec fn first_from(s: Seq<u8>, p: Seq<u8>, from: int) -> Option<int> {
    if exists|i: int| from <= i && bytes_at(s, p, i) {
        Some(choose|i: int| is_first_from(s, p, from, i))
    } else {
        None
    }
}

pub proof fn lemma_least(s: Seq<u8>, p: Seq<u8>, from: int, k: int)
    requires
        from <= k,
        bytes_at(s, p, k),
    ensures
        exists|i: int| is_first_from(s, p, from, i),
    decreases k - from,
{
    if exists|j: int| from <= j < k && bytes_at(s, p, j) {
        let j = choose|j: int| from <= j < k && bytes_at(s, p, j);
        lemma_least(s, p, from, j);
    } else {
        assert(is_first_from(s, p, from, k));
    }
}

pub proof fn lemma_first_from(s: Seq<u8>, p: Seq<u8>, from: int)
    ensures
        first_from(s, p, from) matches Some(i) ==> is_first_from(s, p, from, i),
        first_from(s, p, from) is None ==> forall|j: int| from <= j ==> !bytes_at(s, p, j),
{
    if exists|i: int| from <= i && bytes_at(s, p, i) {
        let k = choose|i: int| from <= i && bytes_at(s, p, i);
        lemma_least(s, p, from, k);
    }
}

/// Whether `s[at..]` starts with `p`.
pub fn bytes_match_at(s: &[u8], at: usize, p: &[u8]) -> (r: bool)
    requires
        at <= s@.len(),
    ensures
        r == bytes_at(s@, p@, at as int),
{
    if p.len() > s.len() - at {
        return false;
    }
    let mut i: usize = 0;
    while i < p.len()
        invariant
            at + p.len() <= s.len(),
            p@.len() == p.len(),
            s@.len() == s.len(),
            i <= p@.len(),
            forall|j: int| 0 <= j < i ==> s@[at + j] == p@[j],
        decreases p@.len() - i,
    {
        if s[at + i] != p[i] {
            assert(s@.subrange(at as int, at + p@.len())[i as int] != p@[i as int]);
            return false;
        }
        i += 1;
    }
    assert(s@.subrange(at as int, at + p@.len()) =~= p@);
    true
}

/// First occurrence of `p` in `s` at or after `from`.
pub fn find_bytes_from(s: &[u8], p: &[u8], from: usize) -> (r: Option<usize>)
    requires
        from <= s@.len(),
    ensures
        match r {
            Some(i) => first_from(s@, p@, from as int) == Some(i as int),
            None => first_from(s@, p@, from as int) is None,
        },
{
    proof {
        lemma_first_from(s@, p@, from as int);
    }
    let mut i: usize = from;
    loop
        invariant
            from <= i <= s@.len(),
            forall|j: int| from <= j < i ==> !bytes_at(s@, p@, j),
        decreases s@.len() - i,
    {
        if bytes_match_at(s, i, p) {
            proof {
                lemma_first_from(s@, p@, from as int);
                assert(is_first_from(s@, p@, from as int, i as int));
                let f = first_from(s@, p@, from as int)->Some_0;
                if f < i {
                    assert(!bytes_at(s@, p@, f));
                }
                if f > i {
                    assert(!bytes_at(s@, p@, i as int));
                }
            }
            return Some(i);
        }
        if i == s.len() {
            proof {
                lemma_first_from(s@, p@, from as int);
                assert forall|j: int| from <= j implies !bytes_at(s@, p@, j) by {
                    if j > i {
                        assert(j + p@.len() > s@.len());
                    }
                }
            }
            return None;
        }
        i += 1;
    }
}

/// A copy of `s[a..b]`.
pub fn bytes_range(s: &[u8], a: usize, b: usize) -> (r: Vec<u8>)
    requires
        a <= b <= s@.len(),
    ensures
        r@ == s@.subrange(a as int, b as int),
{
    let mut r: Vec<u8> = Vec::new();
    let mut i = a;
    while i < b
        invariant
            a <= i <= b <= s@.len(),
            r@ == s@.subrange(a as int, i as int),
        decreases b - i,
    {
        r.push(s[i]);
        assert(s@.subrange(a as int, i + 1) =~= s@.subrange(a as int, i as int).push(s@[i as int]));
        i += 1;
    }
    r
}

/// Appends `s[a..b]` to `out`.
pub fn extend_range(out: &mut Vec<u8>, s: &[u8], a: usize, b: usize)
    requires
        a <= b <= s@.len(),
    ensures
        final(out)@ == old(out)@ + s@.subrange(a as int, b as int),
{
    let mut i = a;
    while i < b
        invariant
            a <= i <= b <= s@.len(),
            out@ == old(out)@ + s@.subrange(a as int, i as int),
        decreases b - i,
    {
        out.push(s[i]);
        assert(s@.subrange(a as int, i + 1) =~= s@.subrange(a as int, i as int).push(s@[i as int]));
        i += 1;
    }
}


pub fn bytes_eq(a: &[u8], b: &[u8]) -> (r: bool)
    ensures
        r == (a@ == b@),
{
    if a.len() != b.len() {
        return false;
    }
    let m = bytes_match_at(a, 0, b);
    assert(a@.subrange(0, b@.len() as int) =~= a@);
    m
}


/// Cutting a sequence after the first occurrence of `p` leaves it the first.
pub proof fn lemma_first_from_prefix(s: Seq<u8>, p: Seq<u8>, k: int)
    requires
        first_from(s, p, 0) matches Some(i) && i + p.len() <= k <= s.len(),
    ensures
        first_from(s.take(k), p, 0) == first_from(s, p, 0),
{
    lemma_first_from(s, p, 0);
    let i = first_from(s, p, 0)->Some_0;
    let t = s.take(k);
    assert(t.subrange(i, i + p.len()) =~= s.subrange(i, i + p.len()));
    assert(bytes_at(t, p, i));
    assert forall|j: int| 0 <= j < i implies !bytes_at(t, p, j) by {
        if bytes_at(t, p, j) {
            assert(t.subrange(j, j + p.len()) =~= s.subrange(j, j + p.len()));
            assert(bytes_at(s, p, j));
        }
    }
    assert(is_first_from(t, p, 0, i));
    lemma_first_from(t, p, 0);
    let f = first_from(t, p, 0)->Some_0;
    assert(is_first_from(t, p, 0, f));
    if f < i {
        assert(!bytes_at(t, p, f));
    }
    if i < f {
        assert(!bytes_at(t, p, i));
    }
}

} // verus!
