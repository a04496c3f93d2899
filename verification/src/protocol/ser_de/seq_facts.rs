use vstd::prelude::*;

verus! {

/// Skipping `a` bytes and then `b` more skips `a + b`.
pub proof fn lemma_skip_skip(s: Seq<u8>, a: int, b: int)
    requires
        0 <= a,
        0 <= b,
        a + b <= s.len(),
    ensures
        s.skip(a).skip(b) == s.skip(a + b),
{
    assert(s.skip(a).skip(b) =~= s.skip(a + b));
}

/// Being a suffix is transitive.
pub proof fn lemma_suffix_trans(a: Seq<u8>, b: Seq<u8>, c: Seq<u8>)
    requires
        a.is_suffix_of(b),
        b.is_suffix_of(c),
    ensures
        a.is_suffix_of(c),
{
    assert(a =~= c.subrange(c.len() - a.len(), c.len() as int)) by {
        assert forall|i: int| 0 <= i < a.len() implies a[i] == c[c.len() - a.len() + i] by {
            assert(a[i] == b[b.len() - a.len() + i]);
            assert(b[b.len() - a.len() + i] == c[c.len() - b.len() + (b.len() - a.len() + i)]);
        }
    }
}

/// What remains after skipping is a suffix.
pub proof fn lemma_skip_is_suffix(s: Seq<u8>, n: int)
    requires
        0 <= n <= s.len(),
    ensures
        s.skip(n).is_suffix_of(s),
{
    assert(s.skip(n) =~= s.subrange(s.len() - s.skip(n).len(), s.len() as int));
}

/// Every sequence is a suffix of itself.
pub proof fn lemma_suffix_refl(s: Seq<u8>)
    ensures
        s.is_suffix_of(s),
{
    assert(s =~= s.subrange(0, s.len() as int));
}

/// Skipping into a concatenation past its first part.
pub proof fn lemma_skip_concat(a: Seq<u8>, b: Seq<u8>, rest: Seq<u8>)
    ensures
        (a + b + rest).skip(a.len() as int) == b + rest,
        a + (b + rest) == a + b + rest,
{
    assert((a + b + rest).skip(a.len() as int) =~= b + rest);
    assert(a + (b + rest) =~= a + b + rest);
}

} // verus!
