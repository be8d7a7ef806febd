//! Preparing bytes for C strings.

use vstd::prelude::*;

verus! {

/// The bytes of `s` other than nul bytes, in order.
pub open spec fn without_nuls(s: Seq<u8>) -> Seq<u8>
    decreases s.len(),
{
    if s.len() == 0 {
        seq![]
    } else if s.last() == 0 {
        without_nuls(s.drop_last())
    } else {
        without_nuls(s.drop_last()).push(s.last())
    }
}

/// Strips every nul byte from `bytes`, so that what is left can be the
/// content of a C string.
pub fn strip_nuls(bytes: Vec<u8>) -> (r: Vec<u8>)
    ensures
        r@ == without_nuls(bytes@),
{
    let mut r: Vec<u8> = Vec::new();
    for i in 0..bytes.len()
        invariant
            r@ == without_nuls(bytes@.take(i as int)),
    {
        assert(bytes@.take(i + 1).drop_last() =~= bytes@.take(i as int));
        if bytes[i] != 0 {
            r.push(bytes[i]);
        }
    }
    assert(bytes@.take(bytes@.len() as int) =~= bytes@);
    r
}

/// Stripping leaves no nul byte: what `strip_nuls` returns is always a
/// valid C string content.
pub proof fn lemma_stripped_has_no_nul(s: Seq<u8>)
    ensures
        forall|i: int| 0 <= i < without_nuls(s).len() ==> without_nuls(s)[i] != 0,
    decreases s.len(),
{
    if s.len() > 0 {
        lemma_stripped_has_no_nul(s.drop_last());
        let prev = without_nuls(s.drop_last());
        if s.last() != 0 {
            assert forall|i: int| 0 <= i < prev.push(s.last()).len() implies prev.push(s.last())[i] != 0 by {
                if i < prev.len() {
                    assert(prev.push(s.last())[i] == prev[i]);
                }
            }
        }
    }
}

/// Bytes without a nul byte are left as they are.
pub proof fn lemma_strip_keeps_nul_free(s: Seq<u8>)
    requires
        forall|i: int| 0 <= i < s.len() ==> s[i] != 0,
    ensures
        without_nuls(s) == s,
    decreases s.len(),
{
    if s.len() > 0 {
        lemma_strip_keeps_nul_free(s.drop_last());
        assert(s.drop_last().push(s.last()) =~= s);
    }
}

/// Stripping twice is stripping once.
pub proof fn lemma_strip_idempotent(s: Seq<u8>)
    ensures
        without_nuls(without_nuls(s)) == without_nuls(s),
{
    lemma_stripped_has_no_nul(s);
    lemma_strip_keeps_nul_free(without_nuls(s));
}

} // verus!
