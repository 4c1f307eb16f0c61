//! The longest common prefix of two byte sequences.

use vstd::prelude::*;

verus! {

/// The number of leading positions at which `a` and `b` hold the same byte:
/// the index of the first position where they differ or where one of them
/// ends.
pub open spec fn common_prefix_len(a: Seq<u8>, b: Seq<u8>) -> nat
    decreases a.len(),
{
    if a.len() > 0 && b.len() > 0 && a[0] == b[0] {
        1 + common_prefix_len(a.skip(1), b.skip(1))
    } else {
        0
    }
}

/// The common prefix lies within both sequences, the sequences agree on it,
/// and it cannot be extended.
pub proof fn lemma_common_prefix(a: Seq<u8>, b: Seq<u8>)
    ensures
        common_prefix_len(a, b) <= a.len(),
        common_prefix_len(a, b) <= b.len(),
        a.take(common_prefix_len(a, b) as int) == b.take(common_prefix_len(a, b) as int),
        common_prefix_len(a, b) < a.len() && common_prefix_len(a, b) < b.len() ==> a[common_prefix_len(
            a,
            b,
        ) as int] != b[common_prefix_len(a, b) as int],
    decreases a.len(),
{
    let c = common_prefix_len(a, b);
    if a.len() > 0 && b.len() > 0 && a[0] == b[0] {
        let ta = a.skip(1);
        let tb = b.skip(1);
        lemma_common_prefix(ta, tb);
        let d = common_prefix_len(ta, tb);
        assert(c == d + 1);
        assert forall|i: int| 0 <= i < c implies a.take(c as int)[i] == b.take(c as int)[i] by {
            if i > 0 {
                assert(ta.take(d as int)[i - 1] == tb.take(d as int)[i - 1]);
            }
        }
        assert(a.take(c as int) =~= b.take(c as int));
        if c < a.len() && c < b.len() {
            assert(ta[d as int] == a[c as int]);
            assert(tb[d as int] == b[c as int]);
        }
    } else {
        assert(a.take(0) =~= b.take(0));
    }
}

/// A prefix on which the sequences agree is no longer than the common prefix.
pub proof fn lemma_agreement_within_prefix(a: Seq<u8>, b: Seq<u8>, k: nat)
    requires
        k <= a.len(),
        k <= b.len(),
        a.take(k as int) == b.take(k as int),
    ensures
        k <= common_prefix_len(a, b),
{
    lemma_common_prefix(a, b);
    let c = common_prefix_len(a, b);
    if c < k {
        assert(a.take(k as int)[c as int] == a[c as int]);
        assert(b.take(k as int)[c as int] == b[c as int]);
    }
}

/// Two sequences are equal exactly when their common prefix is all of both.
pub proof fn lemma_equal_iff_prefix_is_all(a: Seq<u8>, b: Seq<u8>)
    ensures
        a == b <==> common_prefix_len(a, b) == a.len() && common_prefix_len(a, b) == b.len(),
{
    lemma_common_prefix(a, b);
    let c = common_prefix_len(a, b);
    if a == b {
        assert(a.take(a.len() as int) =~= b.take(a.len() as int));
        lemma_agreement_within_prefix(a, b, a.len());
    }
    if c == a.len() && c == b.len() {
        assert(a.take(c as int) =~= a);
        assert(b.take(c as int) =~= b);
    }
}

} // verus!
