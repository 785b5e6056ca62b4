//! Lemmas about `lcs`, subsequences and the common prefix/suffix runs.

use crate::model::{common_prefix_len, common_suffix_len, is_subseq_of, lcs, min_len};
use vstd::prelude::*;

verus! {

/// An LCS is no longer than either sequence.
pub proof fn lemma_lcs_le<T>(a: Seq<T>, b: Seq<T>)
    ensures
        lcs(a, b) <= a.len(),
        lcs(a, b) <= b.len(),
    decreases a.len() + b.len(),
{
    if a.len() == 0 || b.len() == 0 {
    } else if a[0] == b[0] {
        lemma_lcs_le(a.skip(1), b.skip(1));
    } else {
        lemma_lcs_le(a.skip(1), b);
        lemma_lcs_le(a, b.skip(1));
    }
}

/// `lcs` is symmetric in its arguments.
pub proof fn lemma_lcs_sym<T>(a: Seq<T>, b: Seq<T>)
    ensures
        lcs(a, b) == lcs(b, a),
    decreases a.len() + b.len(),
{
    if a.len() == 0 || b.len() == 0 {
    } else if a[0] == b[0] {
        lemma_lcs_sym(a.skip(1), b.skip(1));
    } else {
        lemma_lcs_sym(a.skip(1), b);
        lemma_lcs_sym(a, b.skip(1));
    }
}

/// Every sequence is a subsequence of itself.
pub proof fn lemma_is_subseq_refl<T>(s: Seq<T>)
    ensures
        is_subseq_of(s, s),
    decreases s.len(),
{
    if s.len() > 0 {
        lemma_is_subseq_refl(s.skip(1));
    }
}

/// Dropping the first element of a subsequence keeps it a subsequence.
pub proof fn lemma_is_subseq_drop_first<T>(x: Seq<T>, z: Seq<T>)
    requires
        is_subseq_of(x, z),
        x.len() > 0,
    ensures
        is_subseq_of(x.skip(1), z),
    decreases z.len(),
{
    if z.len() == 0 {
        // contradicts `is_subseq_of(x, z)` for non-empty `x`
    } else if x[0] == z[0] && is_subseq_of(x.skip(1), z.skip(1)) {
        // the second disjunct of `is_subseq_of(x.skip(1), z)` holds
    } else {
        lemma_is_subseq_drop_first(x, z.skip(1));
    }
}

/// A subsequence is itself the longest common subsequence of the pair.
pub proof fn lemma_subseq_lcs<T>(x: Seq<T>, y: Seq<T>)
    requires
        is_subseq_of(x, y),
    ensures
        lcs(x, y) == x.len(),
    decreases x.len() + y.len(),
{
    lemma_lcs_le(x, y);
    if x.len() == 0 {
    } else if x[0] == y[0] {
        if !is_subseq_of(x.skip(1), y.skip(1)) {
            lemma_is_subseq_drop_first(x, y.skip(1));
        }
        lemma_subseq_lcs(x.skip(1), y.skip(1));
    } else {
        lemma_subseq_lcs(x, y.skip(1));
    }
}

/// A sequence is a subsequence of anything it ends.
pub proof fn lemma_is_subseq_append<T>(b: Seq<T>, s: Seq<T>)
    ensures
        is_subseq_of(s, b + s),
    decreases b.len(),
{
    if b.len() == 0 {
        assert(b + s =~= s);
        lemma_is_subseq_refl(s);
    } else {
        lemma_is_subseq_append(b.skip(1), s);
        assert((b + s).skip(1) =~= b.skip(1) + s);
    }
}

/// A shared prefix contributes its full length to the LCS.
pub proof fn lemma_lcs_common_prefix<T>(c: Seq<T>, a: Seq<T>, b: Seq<T>)
    ensures
        lcs(c + a, c + b) == c.len() + lcs(a, b),
    decreases c.len(),
{
    if c.len() == 0 {
        assert(c + a =~= a);
        assert(c + b =~= b);
    } else {
        assert((c + a).skip(1) =~= c.skip(1) + a);
        assert((c + b).skip(1) =~= c.skip(1) + b);
        lemma_lcs_common_prefix(c.skip(1), a, b);
    }
}

/// A shared suffix contributes its full length to the LCS.
pub proof fn lemma_lcs_common_suffix<T>(a: Seq<T>, b: Seq<T>, s: Seq<T>)
    ensures
        lcs(a + s, b + s) == lcs(a, b) + s.len(),
    decreases a.len() + b.len(),
{
    if a.len() == 0 {
        assert(a + s =~= s);
        lemma_is_subseq_append(b, s);
        lemma_subseq_lcs(s, b + s);
    } else if b.len() == 0 {
        assert(b + s =~= s);
        lemma_is_subseq_append(a, s);
        lemma_subseq_lcs(s, a + s);
        lemma_lcs_sym(a + s, s);
    } else if a[0] == b[0] {
        assert((a + s).skip(1) =~= a.skip(1) + s);
        assert((b + s).skip(1) =~= b.skip(1) + s);
        lemma_lcs_common_suffix(a.skip(1), b.skip(1), s);
    } else {
        assert((a + s).skip(1) =~= a.skip(1) + s);
        assert((b + s).skip(1) =~= b.skip(1) + s);
        lemma_lcs_common_suffix(a.skip(1), b, s);
        lemma_lcs_common_suffix(a, b.skip(1), s);
    }
}

/// What `common_prefix_len` returns: the longest pairwise-equal run at the
/// start, so every position below it holds equal elements and the position
/// right after it (if any) holds unequal ones.
pub proof fn lemma_prefix_len_facts<T>(old: Seq<T>, new: Seq<T>)
    ensures
        common_prefix_len(old, new) <= old.len(),
        common_prefix_len(old, new) <= new.len(),
        forall|i: int| 0 <= i < common_prefix_len(old, new) ==> old[i] == new[i],
        common_prefix_len(old, new) < min_len(old, new) ==> old[common_prefix_len(old, new) as int]
            != new[common_prefix_len(old, new) as int],
    decreases old.len(),
{
    if old.len() == 0 || new.len() == 0 || old[0] != new[0] {
    } else {
        lemma_prefix_len_facts(old.skip(1), new.skip(1));
        let p = common_prefix_len(old, new) as int;
        assert forall|i: int| 0 <= i < p implies old[i] == new[i] by {
            if i > 0 {
                assert(old.skip(1)[i - 1] == old[i]);
                assert(new.skip(1)[i - 1] == new[i]);
            }
        }
        if p < min_len(old, new) {
            assert(old.skip(1)[p - 1] == old[p]);
            assert(new.skip(1)[p - 1] == new[p]);
        }
    }
}

/// What `common_suffix_len` returns: a pairwise-equal run at the end of
/// both sequences that never overlaps the common prefix, and that is
/// maximal among such runs.
pub proof fn lemma_suffix_len_facts<T>(old: Seq<T>, new: Seq<T>)
    ensures
        common_prefix_len(old, new) + common_suffix_len(old, new) <= min_len(old, new),
        forall|i: int|
            0 <= i < common_suffix_len(old, new) ==> #[trigger] old[old.len() - 1 - i]
                == new[new.len() - 1 - i],
        common_suffix_len(old, new) < min_len(old, new) - common_prefix_len(old, new)
            ==> old[old.len() - 1 - common_suffix_len(old, new)] != new[new.len() - 1
            - common_suffix_len(old, new)],
{
    lemma_prefix_len_facts(old, new);
    lemma_prefix_len_facts(old.reverse(), new.reverse());
    let s = common_suffix_len(old, new) as int;
    let run = common_prefix_len(old.reverse(), new.reverse()) as int;
    assert forall|i: int| 0 <= i < s implies #[trigger] old[old.len() - 1 - i] == new[new.len() - 1
        - i] by {
        assert(old.reverse()[i] == old[old.len() - 1 - i]);
        assert(new.reverse()[i] == new[new.len() - 1 - i]);
    }
    if s < min_len(old, new) - common_prefix_len(old, new) {
        assert(s == run);
        assert(run < min_len(old.reverse(), new.reverse()));
        assert(old.reverse()[run] == old[old.len() - 1 - run]);
        assert(new.reverse()[run] == new[new.len() - 1 - run]);
    }
}

} // verus!
