//! The guarantees of the edit script, proved of `diff_spec` — and so, by
//! the contract of `diff`, of every script the library returns.

use crate::lcs_facts::{
    lemma_lcs_common_prefix, lemma_lcs_common_suffix, lemma_lcs_sym, lemma_prefix_len_facts,
    lemma_suffix_len_facts,
};
use crate::model::{
    added_rec, added_run, common_prefix_len, common_rec, common_run, common_suffix_len,
    count_added, count_common, count_removed, diff_spec, lcs, new_values, old_values, removed_rec,
    removed_run, walk,
};
use crate::run_facts::{
    lemma_added_run_facts, lemma_common_run_facts, lemma_removed_run_facts, lemma_script_concat,
    lemma_walk_facts,
};
use crate::DiffResult;
use vstd::prelude::*;

verus! {

/// The decomposition of the script of two non-empty sequences: common
/// prefix, walked middle region, common suffix — with what each part
/// contributes to the reconstructions and the record counts.
pub proof fn lemma_diff_spec_parts<T: PartialEq + Clone>(old: Seq<T>, new: Seq<T>)
    requires
        old.len() > 0,
        new.len() > 0,
    ensures
        ({
            let p = common_prefix_len(old, new) as int;
            let s = common_suffix_len(old, new) as int;
            let d = diff_spec(old, new);
            &&& p + s <= old.len()
            &&& p + s <= new.len()
            &&& old.subrange(0, p) == new.subrange(0, p)
            &&& old.subrange(old.len() - s, old.len() as int) == new.subrange(
                new.len() - s,
                new.len() as int,
            )
            &&& old_values(d) == old
            &&& new_values(d) == new
            &&& count_common(d) == p + s + lcs(
                new.subrange(p, new.len() - s),
                old.subrange(p, old.len() - s),
            )
            &&& count_added(d) + count_common(d) == new.len()
            &&& count_removed(d) + count_common(d) == old.len()
        }),
{
    let ol = old.len() as int;
    let nl = new.len() as int;
    let p = common_prefix_len(old, new) as int;
    let s = common_suffix_len(old, new) as int;
    lemma_prefix_len_facts(old, new);
    lemma_suffix_len_facts(old, new);
    let pre = common_run(old, 0, 0, p as nat);
    let w = walk(old, new, ol - s, nl - s, p, p);
    let suf = common_run(old, ol - s, nl - s, s as nat);
    assert(diff_spec(old, new) == pre + w + suf);
    lemma_common_run_facts(old, 0, 0, p as nat);
    lemma_common_run_facts(old, ol - s, nl - s, s as nat);
    lemma_walk_facts(old, new, ol - s, nl - s, p, p);
    lemma_script_concat(pre, w);
    lemma_script_concat(pre + w, suf);
    assert(pre + w + suf == (pre + w) + suf);
    assert(old.subrange(0, p) =~= new.subrange(0, p));
    assert forall|k: int| 0 <= k < s implies #[trigger] old.subrange(ol - s, ol)[k]
        == new.subrange(nl - s, nl)[k] by {
        assert(old[ol - 1 - (s - 1 - k)] == new[nl - 1 - (s - 1 - k)]);
    }
    assert(old.subrange(ol - s, ol) =~= new.subrange(nl - s, nl));
    assert(old_values(diff_spec(old, new)) == old_values(pre) + old_values(w) + old_values(suf));
    assert(old_values(diff_spec(old, new)) =~= old);
    assert(new_values(diff_spec(old, new)) == new.subrange(0, p) + new.subrange(p, nl - s)
        + new.subrange(nl - s, nl));
    assert(new_values(diff_spec(old, new)) =~= new);
}

/// Reconstruction: replaying the old-indexed records (`Removed` and
/// `Common`) of the script yields exactly the old sequence, and replaying
/// the new-indexed records (`Added` and `Common`) yields exactly the new
/// one.
pub proof fn lemma_reconstruction<T: PartialEq + Clone>(old: Seq<T>, new: Seq<T>)
    ensures
        old_values(diff_spec(old, new)) == old,
        new_values(diff_spec(old, new)) == new,
{
    if new.len() == 0 {
        lemma_removed_run_facts(old, 0, old.len() as int);
        assert(old.subrange(0, old.len() as int) =~= old);
        assert(new_values(diff_spec(old, new)) =~= new);
    } else if old.len() == 0 {
        lemma_added_run_facts(new, 0, new.len() as int);
        assert(new.subrange(0, new.len() as int) =~= new);
        assert(old_values(diff_spec(old, new)) =~= old);
    } else {
        lemma_diff_spec_parts(old, new);
    }
}

/// Count invariant: the `Common` and `Removed` records together account
/// for every element of the old sequence, and the `Common` and `Added`
/// records together for every element of the new one.
pub proof fn lemma_count_invariant<T: PartialEq + Clone>(old: Seq<T>, new: Seq<T>)
    ensures
        count_common(diff_spec(old, new)) + count_removed(diff_spec(old, new)) == old.len(),
        count_common(diff_spec(old, new)) + count_added(diff_spec(old, new)) == new.len(),
{
    if new.len() == 0 {
        lemma_removed_run_facts(old, 0, old.len() as int);
    } else if old.len() == 0 {
        lemma_added_run_facts(new, 0, new.len() as int);
    } else {
        lemma_diff_spec_parts(old, new);
    }
}

/// Identity: diffing a sequence against itself yields one `Common` record
/// per element, with equal old and new indices, and nothing else.
pub proof fn lemma_identity<T: PartialEq + Clone>(s: Seq<T>)
    ensures
        diff_spec(s, s).len() == s.len(),
        forall|k: int|
            0 <= k < s.len() ==> #[trigger] diff_spec(s, s)[k] == common_rec(s[k], k, k),
        count_added(diff_spec(s, s)) == 0,
        count_removed(diff_spec(s, s)) == 0,
{
    if s.len() == 0 {
    } else {
        let len = s.len() as int;
        lemma_prefix_len_facts(s, s);
        let p = common_prefix_len(s, s) as int;
        assert(p == len);
        assert(common_suffix_len(s, s) == 0);
        let pre = common_run(s, 0, 0, len as nat);
        let w = walk(s, s, len, len, len, len);
        let suf = common_run(s, len, len, 0 as nat);
        assert(diff_spec(s, s) == pre + w + suf);
        assert(added_run(s, len, len) =~= Seq::<DiffResult<T>>::empty());
        assert(removed_run(s, len, len) =~= Seq::<DiffResult<T>>::empty());
        assert(w =~= Seq::<DiffResult<T>>::empty());
        assert(suf =~= Seq::<DiffResult<T>>::empty());
        assert(diff_spec(s, s) =~= pre);
        lemma_common_run_facts(s, 0, 0, len as nat);
        lemma_script_concat(pre, w);
        lemma_script_concat(pre + w, suf);
        lemma_walk_facts(s, s, len, len, len, len);
    }
}

/// Disjointness, inserting side: diffing the empty sequence against `s`
/// yields one `Added` record per element, with increasing new indices, and
/// no other record kind.
pub proof fn lemma_all_added<T: PartialEq + Clone>(s: Seq<T>)
    ensures
        diff_spec(Seq::<T>::empty(), s).len() == s.len(),
        forall|k: int|
            0 <= k < s.len() ==> #[trigger] diff_spec(Seq::<T>::empty(), s)[k] == added_rec(
                s[k],
                k,
            ),
        count_removed(diff_spec(Seq::<T>::empty(), s)) == 0,
        count_common(diff_spec(Seq::<T>::empty(), s)) == 0,
{
    if s.len() == 0 {
    } else {
        lemma_added_run_facts(s, 0, s.len() as int);
    }
}

/// Disjointness, removing side: diffing `s` against the empty sequence
/// yields one `Removed` record per element, with increasing old indices,
/// and no other record kind.
pub proof fn lemma_all_removed<T: PartialEq + Clone>(s: Seq<T>)
    ensures
        diff_spec(s, Seq::<T>::empty()).len() == s.len(),
        forall|k: int|
            0 <= k < s.len() ==> #[trigger] diff_spec(s, Seq::<T>::empty())[k] == removed_rec(
                s[k],
                k,
            ),
        count_added(diff_spec(s, Seq::<T>::empty())) == 0,
        count_common(diff_spec(s, Seq::<T>::empty())) == 0,
{
    lemma_removed_run_facts(s, 0, s.len() as int);
}

/// Minimality: the script carries exactly `len(old) + len(new) - 2 * LCS`
/// edit records (`Added` plus `Removed`), the fewest possible.
pub proof fn lemma_minimality<T: PartialEq + Clone>(old: Seq<T>, new: Seq<T>)
    ensures
        count_added(diff_spec(old, new)) + count_removed(diff_spec(old, new)) + 2 * lcs(old, new)
            == old.len() + new.len(),
{
    if new.len() == 0 {
        lemma_removed_run_facts(old, 0, old.len() as int);
    } else if old.len() == 0 {
        lemma_added_run_facts(new, 0, new.len() as int);
    } else {
        let ol = old.len() as int;
        let nl = new.len() as int;
        lemma_diff_spec_parts(old, new);
        let p = common_prefix_len(old, new) as int;
        let s = common_suffix_len(old, new) as int;
        let pre = old.subrange(0, p);
        let suf = old.subrange(ol - s, ol);
        let mid_old = old.subrange(p, ol - s);
        let mid_new = new.subrange(p, nl - s);
        assert(old =~= pre + (mid_old + suf));
        assert(new =~= pre + (mid_new + new.subrange(nl - s, nl)));
        assert(new == pre + (mid_new + suf));
        lemma_lcs_common_prefix(pre, mid_old + suf, mid_new + suf);
        lemma_lcs_common_suffix(mid_old, mid_new, suf);
        lemma_lcs_sym(mid_new, mid_old);
    }
}

} // verus!
