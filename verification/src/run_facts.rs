//! Lemmas about record runs, the walk through the middle region, and the
//! counting / reconstruction functions over scripts.

use crate::model::{
    added_rec, added_run, common_rec, common_run, count_added, count_common, count_removed, lcs,
    new_values, old_values, removed_rec, removed_run, walk,
};
use crate::DiffResult;
use vstd::prelude::*;

verus! {

/// Splitting off the first record of a script.
pub proof fn lemma_cons<T: PartialEq + Clone>(r0: DiffResult<T>, rest: Seq<DiffResult<T>>)
    ensures
        (seq![r0] + rest).len() == rest.len() + 1,
        (seq![r0] + rest)[0] == r0,
        (seq![r0] + rest).skip(1) == rest,
{
    assert((seq![r0] + rest).skip(1) =~= rest);
}

/// The counting and reconstruction functions distribute over concatenation.
pub proof fn lemma_script_concat<T: PartialEq + Clone>(a: Seq<DiffResult<T>>, b: Seq<
    DiffResult<T>,
>)
    ensures
        old_values(a + b) == old_values(a) + old_values(b),
        new_values(a + b) == new_values(a) + new_values(b),
        count_removed(a + b) == count_removed(a) + count_removed(b),
        count_common(a + b) == count_common(a) + count_common(b),
        count_added(a + b) == count_added(a) + count_added(b),
    decreases a.len(),
{
    if a.len() == 0 {
        assert(a + b =~= b);
        assert(old_values(a) + old_values(b) =~= old_values(b));
        assert(new_values(a) + new_values(b) =~= new_values(b));
    } else {
        assert((a + b)[0] == a[0]);
        assert((a + b).skip(1) =~= a.skip(1) + b);
        lemma_script_concat(a.skip(1), b);
        match a[0] {
            DiffResult::Removed(e) => {
                assert(old_values(a + b) =~= old_values(a) + old_values(b));
            },
            DiffResult::Common(e) => {
                assert(old_values(a + b) =~= old_values(a) + old_values(b));
                assert(new_values(a + b) =~= new_values(a) + new_values(b));
            },
            DiffResult::Added(e) => {
                assert(new_values(a + b) =~= new_values(a) + new_values(b));
            },
        }
    }
}

/// A run of `Removed` records: its length, its records, and what the
/// counting and reconstruction functions say of it.
pub proof fn lemma_removed_run_facts<T: PartialEq + Clone>(s: Seq<T>, lo: int, hi: int)
    requires
        0 <= lo <= hi <= s.len(),
    ensures
        removed_run(s, lo, hi).len() == hi - lo,
        forall|k: int|
            0 <= k < hi - lo ==> #[trigger] removed_run(s, lo, hi)[k] == removed_rec(
                s[lo + k],
                lo + k,
            ),
        old_values(removed_run(s, lo, hi)) == s.subrange(lo, hi),
        new_values(removed_run(s, lo, hi)) == Seq::<T>::empty(),
        count_removed(removed_run(s, lo, hi)) == hi - lo,
        count_common(removed_run(s, lo, hi)) == 0,
        count_added(removed_run(s, lo, hi)) == 0,
    decreases hi - lo,
{
    if lo >= hi {
        assert(old_values(removed_run(s, lo, hi)) =~= s.subrange(lo, hi));
    } else {
        lemma_removed_run_facts(s, lo + 1, hi);
        lemma_cons(removed_rec(s[lo], lo), removed_run(s, lo + 1, hi));
        assert(old_values(removed_run(s, lo, hi)) =~= s.subrange(lo, hi));
    }
}

/// A run of `Added` records: its length, its records, and what the
/// counting and reconstruction functions say of it.
pub proof fn lemma_added_run_facts<T: PartialEq + Clone>(s: Seq<T>, lo: int, hi: int)
    requires
        0 <= lo <= hi <= s.len(),
    ensures
        added_run(s, lo, hi).len() == hi - lo,
        forall|k: int|
            0 <= k < hi - lo ==> #[trigger] added_run(s, lo, hi)[k] == added_rec(
                s[lo + k],
                lo + k,
            ),
        new_values(added_run(s, lo, hi)) == s.subrange(lo, hi),
        old_values(added_run(s, lo, hi)) == Seq::<T>::empty(),
        count_added(added_run(s, lo, hi)) == hi - lo,
        count_common(added_run(s, lo, hi)) == 0,
        count_removed(added_run(s, lo, hi)) == 0,
    decreases hi - lo,
{
    if lo >= hi {
        assert(new_values(added_run(s, lo, hi)) =~= s.subrange(lo, hi));
    } else {
        lemma_added_run_facts(s, lo + 1, hi);
        lemma_cons(added_rec(s[lo], lo), added_run(s, lo + 1, hi));
        assert(new_values(added_run(s, lo, hi)) =~= s.subrange(lo, hi));
    }
}

/// A run of `Common` records: its length, its records, and what the
/// counting and reconstruction functions say of it.
pub proof fn lemma_common_run_facts<T: PartialEq + Clone>(s: Seq<T>, oi: int, ni: int, cnt: nat)
    requires
        0 <= oi,
        oi + cnt <= s.len(),
    ensures
        common_run(s, oi, ni, cnt).len() == cnt,
        forall|k: int|
            0 <= k < cnt ==> #[trigger] common_run(s, oi, ni, cnt)[k] == common_rec(
                s[oi + k],
                oi + k,
                ni + k,
            ),
        old_values(common_run(s, oi, ni, cnt)) == s.subrange(oi, oi + cnt),
        new_values(common_run(s, oi, ni, cnt)) == s.subrange(oi, oi + cnt),
        count_common(common_run(s, oi, ni, cnt)) == cnt,
        count_added(common_run(s, oi, ni, cnt)) == 0,
        count_removed(common_run(s, oi, ni, cnt)) == 0,
    decreases cnt,
{
    if cnt == 0 {
        assert(old_values(common_run(s, oi, ni, cnt)) =~= s.subrange(oi, oi + cnt));
        assert(new_values(common_run(s, oi, ni, cnt)) =~= s.subrange(oi, oi + cnt));
    } else {
        lemma_common_run_facts(s, oi + 1, ni + 1, (cnt - 1) as nat);
        lemma_cons(common_rec(s[oi], oi, ni), common_run(s, oi + 1, ni + 1, (cnt - 1) as nat));
        assert(old_values(common_run(s, oi, ni, cnt)) =~= s.subrange(oi, oi + cnt));
        assert(new_values(common_run(s, oi, ni, cnt)) =~= s.subrange(oi, oi + cnt));
    }
}

/// What the walk through the middle region emits: the old-indexed records
/// carry exactly the old side of the region, the new-indexed records carry
/// exactly its new side, and the number of `Common` records is the LCS
/// length of the region, which the added/removed counts complement.
pub proof fn lemma_walk_facts<T: PartialEq + Clone>(
    old: Seq<T>,
    new: Seq<T>,
    so: int,
    sn: int,
    oi: int,
    ni: int,
)
    requires
        0 <= oi <= so <= old.len(),
        0 <= ni <= sn <= new.len(),
    ensures
        old_values(walk(old, new, so, sn, oi, ni)) == old.subrange(oi, so),
        new_values(walk(old, new, so, sn, oi, ni)) == new.subrange(ni, sn),
        count_common(walk(old, new, so, sn, oi, ni)) == lcs(
            new.subrange(ni, sn),
            old.subrange(oi, so),
        ),
        count_added(walk(old, new, so, sn, oi, ni)) + count_common(walk(old, new, so, sn, oi, ni))
            == sn - ni,
        count_removed(walk(old, new, so, sn, oi, ni)) + count_common(
            walk(old, new, so, sn, oi, ni),
        ) == so - oi,
    decreases so + sn - oi - ni,
{
    let w = walk(old, new, so, sn, oi, ni);
    let mid_new = new.subrange(ni, sn);
    let mid_old = old.subrange(oi, so);
    if oi >= so || ni >= sn {
        lemma_added_run_facts(new, ni, sn);
        lemma_removed_run_facts(old, oi, so);
        lemma_script_concat(added_run(new, ni, sn), removed_run(old, oi, so));
        assert(old_values(w) =~= old.subrange(oi, so));
        assert(new_values(w) =~= new.subrange(ni, sn));
    } else if new[ni] == old[oi] {
        let rest = walk(old, new, so, sn, oi + 1, ni + 1);
        lemma_walk_facts(old, new, so, sn, oi + 1, ni + 1);
        lemma_cons(common_rec(old[oi], oi, ni), rest);
        assert(mid_new.skip(1) =~= new.subrange(ni + 1, sn));
        assert(mid_old.skip(1) =~= old.subrange(oi + 1, so));
        assert(mid_new[0] == mid_old[0]);
        assert(old_values(w) =~= old.subrange(oi, so));
        assert(new_values(w) =~= new.subrange(ni, sn));
    } else if lcs(new.subrange(ni + 1, sn), old.subrange(oi, so)) >= lcs(
        new.subrange(ni, sn),
        old.subrange(oi + 1, so),
    ) {
        let rest = walk(old, new, so, sn, oi, ni + 1);
        lemma_walk_facts(old, new, so, sn, oi, ni + 1);
        lemma_cons(added_rec(new[ni], ni), rest);
        assert(mid_new.skip(1) =~= new.subrange(ni + 1, sn));
        assert(mid_old.skip(1) =~= old.subrange(oi + 1, so));
        assert(mid_new[0] != mid_old[0]);
        assert(new_values(w) =~= new.subrange(ni, sn));
    } else {
        let rest = walk(old, new, so, sn, oi + 1, ni);
        lemma_walk_facts(old, new, so, sn, oi + 1, ni);
        lemma_cons(removed_rec(old[oi], oi), rest);
        assert(mid_new.skip(1) =~= new.subrange(ni + 1, sn));
        assert(mid_old.skip(1) =~= old.subrange(oi + 1, so));
        assert(mid_new[0] != mid_old[0]);
        assert(old_values(w) =~= old.subrange(oi, so));
    }
}

/// Extending a run of `Removed` records by one more element.
pub proof fn lemma_removed_run_snoc<T: PartialEq + Clone>(s: Seq<T>, lo: int, hi: int)
    requires
        0 <= lo <= hi < s.len(),
    ensures
        removed_run(s, lo, hi + 1) == removed_run(s, lo, hi) + seq![removed_rec(s[hi], hi)],
    decreases hi - lo,
{
    lemma_removed_run_facts(s, lo, hi);
    lemma_removed_run_facts(s, lo, hi + 1);
    assert(removed_run(s, lo, hi + 1) =~= removed_run(s, lo, hi) + seq![removed_rec(s[hi], hi)]);
}

/// Extending a run of `Added` records by one more element.
pub proof fn lemma_added_run_snoc<T: PartialEq + Clone>(s: Seq<T>, lo: int, hi: int)
    requires
        0 <= lo <= hi < s.len(),
    ensures
        added_run(s, lo, hi + 1) == added_run(s, lo, hi) + seq![added_rec(s[hi], hi)],
    decreases hi - lo,
{
    lemma_added_run_facts(s, lo, hi);
    lemma_added_run_facts(s, lo, hi + 1);
    assert(added_run(s, lo, hi + 1) =~= added_run(s, lo, hi) + seq![added_rec(s[hi], hi)]);
}

/// Extending a run of `Common` records by one more element.
pub proof fn lemma_common_run_snoc<T: PartialEq + Clone>(s: Seq<T>, oi: int, ni: int, cnt: nat)
    requires
        0 <= oi,
        oi + cnt < s.len(),
    ensures
        common_run(s, oi, ni, cnt + 1) == common_run(s, oi, ni, cnt) + seq![
            common_rec(s[oi + cnt], oi + cnt, ni + cnt),
        ],
{
    lemma_common_run_facts(s, oi, ni, cnt);
    lemma_common_run_facts(s, oi, ni, cnt + 1);
    assert(common_run(s, oi, ni, cnt + 1) =~= common_run(s, oi, ni, cnt) + seq![
        common_rec(s[oi + cnt], oi + cnt, ni + cnt),
    ]);
}

} // verus!
