//! The diff engine: trim the common prefix and suffix, build the LCS
//! table over the middle region, and walk it to emit the edit script.

use crate::lcs_facts::{lemma_prefix_len_facts, lemma_suffix_len_facts};
use crate::model::{
    added_rec, added_run, clone_exact, common_prefix_len, common_rec, common_run,
    common_suffix_len, diff_spec, eq_exact, lcs, min_len, removed_rec, removed_run, walk,
};
use crate::run_facts::{lemma_added_run_snoc, lemma_common_run_snoc, lemma_removed_run_snoc};
use crate::table::{create_table, lcs_table_ok};
use crate::{DiffElement, DiffResult};
use vstd::prelude::*;

verus! {

/// Compare `old` and `new` and return the edit script that `diff_spec`
/// describes: the minimal ordered sequence of `Removed`, `Common` and
/// `Added` records turning `old` into `new`, preferring `Added` over
/// `Removed` whenever both lose equally little.
///
/// Elements must compare and clone by value (`eq_exact`, `clone_exact`),
/// and at least one input must be short enough for the 32-bit counters of
/// the LCS table.
pub fn diff<T: PartialEq + Clone>(old: &[T], new: &[T]) -> (result: Vec<DiffResult<T>>)
    requires
        eq_exact::<T>(),
        clone_exact::<T>(),
        old@.len() < usize::MAX,
        new@.len() < usize::MAX,
        old@.len() < u32::MAX || new@.len() < u32::MAX,
    ensures
        result@ == diff_spec(old@, new@),
{
    let mut result: Vec<DiffResult<T>> = Vec::new();
    let new_len: usize = new.len();
    let old_len: usize = old.len();

    if new_len == 0 {
        let mut o: usize = 0;
        while o < old_len
            invariant
                clone_exact::<T>(),
                o <= old_len,
                old_len == old@.len(),
                result@ == removed_run(old@, 0, o as int),
            decreases old_len - o,
        {
            let data = old[o].clone();
            proof {
                assert(cloned::<T>(old@[o as int], data));
                lemma_removed_run_snoc(old@, 0, o as int);
            }
            result.push(
                DiffResult::Removed(DiffElement { old_index: Some(o), new_index: None, data }),
            );
            o += 1;
        }
        return result;
    } else if old_len == 0 {
        let mut n: usize = 0;
        while n < new_len
            invariant
                clone_exact::<T>(),
                n <= new_len,
                new_len == new@.len(),
                old@.len() == 0,
                result@ == added_run(new@, 0, n as int),
            decreases new_len - n,
        {
            let data = new[n].clone();
            proof {
                assert(cloned::<T>(new@[n as int], data));
                lemma_added_run_snoc(new@, 0, n as int);
            }
            result.push(
                DiffResult::Added(DiffElement { old_index: None, new_index: Some(n), data }),
            );
            n += 1;
        }
        return result;
    }

    // both sequences are non-empty: find the common prefix run
    let min_l: usize = if old_len < new_len {
        old_len
    } else {
        new_len
    };
    let mut prefix_size: usize = 0;
    while prefix_size < min_l && old[prefix_size] == new[prefix_size]
        invariant
            eq_exact::<T>(),
            old_len == old@.len(),
            new_len == new@.len(),
            min_l == min_len(old@, new@),
            prefix_size <= min_l,
            forall|k: int| 0 <= k < prefix_size ==> old@[k] == new@[k],
        decreases min_l - prefix_size,
    {
        prefix_size += 1;
    }
    proof {
        lemma_prefix_len_facts(old@, new@);
        let pl = common_prefix_len(old@, new@) as int;
        if prefix_size < pl {
            assert(old@[prefix_size as int] == new@[prefix_size as int]);
            assert(false);
        }
        if pl < prefix_size {
            assert(old@[pl] == new@[pl]);
            assert(false);
        }
    }

    // then the common suffix run, kept clear of the prefix
    let cap: usize = min_l - prefix_size;
    let mut suffix_size: usize = 0;
    while suffix_size < cap && old[old_len - 1 - suffix_size] == new[new_len - 1 - suffix_size]
        invariant
            eq_exact::<T>(),
            old_len == old@.len(),
            new_len == new@.len(),
            min_l == min_len(old@, new@),
            prefix_size == common_prefix_len(old@, new@),
            cap == min_l - prefix_size,
            suffix_size <= cap,
            forall|k: int|
                0 <= k < suffix_size ==> #[trigger] old@[old@.len() - 1 - k] == new@[new@.len() - 1
                    - k],
        decreases cap - suffix_size,
    {
        suffix_size += 1;
    }
    proof {
        lemma_suffix_len_facts(old@, new@);
        let sl = common_suffix_len(old@, new@) as int;
        if (suffix_size as int) < sl {
            assert(old@[old@.len() - 1 - (suffix_size as int)] == new@[new@.len() - 1 - (
            suffix_size as int)]);
            assert(false);
        }
        if sl < suffix_size {
            assert(old@[old@.len() - 1 - sl] == new@[new@.len() - 1 - sl]);
            assert(false);
        }
    }

    // the trimmed middle region and its LCS table
    let old_end: usize = old_len - suffix_size;
    let new_end: usize = new_len - suffix_size;
    let old_mid = &old[prefix_size..old_end];
    let new_mid = &new[prefix_size..new_end];
    let table = create_table(old_mid, new_mid);
    let res_old_len: usize = old_end - prefix_size;
    let res_new_len: usize = new_end - prefix_size;
    let ghost p: int = prefix_size as int;
    let ghost so: int = old_end as int;
    let ghost sn: int = new_end as int;
    let ghost mo: Seq<T> = old@.subrange(p, so);
    let ghost mn: Seq<T> = new@.subrange(p, sn);

    // restore the common prefix
    let mut prefix_index: usize = 0;
    while prefix_index < prefix_size
        invariant
            clone_exact::<T>(),
            old_len == old@.len(),
            prefix_index <= prefix_size,
            prefix_size <= old@.len(),
            result@ == common_run(old@, 0, 0, prefix_index as nat),
        decreases prefix_size - prefix_index,
    {
        let data = old[prefix_index].clone();
        proof {
            assert(cloned::<T>(old@[prefix_index as int], data));
            lemma_common_run_snoc(old@, 0, 0, prefix_index as nat);
        }
        result.push(
            DiffResult::Common(
                DiffElement {
                    old_index: Some(prefix_index),
                    new_index: Some(prefix_index),
                    data,
                },
            ),
        );
        prefix_index += 1;
    }

    // walk the middle region
    let ghost target: Seq<DiffResult<T>> = common_run(old@, 0, 0, prefix_size as nat) + walk(
        old@,
        new@,
        so,
        sn,
        p,
        p,
    );
    let mut o: usize = 0;
    let mut n: usize = 0;
    while n < res_new_len && o < res_old_len
        invariant
            eq_exact::<T>(),
            clone_exact::<T>(),
            old_len == old@.len(),
            new_len == new@.len(),
            p == prefix_size as int,
            so == old_end as int,
            sn == new_end as int,
            prefix_size + suffix_size <= old_len,
            prefix_size + suffix_size <= new_len,
            old_end == old_len - suffix_size,
            new_end == new_len - suffix_size,
            res_old_len == old_end - prefix_size,
            res_new_len == new_end - prefix_size,
            mo == old@.subrange(p, so),
            mn == new@.subrange(p, sn),
            lcs_table_ok(table@, mo, mn),
            o <= res_old_len,
            n <= res_new_len,
            result@ + walk(old@, new@, so, sn, p + o, p + n) == target,
        decreases res_old_len + res_new_len - o - n,
    {
        let new_index: usize = n + prefix_size;
        let old_index: usize = o + prefix_size;
        let ghost oi: int = p + o;
        let ghost ni: int = p + n;
        let ghost w_now = walk(old@, new@, so, sn, oi, ni);
        proof {
            assert(mn.skip(n as int) =~= new@.subrange(ni, sn));
            assert(mo.skip(o as int) =~= old@.subrange(oi, so));
            assert(mn.skip(n + 1) =~= new@.subrange(ni + 1, sn));
            assert(mo.skip(o + 1) =~= old@.subrange(oi + 1, so));
        }
        if new[new_index] == old[old_index] {
            let data = new[new_index].clone();
            proof {
                assert(cloned::<T>(new@[ni], data));
                assert(w_now == seq![common_rec(old@[oi], oi, ni)] + walk(
                    old@,
                    new@,
                    so,
                    sn,
                    oi + 1,
                    ni + 1,
                ));
                assert((result@ + seq![common_rec(old@[oi], oi, ni)]) + walk(
                    old@,
                    new@,
                    so,
                    sn,
                    oi + 1,
                    ni + 1,
                ) =~= result@ + w_now);
            }
            result.push(
                DiffResult::Common(
                    DiffElement {
                        old_index: Some(old_index),
                        new_index: Some(new_index),
                        data,
                    },
                ),
            );
            n += 1;
            o += 1;
        } else {
            let below_row = &table[n + 1];
            let keep_new: u32 = below_row[o];
            let cur_row = &table[n];
            let keep_old: u32 = cur_row[o + 1];
            proof {
                assert(table@[n + 1]@[o as int] == lcs(mn.skip(n + 1), mo.skip(o as int)));
                assert(table@[n as int]@[o + 1] == lcs(mn.skip(n as int), mo.skip(o + 1)));
            }
            if keep_new >= keep_old {
                let data = new[new_index].clone();
                proof {
                    assert(cloned::<T>(new@[ni], data));
                    assert(w_now == seq![added_rec(new@[ni], ni)] + walk(
                        old@,
                        new@,
                        so,
                        sn,
                        oi,
                        ni + 1,
                    ));
                    assert((result@ + seq![added_rec(new@[ni], ni)]) + walk(
                        old@,
                        new@,
                        so,
                        sn,
                        oi,
                        ni + 1,
                    ) =~= result@ + w_now);
                }
                result.push(
                    DiffResult::Added(
                        DiffElement { old_index: None, new_index: Some(new_index), data },
                    ),
                );
                n += 1;
            } else {
                let data = old[old_index].clone();
                proof {
                    assert(cloned::<T>(old@[oi], data));
                    assert(w_now == seq![removed_rec(old@[oi], oi)] + walk(
                        old@,
                        new@,
                        so,
                        sn,
                        oi + 1,
                        ni,
                    ));
                    assert((result@ + seq![removed_rec(old@[oi], oi)]) + walk(
                        old@,
                        new@,
                        so,
                        sn,
                        oi + 1,
                        ni,
                    ) =~= result@ + w_now);
                }
                result.push(
                    DiffResult::Removed(
                        DiffElement { old_index: Some(old_index), new_index: None, data },
                    ),
                );
                o += 1;
            }
        }
    }

    // flush whatever the walk left of the new side, then of the old side
    while n < res_new_len
        invariant
            clone_exact::<T>(),
            old_len == old@.len(),
            new_len == new@.len(),
            p == prefix_size as int,
            so == old_end as int,
            sn == new_end as int,
            prefix_size + suffix_size <= old_len,
            prefix_size + suffix_size <= new_len,
            old_end == old_len - suffix_size,
            new_end == new_len - suffix_size,
            res_old_len == old_end - prefix_size,
            res_new_len == new_end - prefix_size,
            o <= res_old_len,
            n <= res_new_len,
            n < res_new_len ==> o >= res_old_len,
            result@ + walk(old@, new@, so, sn, p + o, p + n) == target,
        decreases res_new_len - n,
    {
        let new_index: usize = n + prefix_size;
        let data = new[new_index].clone();
        proof {
            assert(cloned::<T>(new@[p + n], data));
            assert(walk(old@, new@, so, sn, p + o, p + n) == added_run(new@, p + n, sn)
                + removed_run(old@, p + o, so));
            assert(added_run(new@, p + n, sn) == seq![added_rec(new@[p + n], p + n)] + added_run(
                new@,
                p + n + 1,
                sn,
            ));
            assert((result@ + seq![added_rec(new@[p + n], p + n)]) + walk(
                old@,
                new@,
                so,
                sn,
                p + o,
                p + n + 1,
            ) =~= result@ + walk(old@, new@, so, sn, p + o, p + n));
        }
        result.push(
            DiffResult::Added(DiffElement { old_index: None, new_index: Some(new_index), data }),
        );
        n += 1;
    }
    while o < res_old_len
        invariant
            clone_exact::<T>(),
            old_len == old@.len(),
            new_len == new@.len(),
            p == prefix_size as int,
            so == old_end as int,
            sn == new_end as int,
            prefix_size + suffix_size <= old_len,
            prefix_size + suffix_size <= new_len,
            old_end == old_len - suffix_size,
            new_end == new_len - suffix_size,
            res_old_len == old_end - prefix_size,
            res_new_len == new_end - prefix_size,
            o <= res_old_len,
            n == res_new_len,
            result@ + walk(old@, new@, so, sn, p + o, p + n) == target,
        decreases res_old_len - o,
    {
        let old_index: usize = o + prefix_size;
        let data = old[old_index].clone();
        proof {
            assert(cloned::<T>(old@[p + o], data));
            assert(walk(old@, new@, so, sn, p + o, p + n) == added_run(new@, p + n, sn)
                + removed_run(old@, p + o, so));
            assert(added_run(new@, p + n, sn) =~= Seq::<DiffResult<T>>::empty());
            assert(removed_run(old@, p + o, so) == seq![removed_rec(old@[p + o], p + o)]
                + removed_run(old@, p + o + 1, so));
            assert((result@ + seq![removed_rec(old@[p + o], p + o)]) + walk(
                old@,
                new@,
                so,
                sn,
                p + o + 1,
                p + n,
            ) =~= result@ + walk(old@, new@, so, sn, p + o, p + n));
        }
        result.push(
            DiffResult::Removed(DiffElement { old_index: Some(old_index), new_index: None, data }),
        );
        o += 1;
    }
    proof {
        assert(walk(old@, new@, so, sn, p + o, p + n) =~= Seq::<DiffResult<T>>::empty());
        assert(result@ =~= target);
    }

    // restore the common suffix
    let mut suffix_index: usize = 0;
    while suffix_index < suffix_size
        invariant
            clone_exact::<T>(),
            old_len == old@.len(),
            new_len == new@.len(),
            p == prefix_size as int,
            so == old_end as int,
            sn == new_end as int,
            prefix_size + suffix_size <= old_len,
            prefix_size + suffix_size <= new_len,
            old_end == old_len - suffix_size,
            new_end == new_len - suffix_size,
            res_old_len == old_end - prefix_size,
            res_new_len == new_end - prefix_size,
            suffix_index <= suffix_size,
            result@ == target + common_run(old@, so, sn, suffix_index as nat),
        decreases suffix_size - suffix_index,
    {
        let old_index: usize = suffix_index + res_old_len + prefix_size;
        let new_index: usize = suffix_index + res_new_len + prefix_size;
        let data = old[old_index].clone();
        proof {
            assert(cloned::<T>(old@[old_index as int], data));
            lemma_common_run_snoc(old@, so, sn, suffix_index as nat);
            assert((target + common_run(old@, so, sn, suffix_index as nat)) + seq![
                common_rec(old@[so + suffix_index], so + suffix_index, sn + suffix_index),
            ] =~= target + common_run(old@, so, sn, (suffix_index + 1) as nat));
        }
        result.push(
            DiffResult::Common(
                DiffElement { old_index: Some(old_index), new_index: Some(new_index), data },
            ),
        );
        suffix_index += 1;
    }
    proof {
        assert(diff_spec(old@, new@) == common_run(old@, 0, 0, prefix_size as nat) + walk(
            old@,
            new@,
            so,
            sn,
            p,
            p,
        ) + common_run(old@, so, sn, suffix_size as nat));
        assert(result@ =~= diff_spec(old@, new@));
    }
    result
}

} // verus!
