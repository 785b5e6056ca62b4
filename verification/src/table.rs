//! The dynamic-programming table of LCS lengths.

use crate::lcs_facts::lemma_lcs_le;
use crate::model::{eq_exact, lcs};
use vstd::prelude::*;

verus! {

/// A valid LCS table for `old` and `new`: entry `[i][j]` holds the length
/// of the longest common subsequence of `new[i..]` and `old[j..]`.
pub open spec fn lcs_table_ok<T>(table: Seq<Vec<u32>>, old: Seq<T>, new: Seq<T>) -> bool {
    &&& table.len() == new.len() + 1
    &&& forall|i: int| 0 <= i <= new.len() ==> (#[trigger] table[i])@.len() == old.len() + 1
    &&& forall|i: int, j: int|
        0 <= i <= new.len() && 0 <= j <= old.len() ==> #[trigger] table[i]@[j] == lcs(
            new.skip(i),
            old.skip(j),
        )
}

/// Build the LCS-length table of the two slices, computed backward from
/// the empty suffixes.  The counters are 32-bit: the caller keeps at least
/// one input short enough that no count can wrap.
pub fn create_table<T: PartialEq + Clone>(old: &[T], new: &[T]) -> (table: Vec<Vec<u32>>)
    requires
        eq_exact::<T>(),
        old@.len() < usize::MAX,
        new@.len() < usize::MAX,
        old@.len() < u32::MAX || new@.len() < u32::MAX,
    ensures
        lcs_table_ok(table@, old@, new@),
{
    let old_len: usize = old.len();
    let new_len: usize = new.len();

    // the bottom row, for the empty suffix of `new`: all zeros
    let mut base: Vec<u32> = Vec::new();
    let mut j: usize = 0;
    while j <= old_len
        invariant
            old_len < usize::MAX,
            j <= old_len + 1,
            base@.len() == j,
            forall|j2: int| 0 <= j2 < j ==> base@[j2] == 0u32,
        decreases old_len + 1 - j,
    {
        base.push(0);
        j += 1;
    }

    // rows are produced from the bottom row upward
    let mut rows: Vec<Vec<u32>> = Vec::new();
    rows.push(base);
    let mut i: usize = new_len;
    while i > 0
        invariant
            eq_exact::<T>(),
            old_len == old@.len(),
            new_len == new@.len(),
            old_len < usize::MAX,
            new_len < usize::MAX,
            old@.len() < u32::MAX || new@.len() < u32::MAX,
            i <= new_len,
            rows@.len() == new_len - i + 1,
            forall|r: int| 0 <= r < rows@.len() ==> (#[trigger] rows@[r])@.len() == old_len + 1,
            forall|r: int, j2: int|
                0 <= r < rows@.len() && 0 <= j2 <= old_len ==> #[trigger] rows@[r]@[j2] == lcs(
                    new@.skip(new_len - r),
                    old@.skip(j2),
                ),
        decreases i,
    {
        i -= 1;
        // a fresh row, zeroed; its rightmost entry (empty `old` suffix) stays 0
        let mut row: Vec<u32> = Vec::new();
        let mut j: usize = 0;
        while j <= old_len
            invariant
                old_len < usize::MAX,
                j <= old_len + 1,
                row@.len() == j,
                forall|j2: int| 0 <= j2 < j ==> row@[j2] == 0u32,
            decreases old_len + 1 - j,
        {
            row.push(0);
            j += 1;
        }
        let below = &rows[rows.len() - 1];
        proof {
            assert(new@.skip(new_len as int).len() == 0);
            assert(old@.skip(old_len as int).len() == 0);
        }
        let mut j: usize = old_len;
        while j > 0
            invariant
                eq_exact::<T>(),
                old_len == old@.len(),
                new_len == new@.len(),
                old@.len() < u32::MAX || new@.len() < u32::MAX,
                i < new_len,
                j <= old_len,
                row@.len() == old_len + 1,
                below@.len() == old_len + 1,
                forall|j2: int|
                    0 <= j2 <= old_len ==> #[trigger] below@[j2] == lcs(
                        new@.skip(i + 1),
                        old@.skip(j2),
                    ),
                forall|j2: int|
                    j <= j2 <= old_len ==> #[trigger] row@[j2] == lcs(
                        new@.skip(i as int),
                        old@.skip(j2),
                    ),
            decreases j,
        {
            j -= 1;
            let ghost suffix_new = new@.skip(i as int);
            let ghost suffix_old = old@.skip(j as int);
            proof {
                assert(suffix_new[0] == new@[i as int]);
                assert(suffix_old[0] == old@[j as int]);
                assert(suffix_new.skip(1) =~= new@.skip(i + 1));
                assert(suffix_old.skip(1) =~= old@.skip(j + 1));
                lemma_lcs_le(suffix_new.skip(1), suffix_old.skip(1));
            }
            let v: u32 = if new[i] == old[j] {
                below[j + 1] + 1
            } else {
                let keep_new: u32 = below[j];
                let keep_old: u32 = row[j + 1];
                if keep_new >= keep_old {
                    keep_new
                } else {
                    keep_old
                }
            };
            row[j] = v;
        }
        rows.push(row);
    }

    // the rows stand bottom-up; hand them out top-down
    let mut table: Vec<Vec<u32>> = Vec::new();
    while rows.len() > 0
        invariant
            old_len == old@.len(),
            new_len == new@.len(),
            table@.len() + rows@.len() == new_len + 1,
            forall|r: int| 0 <= r < rows@.len() ==> (#[trigger] rows@[r])@.len() == old_len + 1,
            forall|r: int, j2: int|
                0 <= r < rows@.len() && 0 <= j2 <= old_len ==> #[trigger] rows@[r]@[j2] == lcs(
                    new@.skip(new_len - r),
                    old@.skip(j2),
                ),
            forall|t: int| 0 <= t < table@.len() ==> (#[trigger] table@[t])@.len() == old_len + 1,
            forall|t: int, j2: int|
                0 <= t < table@.len() && 0 <= j2 <= old_len ==> #[trigger] table@[t]@[j2] == lcs(
                    new@.skip(t),
                    old@.skip(j2),
                ),
        decreases rows@.len(),
    {
        let row = rows.pop().unwrap();
        table.push(row);
    }
    table
}

} // verus!
