//! The mathematical model of the diff: what the edit script of two
//! sequences is, element by element.

use crate::{DiffElement, DiffResult};
use vstd::prelude::*;
use vstd::std_specs::cmp::PartialEqSpec;

verus! {

/// Exec `==` on `T` decides spec equality: the element type's `PartialEq`
/// obeys its specification, and that specification coincides with `==` of
/// the mathematical values.  This is the "supports equality comparison"
/// obligation on elements.
pub open spec fn eq_exact<T: PartialEq>() -> bool {
    &&& T::obeys_eq_spec()
    &&& forall|x: T, y: T| #[trigger] x.eq_spec(&y) <==> x == y
}

/// Cloning an element yields the same mathematical value.  This is the
/// "duplicable without aliasing side effects" obligation on elements.
pub open spec fn clone_exact<T: Clone>() -> bool {
    forall|x: T, y: T| #[trigger] cloned::<T>(x, y) ==> y == x
}

/// Length of the shorter of the two sequences.
pub open spec fn min_len<T>(a: Seq<T>, b: Seq<T>) -> nat {
    if a.len() <= b.len() {
        a.len()
    } else {
        b.len()
    }
}

/// Length of the longest common subsequence of `a` and `b`.
pub open spec fn lcs<T>(a: Seq<T>, b: Seq<T>) -> nat
    decreases a.len() + b.len(),
{
    if a.len() == 0 || b.len() == 0 {
        0
    } else if a[0] == b[0] {
        1 + lcs(a.skip(1), b.skip(1))
    } else {
        let drop_a = lcs(a.skip(1), b);
        let drop_b = lcs(a, b.skip(1));
        if drop_a >= drop_b {
            drop_a
        } else {
            drop_b
        }
    }
}

/// `x` occurs, in order, inside `y`.
pub open spec fn is_subseq_of<T>(x: Seq<T>, y: Seq<T>) -> bool
    decreases y.len(),
{
    if x.len() == 0 {
        true
    } else if y.len() == 0 {
        false
    } else {
        (x[0] == y[0] && is_subseq_of(x.skip(1), y.skip(1))) || is_subseq_of(x, y.skip(1))
    }
}

/// Length of the longest run of pairwise-equal elements at the start of
/// both sequences.
pub open spec fn common_prefix_len<T>(old: Seq<T>, new: Seq<T>) -> nat
    decreases old.len(),
{
    if old.len() == 0 || new.len() == 0 || old[0] != new[0] {
        0
    } else {
        1 + common_prefix_len(old.skip(1), new.skip(1))
    }
}

/// Length of the common suffix run that the trimmer removes: the longest
/// run of pairwise-equal elements at the end of both sequences, capped so
/// that prefix and suffix spans never overlap.
pub open spec fn common_suffix_len<T>(old: Seq<T>, new: Seq<T>) -> nat {
    let cap = min_len(old, new) - common_prefix_len(old, new);
    let run = common_prefix_len(old.reverse(), new.reverse());
    if run <= cap {
        run
    } else {
        cap as nat
    }
}

/// A `Removed` record for the element at position `oi` of the old sequence.
pub open spec fn removed_rec<T: PartialEq + Clone>(x: T, oi: int) -> DiffResult<T> {
    DiffResult::Removed(
        DiffElement { old_index: Some(oi as usize), new_index: None, data: x },
    )
}

/// An `Added` record for the element at position `ni` of the new sequence.
pub open spec fn added_rec<T: PartialEq + Clone>(x: T, ni: int) -> DiffResult<T> {
    DiffResult::Added(
        DiffElement { old_index: None, new_index: Some(ni as usize), data: x },
    )
}

/// A `Common` record for an element at position `oi` of the old sequence
/// and `ni` of the new one.
pub open spec fn common_rec<T: PartialEq + Clone>(x: T, oi: int, ni: int) -> DiffResult<T> {
    DiffResult::Common(
        DiffElement { old_index: Some(oi as usize), new_index: Some(ni as usize), data: x },
    )
}

/// `Removed` records for the elements of `s` at positions `lo..hi`.
pub open spec fn removed_run<T: PartialEq + Clone>(s: Seq<T>, lo: int, hi: int) -> Seq<
    DiffResult<T>,
>
    decreases hi - lo,
{
    if lo >= hi {
        Seq::empty()
    } else {
        seq![removed_rec(s[lo], lo)] + removed_run(s, lo + 1, hi)
    }
}

/// `Added` records for the elements of `s` at positions `lo..hi`.
pub open spec fn added_run<T: PartialEq + Clone>(s: Seq<T>, lo: int, hi: int) -> Seq<
    DiffResult<T>,
>
    decreases hi - lo,
{
    if lo >= hi {
        Seq::empty()
    } else {
        seq![added_rec(s[lo], lo)] + added_run(s, lo + 1, hi)
    }
}

/// `cnt` `Common` records for the elements of `old` starting at position
/// `oi`, paired with new-sequence positions starting at `ni`.
pub open spec fn common_run<T: PartialEq + Clone>(old: Seq<T>, oi: int, ni: int, cnt: nat) -> Seq<
    DiffResult<T>,
>
    decreases cnt,
{
    if cnt == 0 {
        Seq::empty()
    } else {
        seq![common_rec(old[oi], oi, ni)] + common_run(old, oi + 1, ni + 1, (cnt - 1) as nat)
    }
}

/// The forward walk through the trimmed middle region.  `so` and `sn` are
/// the ends of the region in the old and new sequence; `oi` and `ni` the
/// current absolute positions.  At each step: equal elements are reported
/// `Common`; otherwise the walk consumes from `new` (an `Added` record)
/// exactly when doing so loses no common elements later — on a tie it
/// prefers `Added`.  When either side of the region is exhausted, the rest
/// of the new side is flushed as `Added`, then the rest of the old side as
/// `Removed`.
pub open spec fn walk<T: PartialEq + Clone>(
    old: Seq<T>,
    new: Seq<T>,
    so: int,
    sn: int,
    oi: int,
    ni: int,
) -> Seq<DiffResult<T>>
    decreases so + sn - oi - ni,
{
    if oi >= so || ni >= sn {
        added_run(new, ni, sn) + removed_run(old, oi, so)
    } else if new[ni] == old[oi] {
        seq![common_rec(old[oi], oi, ni)] + walk(old, new, so, sn, oi + 1, ni + 1)
    } else if lcs(new.subrange(ni + 1, sn), old.subrange(oi, so)) >= lcs(
        new.subrange(ni, sn),
        old.subrange(oi + 1, so),
    ) {
        seq![added_rec(new[ni], ni)] + walk(old, new, so, sn, oi, ni + 1)
    } else {
        seq![removed_rec(old[oi], oi)] + walk(old, new, so, sn, oi + 1, ni)
    }
}

/// The edit script of `old` and `new`: the common prefix as `Common`
/// records, then the walk through the trimmed middle region, then the
/// common suffix as `Common` records.  An empty side short-circuits to an
/// all-`Removed` or all-`Added` script.
pub open spec fn diff_spec<T: PartialEq + Clone>(old: Seq<T>, new: Seq<T>) -> Seq<DiffResult<T>> {
    if new.len() == 0 {
        removed_run(old, 0, old.len() as int)
    } else if old.len() == 0 {
        added_run(new, 0, new.len() as int)
    } else {
        let p = common_prefix_len(old, new) as int;
        let s = common_suffix_len(old, new) as int;
        common_run(old, 0, 0, p as nat) + walk(
            old,
            new,
            old.len() - s,
            new.len() - s,
            p,
            p,
        ) + common_run(old, old.len() - s, new.len() - s, s as nat)
    }
}

/// How many records of the script are `Removed`.
pub open spec fn count_removed<T: PartialEq + Clone>(r: Seq<DiffResult<T>>) -> nat
    decreases r.len(),
{
    if r.len() == 0 {
        0
    } else {
        (match r[0] {
            DiffResult::Removed(_) => 1 as nat,
            _ => 0 as nat,
        }) + count_removed(r.skip(1))
    }
}

/// How many records of the script are `Common`.
pub open spec fn count_common<T: PartialEq + Clone>(r: Seq<DiffResult<T>>) -> nat
    decreases r.len(),
{
    if r.len() == 0 {
        0
    } else {
        (match r[0] {
            DiffResult::Common(_) => 1 as nat,
            _ => 0 as nat,
        }) + count_common(r.skip(1))
    }
}

/// How many records of the script are `Added`.
pub open spec fn count_added<T: PartialEq + Clone>(r: Seq<DiffResult<T>>) -> nat
    decreases r.len(),
{
    if r.len() == 0 {
        0
    } else {
        (match r[0] {
            DiffResult::Added(_) => 1 as nat,
            _ => 0 as nat,
        }) + count_added(r.skip(1))
    }
}

/// The data carried by the old-indexed records (`Removed` and `Common`),
/// in script order: what replaying the script against the old sequence
/// reads.
pub open spec fn old_values<T: PartialEq + Clone>(r: Seq<DiffResult<T>>) -> Seq<T>
    decreases r.len(),
{
    if r.len() == 0 {
        Seq::empty()
    } else {
        match r[0] {
            DiffResult::Removed(e) => seq![e.data] + old_values(r.skip(1)),
            DiffResult::Common(e) => seq![e.data] + old_values(r.skip(1)),
            DiffResult::Added(_) => old_values(r.skip(1)),
        }
    }
}

/// The data carried by the new-indexed records (`Added` and `Common`), in
/// script order: what replaying the script produces.
pub open spec fn new_values<T: PartialEq + Clone>(r: Seq<DiffResult<T>>) -> Seq<T>
    decreases r.len(),
{
    if r.len() == 0 {
        Seq::empty()
    } else {
        match r[0] {
            DiffResult::Added(e) => seq![e.data] + new_values(r.skip(1)),
            DiffResult::Common(e) => seq![e.data] + new_values(r.skip(1)),
            DiffResult::Removed(_) => new_values(r.skip(1)),
        }
    }
}

} // verus!
