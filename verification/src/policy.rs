//! The two rules for comparing positions at which only one file has a byte,
//! and the comparison of a single window under each of them.

use vstd::prelude::*;

verus! {

/// Number of bytes asked of each file per read.
pub const WINDOW: usize = 4096;

/// The larger of two lengths.
pub open spec fn longer(a: int, b: int) -> int {
    if a >= b {
        a
    } else {
        b
    }
}

/// The smaller of two lengths.
pub open spec fn shorter(a: int, b: int) -> int {
    if a <= b {
        a
    } else {
        b
    }
}

/// The byte at position `i`, and zero where the sequence has no such position.
pub open spec fn zero_filled(bytes: Seq<u8>, i: int) -> u8 {
    if 0 <= i < bytes.len() {
        bytes[i]
    } else {
        0u8
    }
}

/// Zero-fill rule: a missing byte counts as zero, and positions are compared
/// by value.
pub open spec fn differs_zero_fill(left: Seq<u8>, right: Seq<u8>, i: int) -> bool {
    zero_filled(left, i) != zero_filled(right, i)
}

/// Extra-is-difference rule: where both sequences have a byte the bytes are
/// compared; where exactly one has a byte the position differs, whatever the
/// byte; where neither has one it does not.
pub open spec fn differs_extra(left: Seq<u8>, right: Seq<u8>, i: int) -> bool {
    if 0 <= i < left.len() && i < right.len() {
        left[i] != right[i]
    } else {
        0 <= i && (i < left.len() || i < right.len())
    }
}

/// The offsets `base + i`, for `lo <= i < hi` in ascending order, at which the
/// two sequences differ under the extra-is-difference rule.
pub open spec fn extra_diffs(left: Seq<u8>, right: Seq<u8>, base: int, lo: int, hi: int) -> Seq<u64>
    decreases hi - lo,
{
    if hi <= lo {
        Seq::empty()
    } else if differs_extra(left, right, hi - 1) {
        extra_diffs(left, right, base, lo, hi - 1).push((base + hi - 1) as u64)
    } else {
        extra_diffs(left, right, base, lo, hi - 1)
    }
}

/// The lowest position in `lo <= i < hi` at which the two sequences differ
/// under the zero-fill rule, if there is one.
pub open spec fn first_zero_fill_diff(left: Seq<u8>, right: Seq<u8>, lo: int, hi: int) -> Option<int>
    decreases hi - lo,
{
    if hi <= lo {
        None
    } else if differs_zero_fill(left, right, lo) {
        Some(lo)
    } else {
        first_zero_fill_diff(left, right, lo + 1, hi)
    }
}

/// The highest position in `lo <= i < hi` at which the two sequences differ
/// under the zero-fill rule, if there is one.
pub open spec fn last_zero_fill_diff(left: Seq<u8>, right: Seq<u8>, lo: int, hi: int) -> Option<int>
    decreases hi - lo,
{
    if hi <= lo {
        None
    } else if differs_zero_fill(left, right, hi - 1) {
        Some(hi - 1)
    } else {
        last_zero_fill_diff(left, right, lo, hi - 1)
    }
}

/// A range of offsets can be cut anywhere: the differences of the whole are
/// those of the lower part followed by those of the upper part.
pub proof fn lemma_extra_diffs_split(
    left: Seq<u8>,
    right: Seq<u8>,
    base: int,
    lo: int,
    mid: int,
    hi: int,
)
    requires
        lo <= mid <= hi,
    ensures
        extra_diffs(left, right, base, lo, hi) == extra_diffs(left, right, base, lo, mid)
            + extra_diffs(left, right, base, mid, hi),
    decreases hi - mid,
{
    if mid < hi {
        lemma_extra_diffs_split(left, right, base, lo, mid, hi - 1);
        let head = extra_diffs(left, right, base, lo, mid);
        let tail = extra_diffs(left, right, base, mid, hi - 1);
        if differs_extra(left, right, hi - 1) {
            let v = (base + hi - 1) as u64;
            assert((head + tail).push(v) =~= head + tail.push(v));
        }
    } else {
        assert(extra_diffs(left, right, base, lo, mid) + Seq::<u64>::empty() =~= extra_diffs(
            left,
            right,
            base,
            lo,
            mid,
        ));
    }
}

/// What `extra_diffs` holds, entry by entry: every entry is an offset of the
/// range that differs, the entries ascend strictly, and no differing offset
/// of the range is left out.
pub proof fn lemma_extra_diffs_exact(left: Seq<u8>, right: Seq<u8>, base: int, lo: int, hi: int)
    requires
        0 <= base + lo,
        base + hi <= u64::MAX + 1,
    ensures
        forall|k: int|
            0 <= k < extra_diffs(left, right, base, lo, hi).len() ==> {
                let p = #[trigger] extra_diffs(left, right, base, lo, hi)[k];
                base + lo <= p < base + hi && differs_extra(left, right, p - base)
            },
        forall|j: int, k: int|
            0 <= j < k < extra_diffs(left, right, base, lo, hi).len() ==> extra_diffs(
                left,
                right,
                base,
                lo,
                hi,
            )[j] < extra_diffs(left, right, base, lo, hi)[k],
        forall|i: int|
            lo <= i < hi && #[trigger] differs_extra(left, right, i) ==> extra_diffs(
                left,
                right,
                base,
                lo,
                hi,
            ).contains((base + i) as u64),
    decreases hi - lo,
{
    let all = extra_diffs(left, right, base, lo, hi);
    if lo < hi {
        lemma_extra_diffs_exact(left, right, base, lo, hi - 1);
        let before = extra_diffs(left, right, base, lo, hi - 1);
        assert forall|i: int| lo <= i < hi && #[trigger] differs_extra(left, right, i) implies all.contains(
            (base + i) as u64,
        ) by {
            if i < hi - 1 {
                let k = choose|k: int| 0 <= k < before.len() && before[k] == (base + i) as u64;
                assert(all[k] == (base + i) as u64);
            } else {
                assert(all[all.len() - 1] == (base + i) as u64);
            }
        }
    }
}

/// Two pairs of sequences that differ at the same places, the second pair
/// `shift` positions further on, have the same differences.
pub proof fn lemma_extra_diffs_shifted(
    left: Seq<u8>,
    right: Seq<u8>,
    far_left: Seq<u8>,
    far_right: Seq<u8>,
    base: int,
    shift: int,
    lo: int,
    hi: int,
)
    requires
        forall|i: int|
            lo <= i < hi ==> differs_extra(left, right, i) == #[trigger] differs_extra(
                far_left,
                far_right,
                i + shift,
            ),
    ensures
        extra_diffs(left, right, base, lo, hi) == extra_diffs(
            far_left,
            far_right,
            base - shift,
            lo + shift,
            hi + shift,
        ),
    decreases hi - lo,
{
    if lo < hi {
        lemma_extra_diffs_shifted(left, right, far_left, far_right, base, shift, lo, hi - 1);
        assert(differs_extra(left, right, hi - 1) == differs_extra(
            far_left,
            far_right,
            hi - 1 + shift,
        ));
    }
}

/// A range in which no offset differs has no differences.
pub proof fn lemma_extra_diffs_none(left: Seq<u8>, right: Seq<u8>, base: int, lo: int, hi: int)
    requires
        forall|i: int| lo <= i < hi ==> !#[trigger] differs_extra(left, right, i),
    ensures
        extra_diffs(left, right, base, lo, hi) == Seq::<u64>::empty(),
    decreases hi - lo,
{
    if lo < hi {
        lemma_extra_diffs_none(left, right, base, lo, hi - 1);
    }
}

/// What `first_zero_fill_diff` holds: the position it gives differs and none
/// below it in the range does; it gives none exactly when none differs.
pub proof fn lemma_first_zero_fill_diff_exact(left: Seq<u8>, right: Seq<u8>, lo: int, hi: int)
    ensures
        match first_zero_fill_diff(left, right, lo, hi) {
            Some(p) => lo <= p < hi && differs_zero_fill(left, right, p) && forall|i: int|
                lo <= i < p ==> !#[trigger] differs_zero_fill(left, right, i),
            None => forall|i: int| lo <= i < hi ==> !#[trigger] differs_zero_fill(left, right, i),
        },
    decreases hi - lo,
{
    if lo < hi && !differs_zero_fill(left, right, lo) {
        lemma_first_zero_fill_diff_exact(left, right, lo + 1, hi);
    }
}

/// What `last_zero_fill_diff` holds: the position it gives differs and none
/// above it in the range does; it gives none exactly when none differs.
pub proof fn lemma_last_zero_fill_diff_exact(left: Seq<u8>, right: Seq<u8>, lo: int, hi: int)
    ensures
        match last_zero_fill_diff(left, right, lo, hi) {
            Some(p) => lo <= p < hi && differs_zero_fill(left, right, p) && forall|i: int|
                p < i < hi ==> !#[trigger] differs_zero_fill(left, right, i),
            None => forall|i: int| lo <= i < hi ==> !#[trigger] differs_zero_fill(left, right, i),
        },
    decreases hi - lo,
{
    if lo < hi && !differs_zero_fill(left, right, hi - 1) {
        lemma_last_zero_fill_diff_exact(left, right, lo, hi - 1);
    }
}

/// The two rules part at exactly one kind of position: where one sequence
/// has ended and the other holds a zero byte. There the extra-is-difference
/// rule sees a difference and the zero-fill rule sees none. At every other
/// position they agree, so what differs under the zero-fill rule differs
/// under the other rule as well.
pub proof fn lemma_rules_part_at_extra_zero(left: Seq<u8>, right: Seq<u8>, i: int)
    ensures
        differs_zero_fill(left, right, i) ==> differs_extra(left, right, i),
        differs_extra(left, right, i) && !differs_zero_fill(left, right, i) <==> {
            ||| left.len() <= i < right.len() && right[i] == 0
            ||| right.len() <= i < left.len() && left[i] == 0
        },
{
}

/// The converse for `first_zero_fill_diff`: a differing position of the
/// range below which none differs is the one it gives, and it gives none
/// where none differs.
pub proof fn lemma_first_zero_fill_diff_found(
    left: Seq<u8>,
    right: Seq<u8>,
    lo: int,
    hi: int,
    at: Option<int>,
)
    requires
        match at {
            Some(p) => lo <= p < hi && differs_zero_fill(left, right, p) && forall|i: int|
                lo <= i < p ==> !#[trigger] differs_zero_fill(left, right, i),
            None => forall|i: int| lo <= i < hi ==> !#[trigger] differs_zero_fill(left, right, i),
        },
    ensures
        first_zero_fill_diff(left, right, lo, hi) == at,
{
    lemma_first_zero_fill_diff_exact(left, right, lo, hi);
}

/// The converse for `last_zero_fill_diff`: a differing position of the range
/// above which none differs is the one it gives, and it gives none where
/// none differs.
pub proof fn lemma_last_zero_fill_diff_found(
    left: Seq<u8>,
    right: Seq<u8>,
    lo: int,
    hi: int,
    at: Option<int>,
)
    requires
        match at {
            Some(p) => lo <= p < hi && differs_zero_fill(left, right, p) && forall|i: int|
                p < i < hi ==> !#[trigger] differs_zero_fill(left, right, i),
            None => forall|i: int| lo <= i < hi ==> !#[trigger] differs_zero_fill(left, right, i),
        },
    ensures
        last_zero_fill_diff(left, right, lo, hi) == at,
{
    lemma_last_zero_fill_diff_exact(left, right, lo, hi);
}

/// The larger of two lengths.
pub fn longer_of(a: usize, b: usize) -> (m: usize)
    ensures
        m == longer(a as int, b as int),
{
    if a >= b {
        a
    } else {
        b
    }
}

/// The smaller of two lengths.
pub fn shorter_of(a: usize, b: usize) -> (m: usize)
    ensures
        m == shorter(a as int, b as int),
{
    if a <= b {
        a
    } else {
        b
    }
}

/// How many bytes to move next when `remaining` are still to go: all of them,
/// but never more than one window.
pub fn window_len(remaining: u64) -> (len: usize)
    ensures
        len == shorter(remaining as int, WINDOW as int),
{
    if remaining < WINDOW as u64 {
        remaining as usize
    } else {
        WINDOW
    }
}

/// The byte at position `i` of a window, and zero where the window has ended.
pub fn zero_filled_at(bytes: &[u8], i: usize) -> (b: u8)
    ensures
        b == zero_filled(bytes@, i as int),
{
    if i < bytes.len() {
        bytes[i]
    } else {
        0
    }
}

/// Compares two windows that start at offset `base` under the
/// extra-is-difference rule and appends every differing offset to `found`,
/// in ascending order.
pub fn append_extra_diffs(left: &[u8], right: &[u8], base: u64, found: &mut Vec<u64>)
    requires
        base + longer(left@.len() as int, right@.len() as int) <= u64::MAX,
    ensures
        final(found)@ == old(found)@ + extra_diffs(
            left@,
            right@,
            base as int,
            0,
            longer(left@.len() as int, right@.len() as int),
        ),
{
    let both = shorter_of(left.len(), right.len());
    let either = longer_of(left.len(), right.len());
    let mut i: usize = 0;
    assert(found@ =~= old(found)@ + extra_diffs(left@, right@, base as int, 0, 0));
    while i < both
        invariant
            i <= both,
            both == shorter(left@.len() as int, right@.len() as int),
            base + both <= u64::MAX,
            found@ == old(found)@ + extra_diffs(left@, right@, base as int, 0, i as int),
        decreases both - i,
    {
        if left[i] != right[i] {
            found.push(base + i as u64);
            assert(found@ =~= old(found)@ + extra_diffs(left@, right@, base as int, 0, i + 1));
        }
        i += 1;
    }
    while i < either
        invariant
            both <= i <= either,
            both == shorter(left@.len() as int, right@.len() as int),
            either == longer(left@.len() as int, right@.len() as int),
            base + either <= u64::MAX,
            found@ == old(found)@ + extra_diffs(left@, right@, base as int, 0, i as int),
        decreases either - i,
    {
        found.push(base + i as u64);
        assert(found@ =~= old(found)@ + extra_diffs(left@, right@, base as int, 0, i + 1));
        i += 1;
    }
}

/// Searches two windows upward for the first position at which they differ
/// under the zero-fill rule, up to the end of the longer one.
pub fn find_first_zero_fill_diff(left: &[u8], right: &[u8]) -> (at: Option<usize>)
    ensures
        match at {
            Some(i) => Some(i as int),
            None => None,
        } == first_zero_fill_diff(
            left@,
            right@,
            0,
            longer(left@.len() as int, right@.len() as int),
        ),
{
    let either = longer_of(left.len(), right.len());
    let mut i: usize = 0;
    while i < either
        invariant
            i <= either,
            either == longer(left@.len() as int, right@.len() as int),
            first_zero_fill_diff(left@, right@, 0, either as int) == first_zero_fill_diff(
                left@,
                right@,
                i as int,
                either as int,
            ),
        decreases either - i,
    {
        if zero_filled_at(left, i) != zero_filled_at(right, i) {
            return Some(i);
        }
        i += 1;
    }
    None
}

/// Searches two windows downward, from the end of the longer one, for the
/// last position at which they differ under the zero-fill rule.
pub fn find_last_zero_fill_diff(left: &[u8], right: &[u8]) -> (at: Option<usize>)
    ensures
        match at {
            Some(i) => Some(i as int),
            None => None,
        } == last_zero_fill_diff(
            left@,
            right@,
            0,
            longer(left@.len() as int, right@.len() as int),
        ),
{
    let either = longer_of(left.len(), right.len());
    let mut i: usize = either;
    while i > 0
        invariant
            i <= either,
            either == longer(left@.len() as int, right@.len() as int),
            last_zero_fill_diff(left@, right@, 0, either as int) == last_zero_fill_diff(
                left@,
                right@,
                0,
                i as int,
            ),
        decreases i,
    {
        i -= 1;
        if zero_filled_at(left, i) != zero_filled_at(right, i) {
            return Some(i);
        }
    }
    None
}

} // verus!
