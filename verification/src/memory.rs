//! The scans run on files held in memory, and what they find there, stated
//! over the files' bytes.

use crate::error::Operand;
use crate::next::{NextScan, NextScanView};
use crate::policy::{
    differs_extra, differs_zero_fill, extra_diffs, first_zero_fill_diff, last_zero_fill_diff,
    lemma_extra_diffs_exact, lemma_extra_diffs_none, lemma_extra_diffs_shifted,
    lemma_extra_diffs_split, lemma_first_zero_fill_diff_exact, lemma_first_zero_fill_diff_found,
    lemma_last_zero_fill_diff_exact, lemma_last_zero_fill_diff_found, longer, shorter, shorter_of,
    WINDOW,
};
use crate::prev::{PrevScan, PrevScanView};
use crate::protocol::{Action, Phase, Reply, Step};
use crate::range::{ascending_within, RangeScan, RangeScanView};
use vstd::pervasive::unreached;
use vstd::prelude::*;
use vstd::slice::{slice_subrange, slice_to_vec};

verus! {

/// The bytes that a read of up to `len` bytes obtains at offset `at` of a
/// file that holds `bytes`: all that the file has there, and nothing at or
/// past its end.
pub open spec fn stretch(bytes: Seq<u8>, at: int, len: int) -> Seq<u8> {
    bytes.subrange(shorter(at, bytes.len() as int), shorter(at + len, bytes.len() as int))
}

/// A file held in memory, with the cursor of an open file. Seeking may put
/// the cursor anywhere, also past the end; a read obtains as many of the
/// wanted bytes as the file has at the cursor. Neither ever fails.
pub struct MemoryFile<'a> {
    pub bytes: &'a [u8],
    pub cursor: u64,
}

impl<'a> MemoryFile<'a> {
    /// The file of these bytes, with its cursor at the start.
    pub fn new(bytes: &'a [u8]) -> (file: Self)
        ensures
            file.bytes@ == bytes@,
            file.cursor == 0,
    {
        MemoryFile { bytes, cursor: 0 }
    }

    /// Performs one access: a seek puts the cursor at its offset, and a read
    /// yields the stretch at the cursor and moves the cursor past it.
    pub fn serve(&mut self, action: Action) -> (reply: Reply)
        ensures
            final(self).bytes@ == old(self).bytes@,
            match action {
                Action::Seek(offset) => reply == Reply::Sought && final(self).cursor == offset,
                Action::Read(len) => {
                    &&& reply matches Reply::Bytes(obtained)
                    &&& obtained@ == stretch(
                        old(self).bytes@,
                        old(self).cursor as int,
                        len as int,
                    )
                    &&& final(self).cursor == old(self).cursor + obtained@.len()
                },
            },
    {
        match action {
            Action::Seek(offset) => {
                self.cursor = offset;
                Reply::Sought
            },
            Action::Read(len) => {
                let total = self.bytes.len();
                if self.cursor >= total as u64 {
                    let nothing: Vec<u8> = Vec::new();
                    assert(nothing@ =~= stretch(self.bytes@, self.cursor as int, len as int));
                    Reply::Bytes(nothing)
                } else {
                    let from = self.cursor as usize;
                    let take = shorter_of(len, total - from);
                    let obtained = slice_to_vec(slice_subrange(self.bytes, from, from + take));
                    self.cursor = self.cursor + take as u64;
                    Reply::Bytes(obtained)
                }
            },
        }
    }
}

/// Whether a cursor stands where a scan at `pos` takes it to stand: at `pos`
/// itself, or, once the file has ended, anywhere at or past its end.
spec fn aligned(bytes: Seq<u8>, cursor: int, pos: int) -> bool {
    cursor == pos || (cursor >= bytes.len() && pos >= bytes.len())
}

/// A read through an aligned cursor obtains the stretch at the scan's
/// position and leaves the cursor aligned with the position behind the
/// window; a stretch that is short of the window reaches the file's end, and
/// one that holds a byte lies within the file.
proof fn lemma_aligned_read(bytes: Seq<u8>, cursor: int, pos: int, len: int)
    requires
        0 <= pos,
        0 <= cursor,
        0 <= len,
        aligned(bytes, cursor, pos),
    ensures
        stretch(bytes, cursor, len) == stretch(bytes, pos, len),
        aligned(bytes, cursor + stretch(bytes, pos, len).len(), pos + len),
        stretch(bytes, pos, len).len() <= len,
        stretch(bytes, pos, len).len() < len ==> pos + stretch(bytes, pos, len).len()
            >= bytes.len(),
        stretch(bytes, pos, len).len() > 0 ==> pos + stretch(bytes, pos, len).len()
            <= bytes.len(),
{
    assert(stretch(bytes, cursor, len) =~= stretch(bytes, pos, len));
}

/// A window compares under the extra-is-difference rule as the stretch of
/// the files that it was read from.
proof fn lemma_window_extra(left: Seq<u8>, right: Seq<u8>, pos: int, len: int)
    requires
        0 <= pos,
        0 <= len,
    ensures
        extra_diffs(
            stretch(left, pos, len),
            stretch(right, pos, len),
            pos,
            0,
            longer(stretch(left, pos, len).len() as int, stretch(right, pos, len).len() as int),
        ) == extra_diffs(left, right, 0, pos, pos + len),
{
    let lw = stretch(left, pos, len);
    let rw = stretch(right, pos, len);
    let width = longer(lw.len() as int, rw.len() as int);
    assert forall|i: int| 0 <= i < len implies differs_extra(lw, rw, i) == #[trigger] differs_extra(
        left,
        right,
        i + pos,
    ) by {}
    lemma_extra_diffs_shifted(lw, rw, left, right, pos, pos, 0, len);
    lemma_extra_diffs_split(lw, rw, pos, 0, width, len);
    lemma_extra_diffs_none(lw, rw, pos, width, len);
    assert(extra_diffs(lw, rw, pos, 0, width) + Seq::<u64>::empty() =~= extra_diffs(
        lw,
        rw,
        pos,
        0,
        width,
    ));
}

/// Past the end of both files nothing differs under the extra-is-difference
/// rule.
proof fn lemma_extra_ends(left: Seq<u8>, right: Seq<u8>, lo: int, mid: int, hi: int)
    requires
        lo <= mid <= hi,
        left.len() <= mid,
        right.len() <= mid,
    ensures
        extra_diffs(left, right, 0, lo, hi) == extra_diffs(left, right, 0, lo, mid),
{
    lemma_extra_diffs_split(left, right, 0, lo, mid, hi);
    lemma_extra_diffs_none(left, right, 0, mid, hi);
    assert(extra_diffs(left, right, 0, lo, mid) + Seq::<u64>::empty() =~= extra_diffs(
        left,
        right,
        0,
        lo,
        mid,
    ));
}

/// How many accesses a scan of a range still makes on its current window.
spec fn range_rank(step: Step<RangeScanView, Seq<u64>>) -> nat {
    match step {
        Step::Ask(scan) => match scan.phase {
            Phase::SeekLeft => 4,
            Phase::SeekRight => 3,
            Phase::ReadLeft => 2,
            Phase::ReadRight => 1,
        },
        Step::Done(_) => 0,
    }
}

/// How much of its range a scan has still to read.
spec fn range_left(step: Step<RangeScanView, Seq<u64>>) -> nat {
    match step {
        Step::Ask(scan) => (scan.end - scan.pos) as nat,
        Step::Done(_) => 0,
    }
}

/// What ties a scan of a range to the two files it runs on: what it has
/// found are the files' differences below its position, the cursors stand
/// where the pending access needs them, and when it has ended it holds the
/// differences of the whole range.
spec fn range_linked(
    step: Step<RangeScanView, Seq<u64>>,
    left: Seq<u8>,
    right: Seq<u8>,
    left_cursor: int,
    right_cursor: int,
    offset: int,
    end: int,
) -> bool {
    match step {
        Step::Done(Ok(found)) => found == extra_diffs(left, right, 0, offset, end),
        Step::Done(Err(_)) => false,
        Step::Ask(scan) => {
            &&& scan.wf()
            &&& scan.start == offset
            &&& scan.end == end
            &&& scan.found == extra_diffs(left, right, 0, offset, scan.pos as int)
            &&& match scan.phase {
                Phase::SeekLeft => true,
                Phase::SeekRight => left_cursor == scan.pos,
                Phase::ReadLeft => aligned(left, left_cursor, scan.pos as int) && aligned(
                    right,
                    right_cursor,
                    scan.pos as int,
                ),
                Phase::ReadRight => {
                    &&& scan.held == stretch(left, scan.pos as int, scan.window() as int)
                    &&& aligned(left, left_cursor, (scan.pos + scan.window()) as int)
                    &&& aligned(right, right_cursor, scan.pos as int)
                },
            }
        },
    }
}

/// All offsets of the range from `offset`, `length` long, at which two files
/// held in memory differ under the extra-is-difference rule, in ascending
/// order: an offset where both files have a byte is in the result exactly
/// when the bytes differ, an offset where only one of them has a byte always
/// is, and an offset past the end of both never is.
pub fn range_diff(left: &[u8], right: &[u8], offset: u64, length: usize) -> (found: Vec<u64>)
    requires
        offset + length <= u64::MAX,
    ensures
        found@ == extra_diffs(left@, right@, 0, offset as int, offset + length),
        ascending_within(found@, offset as int, offset + length),
        forall|p: u64|
            found@.contains(p) <==> offset <= p < offset + length && differs_extra(
                left@,
                right@,
                p as int,
            ),
{
    let mut left_file = MemoryFile::new(left);
    let mut right_file = MemoryFile::new(right);
    let mut step = RangeScan::begin(offset, length);
    loop
        invariant
            offset + length <= u64::MAX,
            left_file.bytes@ == left@,
            right_file.bytes@ == right@,
            range_linked(
                step@,
                left@,
                right@,
                left_file.cursor as int,
                right_file.cursor as int,
                offset as int,
                offset + length,
            ),
        decreases range_left(step@), range_rank(step@),
    {
        match step {
            Step::Done(Ok(found)) => {
                proof {
                    lemma_range_found(left@, right@, offset as int, offset + length);
                }
                return found;
            },
            Step::Done(Err(_)) => {
                return unreached();
            },
            Step::Ask(scan) => {
                let request = scan.request();
                let ghost before = scan@;
                let ghost left_cursor = left_file.cursor as int;
                let ghost right_cursor = right_file.cursor as int;
                let reply = match request.operand {
                    Operand::Right => right_file.serve(request.action),
                    _ => left_file.serve(request.action),
                };
                proof {
                    let pos = before.pos as int;
                    let width = before.window() as int;
                    if before.phase is ReadLeft {
                        lemma_aligned_read(left@, left_cursor, pos, width);
                    }
                    if before.phase is ReadRight {
                        lemma_aligned_read(right@, right_cursor, pos, width);
                        lemma_window_extra(left@, right@, pos, width);
                        lemma_extra_diffs_split(left@, right@, 0, offset as int, pos, pos + width);
                        if before.held.len() == 0 && stretch(right@, pos, width).len() == 0 {
                            lemma_extra_ends(
                                left@,
                                right@,
                                offset as int,
                                pos + width,
                                offset + length,
                            );
                        }
                    }
                }
                step = scan.advance(reply);
            },
        }
    }
}

/// What the differences of a range hold: they ascend strictly and lie within
/// the range, and an offset is among them exactly when it lies within the
/// range and differs under the extra-is-difference rule.
pub proof fn lemma_range_found(left: Seq<u8>, right: Seq<u8>, lo: int, hi: int)
    requires
        0 <= lo,
        hi <= u64::MAX + 1,
    ensures
        ascending_within(extra_diffs(left, right, 0, lo, hi), lo, hi),
        forall|p: u64|
            extra_diffs(left, right, 0, lo, hi).contains(p) <==> lo <= p < hi && differs_extra(
                left,
                right,
                p as int,
            ),
{
    let found = extra_diffs(left, right, 0, lo, hi);
    lemma_extra_diffs_exact(left, right, 0, lo, hi);
    assert forall|p: u64| lo <= p < hi && differs_extra(left, right, p as int) implies found.contains(
        p,
    ) by {
        assert(p == (0 + p as int) as u64);
    }
}

/// Within a range that neither file ends in, the differences are exactly the
/// offsets at which the two bytes differ.
pub proof fn lemma_range_within_both(left: Seq<u8>, right: Seq<u8>, lo: int, hi: int)
    requires
        0 <= lo,
        hi <= left.len(),
        hi <= right.len(),
        hi <= u64::MAX + 1,
    ensures
        forall|p: u64|
            extra_diffs(left, right, 0, lo, hi).contains(p) <==> lo <= p < hi && left[p as int]
                != right[p as int],
{
    lemma_range_found(left, right, lo, hi);
    let found = extra_diffs(left, right, 0, lo, hi);
    assert forall|p: u64| found.contains(p) <==> lo <= p < hi && left[p as int] != right[p as int] by {
        assert(found.contains(p) <==> lo <= p < hi && differs_extra(left, right, p as int));
    }
}

/// A position as the offset that a search reports.
pub open spec fn offset_of(at: Option<int>) -> Option<u64> {
    match at {
        Some(p) => Some(p as u64),
        None => None,
    }
}

/// The first offset at or after `from` at which two files differ under the
/// zero-fill rule, the shorter file filled up with zeros to the end of the
/// longer one.
pub open spec fn next_diff_of(left: Seq<u8>, right: Seq<u8>, from: int) -> Option<u64> {
    offset_of(first_zero_fill_diff(left, right, from, longer(left.len() as int, right.len() as int)))
}

/// The last offset before `from` at which two files differ under the
/// zero-fill rule.
pub open spec fn prev_diff_of(left: Seq<u8>, right: Seq<u8>, from: int) -> Option<u64> {
    offset_of(last_zero_fill_diff(left, right, 0, from))
}

/// A window compares under the zero-fill rule as the stretch of the files
/// that it was read from.
proof fn lemma_window_zero_fill(left: Seq<u8>, right: Seq<u8>, pos: int, len: int)
    requires
        0 <= pos,
        0 <= len,
    ensures
        forall|i: int|
            0 <= i < len ==> #[trigger] differs_zero_fill(
                stretch(left, pos, len),
                stretch(right, pos, len),
                i,
            ) == differs_zero_fill(left, right, pos + i),
{
}

/// How many accesses a forward search still makes on its current window.
spec fn next_rank(step: Step<NextScanView, Option<u64>>) -> nat {
    match step {
        Step::Ask(scan) => match scan.phase {
            Phase::SeekLeft => 4,
            Phase::SeekRight => 3,
            Phase::ReadLeft => 2,
            Phase::ReadRight => 1,
        },
        Step::Done(_) => 0,
    }
}

/// How much of the longer file, `total` bytes long, lies at or past a
/// forward search's position.
spec fn next_left(step: Step<NextScanView, Option<u64>>, total: int) -> nat {
    match step {
        Step::Ask(scan) => if scan.pos < total {
            (total - scan.pos) as nat
        } else {
            0
        },
        Step::Done(_) => 0,
    }
}

/// What ties a forward search to the two files it runs on: nothing differs
/// between its start and its position, the cursors stand where the pending
/// access needs them, and when it has ended it holds the nearest difference.
spec fn next_linked(
    step: Step<NextScanView, Option<u64>>,
    left: Seq<u8>,
    right: Seq<u8>,
    left_cursor: int,
    right_cursor: int,
    from: int,
) -> bool {
    match step {
        Step::Done(Ok(found)) => found == next_diff_of(left, right, from),
        Step::Done(Err(_)) => false,
        Step::Ask(scan) => {
            &&& scan.wf()
            &&& scan.start == from
            &&& forall|i: int| from <= i < scan.pos ==> !#[trigger] differs_zero_fill(left, right, i)
            &&& match scan.phase {
                Phase::SeekLeft => true,
                Phase::SeekRight => left_cursor == scan.pos,
                Phase::ReadLeft => aligned(left, left_cursor, scan.pos as int) && aligned(
                    right,
                    right_cursor,
                    scan.pos as int,
                ),
                Phase::ReadRight => {
                    &&& scan.held == stretch(left, scan.pos as int, WINDOW as int)
                    &&& aligned(left, left_cursor - scan.held.len(), scan.pos as int)
                    &&& aligned(right, right_cursor, scan.pos as int)
                },
            }
        },
    }
}

/// What `next_diff_of` holds: the offset it gives differs and none from
/// `from` up to it does; it gives none exactly when nothing differs from
/// `from` on.
pub proof fn lemma_next_diff_of_exact(left: Seq<u8>, right: Seq<u8>, from: int)
    requires
        0 <= from,
        left.len() <= u64::MAX,
        right.len() <= u64::MAX,
    ensures
        match next_diff_of(left, right, from) {
            Some(p) => from <= p && differs_zero_fill(left, right, p as int) && forall|i: int|
                from <= i < p ==> !#[trigger] differs_zero_fill(left, right, i),
            None => forall|i: int| from <= i ==> !#[trigger] differs_zero_fill(left, right, i),
        },
{
    lemma_first_zero_fill_diff_exact(
        left,
        right,
        from,
        longer(left.len() as int, right.len() as int),
    );
}

/// What `prev_diff_of` holds: the offset it gives differs and none above it
/// and below `from` does; it gives none exactly when nothing differs below
/// `from`.
pub proof fn lemma_prev_diff_of_exact(left: Seq<u8>, right: Seq<u8>, from: int)
    requires
        from <= u64::MAX,
    ensures
        match prev_diff_of(left, right, from) {
            Some(p) => p < from && differs_zero_fill(left, right, p as int) && forall|i: int|
                p < i < from ==> !#[trigger] differs_zero_fill(left, right, i),
            None => forall|i: int| i < from ==> !#[trigger] differs_zero_fill(left, right, i),
        },
{
    lemma_last_zero_fill_diff_exact(left, right, 0, from);
}

/// The nearest offset at or after `from` at which two files held in memory
/// differ under the zero-fill rule, the shorter file counting as filled up
/// with zeros to the end of the longer one; none if they agree from there to
/// the end of both.
pub fn next_diff(left: &[u8], right: &[u8], from: u64) -> (found: Option<u64>)
    ensures
        found == next_diff_of(left@, right@, from as int),
        match found {
            Some(p) => from <= p && differs_zero_fill(left@, right@, p as int) && forall|i: int|
                from <= i < p ==> !#[trigger] differs_zero_fill(left@, right@, i),
            None => forall|i: int| from <= i ==> !#[trigger] differs_zero_fill(left@, right@, i),
        },
{
    let mut left_file = MemoryFile::new(left);
    let mut right_file = MemoryFile::new(right);
    let mut step = NextScan::begin(from);
    let ghost total = longer(left@.len() as int, right@.len() as int);
    assert(left@.len() == left.len() && right@.len() == right.len());
    loop
        invariant
            total == longer(left@.len() as int, right@.len() as int),
            total <= usize::MAX,
            left_file.bytes@ == left@,
            right_file.bytes@ == right@,
            next_linked(
                step@,
                left@,
                right@,
                left_file.cursor as int,
                right_file.cursor as int,
                from as int,
            ),
        decreases next_left(step@, total), next_rank(step@),
    {
        match step {
            Step::Done(Ok(found)) => {
                proof {
                    lemma_next_diff_of_exact(left@, right@, from as int);
                }
                return found;
            },
            Step::Done(Err(_)) => {
                return unreached();
            },
            Step::Ask(scan) => {
                let request = scan.request();
                let ghost before = scan@;
                let ghost left_cursor = left_file.cursor as int;
                let ghost right_cursor = right_file.cursor as int;
                let reply = match request.operand {
                    Operand::Right => right_file.serve(request.action),
                    _ => left_file.serve(request.action),
                };
                proof {
                    let pos = before.pos as int;
                    let width = WINDOW as int;
                    if before.phase is ReadLeft {
                        lemma_aligned_read(left@, left_cursor, pos, width);
                    }
                    if before.phase is ReadRight {
                        let lw = stretch(left@, pos, width);
                        let rw = stretch(right@, pos, width);
                        let reach = longer(lw.len() as int, rw.len() as int);
                        lemma_aligned_read(left@, left_cursor - lw.len(), pos, width);
                        lemma_aligned_read(right@, right_cursor, pos, width);
                        lemma_window_zero_fill(left@, right@, pos, width);
                        lemma_first_zero_fill_diff_exact(lw, rw, 0, reach);
                        match first_zero_fill_diff(lw, rw, 0, reach) {
                            Some(i) => {
                                assert(differs_zero_fill(left@, right@, pos + i));
                                assert forall|j: int| from <= j < pos + i implies !differs_zero_fill(
                                    left@,
                                    right@,
                                    j,
                                ) by {
                                    if j >= pos {
                                        assert(!differs_zero_fill(lw, rw, j - pos));
                                    }
                                }
                                lemma_first_zero_fill_diff_found(
                                    left@,
                                    right@,
                                    from as int,
                                    total,
                                    Some(pos + i),
                                );
                            },
                            None => {
                                assert forall|j: int| from <= j < pos + reach implies !differs_zero_fill(
                                    left@,
                                    right@,
                                    j,
                                ) by {
                                    if j >= pos {
                                        assert(!differs_zero_fill(lw, rw, j - pos));
                                    }
                                }
                                if reach == 0 {
                                    lemma_first_zero_fill_diff_found(
                                        left@,
                                        right@,
                                        from as int,
                                        total,
                                        None,
                                    );
                                }
                            },
                        }
                    }
                }
                step = scan.advance(reply);
            },
        }
    }
}

/// How many accesses a backward search still makes on its current window.
spec fn prev_rank(step: Step<PrevScanView, Option<u64>>) -> nat {
    match step {
        Step::Ask(scan) => match scan.phase {
            Phase::SeekLeft => 4,
            Phase::ReadLeft => 3,
            Phase::SeekRight => 2,
            Phase::ReadRight => 1,
        },
        Step::Done(_) => 0,
    }
}

/// How many offsets a backward search has still to look at.
spec fn prev_left(step: Step<PrevScanView, Option<u64>>) -> nat {
    match step {
        Step::Ask(scan) => scan.end,
        Step::Done(_) => 0,
    }
}

/// What ties a backward search to the two files it runs on: nothing differs
/// between the current window's end and its start, the cursors stand where
/// the pending access needs them, and when it has ended it holds the nearest
/// difference.
spec fn prev_linked(
    step: Step<PrevScanView, Option<u64>>,
    left: Seq<u8>,
    right: Seq<u8>,
    left_cursor: int,
    right_cursor: int,
    from: int,
) -> bool {
    match step {
        Step::Done(Ok(found)) => found == prev_diff_of(left, right, from),
        Step::Done(Err(_)) => false,
        Step::Ask(scan) => {
            &&& scan.wf()
            &&& scan.start == from
            &&& forall|i: int| scan.end <= i < from ==> !#[trigger] differs_zero_fill(left, right, i)
            &&& match scan.phase {
                Phase::SeekLeft => true,
                Phase::ReadLeft => left_cursor == scan.window_start(),
                Phase::SeekRight => scan.held == stretch(
                    left,
                    scan.window_start() as int,
                    scan.window() as int,
                ),
                Phase::ReadRight => {
                    &&& scan.held == stretch(
                        left,
                        scan.window_start() as int,
                        scan.window() as int,
                    )
                    &&& right_cursor == scan.window_start()
                },
            }
        },
    }
}

/// The nearest offset before `from` at which two files held in memory differ
/// under the zero-fill rule; none if they agree everywhere below `from`, and
/// so always none for `from` zero.
pub fn prev_diff(left: &[u8], right: &[u8], from: u64) -> (found: Option<u64>)
    ensures
        found == prev_diff_of(left@, right@, from as int),
        from == 0 ==> found is None,
        match found {
            Some(p) => p < from && differs_zero_fill(left@, right@, p as int) && forall|i: int|
                p < i < from ==> !#[trigger] differs_zero_fill(left@, right@, i),
            None => forall|i: int| i < from ==> !#[trigger] differs_zero_fill(left@, right@, i),
        },
{
    let mut left_file = MemoryFile::new(left);
    let mut right_file = MemoryFile::new(right);
    let mut step = PrevScan::begin(from);
    loop
        invariant
            left_file.bytes@ == left@,
            right_file.bytes@ == right@,
            prev_linked(
                step@,
                left@,
                right@,
                left_file.cursor as int,
                right_file.cursor as int,
                from as int,
            ),
        decreases prev_left(step@), prev_rank(step@),
    {
        match step {
            Step::Done(Ok(found)) => {
                proof {
                    lemma_prev_diff_of_exact(left@, right@, from as int);
                }
                return found;
            },
            Step::Done(Err(_)) => {
                return unreached();
            },
            Step::Ask(scan) => {
                let request = scan.request();
                let ghost before = scan@;
                let reply = match request.operand {
                    Operand::Right => right_file.serve(request.action),
                    _ => left_file.serve(request.action),
                };
                proof {
                    let pos = before.window_start() as int;
                    let width = before.window() as int;
                    if before.phase is ReadRight {
                        let lw = stretch(left@, pos, width);
                        let rw = stretch(right@, pos, width);
                        let reach = longer(lw.len() as int, rw.len() as int);
                        lemma_window_zero_fill(left@, right@, pos, width);
                        lemma_last_zero_fill_diff_exact(lw, rw, 0, reach);
                        match last_zero_fill_diff(lw, rw, 0, reach) {
                            Some(i) => {
                                assert(differs_zero_fill(left@, right@, pos + i));
                                assert forall|j: int| pos + i < j < from implies !differs_zero_fill(
                                    left@,
                                    right@,
                                    j,
                                ) by {
                                    if j < pos + width {
                                        assert(differs_zero_fill(lw, rw, j - pos)
                                            == differs_zero_fill(left@, right@, j));
                                    }
                                }
                                lemma_last_zero_fill_diff_found(
                                    left@,
                                    right@,
                                    0,
                                    from as int,
                                    Some(pos + i),
                                );
                            },
                            None => {
                                assert forall|j: int| pos <= j < from implies !differs_zero_fill(
                                    left@,
                                    right@,
                                    j,
                                ) by {
                                    if j < pos + width {
                                        assert(differs_zero_fill(lw, rw, j - pos)
                                            == differs_zero_fill(left@, right@, j));
                                    }
                                }
                                if pos == 0 {
                                    lemma_last_zero_fill_diff_found(
                                        left@,
                                        right@,
                                        0,
                                        from as int,
                                        None,
                                    );
                                }
                            },
                        }
                    }
                }
                step = scan.advance(reply);
            },
        }
    }
}

/// Where one file has ended and the other goes on with a zero byte, the two
/// kinds of scan give different answers, and are meant to: the scan of a
/// range that holds the offset lists it, and the forward search that starts
/// at it passes it by.
pub proof fn lemma_scans_part_at_extra_zero(
    left: Seq<u8>,
    right: Seq<u8>,
    lo: int,
    hi: int,
    p: int,
)
    requires
        0 <= lo <= p < hi <= u64::MAX + 1,
        left.len() <= u64::MAX,
        right.len() <= u64::MAX,
        (left.len() <= p < right.len() && right[p] == 0) || (right.len() <= p < left.len()
            && left[p] == 0),
    ensures
        extra_diffs(left, right, 0, lo, hi).contains(p as u64),
        next_diff_of(left, right, p) != Some(p as u64),
{
    lemma_range_found(left, right, lo, hi);
    lemma_next_diff_of_exact(left, right, p);
    let q = p as u64;
    assert(differs_extra(left, right, q as int));
    assert(extra_diffs(left, right, 0, lo, hi).contains(q));
}

} // verus!
