//! All differences within a range of offsets, under the extra-is-difference
//! rule: both cursors are moved to the start of the range once, and the
//! range is then read window by window from both files.

use crate::error::Error;
use crate::policy::{
    append_extra_diffs, extra_diffs, lemma_extra_diffs_exact, longer, shorter, window_len, WINDOW,
};
use crate::protocol::{Action, Phase, Reply, Request, Step};
use vstd::prelude::*;

verus! {

/// Whether `offsets` ascends strictly and lies within `lo <= p < hi`.
pub open spec fn ascending_within(offsets: Seq<u64>, lo: int, hi: int) -> bool {
    &&& forall|k: int| 0 <= k < offsets.len() ==> lo <= #[trigger] offsets[k] < hi
    &&& forall|j: int, k: int| 0 <= j < k < offsets.len() ==> offsets[j] < offsets[k]
}

/// A scan of a range of offsets, between two of its accesses.
#[derive(Debug)]
pub struct RangeScan {
    start: u64,
    pos: u64,
    length: usize,
    phase: Phase,
    held: Vec<u8>,
    found: Vec<u64>,
}

/// What a `RangeScan` stands for.
pub struct RangeScanView {
    /// The first offset of the range.
    pub start: nat,
    /// The offset at which the next window starts.
    pub pos: nat,
    /// The offset just past the range.
    pub end: nat,
    /// The access that the scan waits for.
    pub phase: Phase,
    /// The left file's bytes of the current window, while the right file's
    /// are awaited.
    pub held: Seq<u8>,
    /// The differing offsets found below `pos`.
    pub found: Seq<u64>,
}

impl View for RangeScan {
    type V = RangeScanView;

    closed spec fn view(&self) -> RangeScanView {
        RangeScanView {
            start: self.start as nat,
            pos: self.pos as nat,
            end: (self.start + self.length) as nat,
            phase: self.phase,
            held: self.held@,
            found: self.found@,
        }
    }
}

impl RangeScanView {
    /// The state in which a scan of `length` offsets from `offset` starts.
    pub open spec fn initial(offset: nat, length: nat) -> RangeScanView {
        RangeScanView {
            start: offset,
            pos: offset,
            end: offset + length,
            phase: Phase::SeekLeft,
            held: Seq::empty(),
            found: Seq::empty(),
        }
    }

    /// The width of the next window: what is left of the range, and one
    /// full window at most.
    pub open spec fn window(self) -> nat {
        shorter(self.end - self.pos, WINDOW as int) as nat
    }

    /// What every state of a scan keeps: the position lies within the range,
    /// a read is only awaited while some of the range is left and the range
    /// ends at an offset that a `u64` can hold, the held bytes fit the
    /// window, and the offsets found so far ascend and lie in the part of the
    /// range that was read.
    pub open spec fn wf(self) -> bool {
        &&& self.start <= self.pos <= self.end
        &&& self.pos <= u64::MAX
        &&& ascending_within(self.found, self.start as int, self.pos as int)
        &&& match self.phase {
            Phase::SeekLeft => self.pos == self.start && self.held == Seq::<u8>::empty(),
            Phase::SeekRight => self.pos == self.start && self.held == Seq::<u8>::empty(),
            Phase::ReadLeft => self.pos < self.end <= u64::MAX && self.held == Seq::<u8>::empty(),
            Phase::ReadRight => self.pos < self.end <= u64::MAX && self.held.len()
                <= self.window(),
        }
    }

    /// The access that the scan waits for: each cursor is moved to the start
    /// of the range, and each read asks for one window.
    pub open spec fn request(self) -> Request {
        Request {
            operand: self.phase.operand(),
            action: match self.phase {
                Phase::SeekLeft => Action::Seek(self.pos as u64),
                Phase::SeekRight => Action::Seek(self.pos as u64),
                Phase::ReadLeft => Action::Read(self.window() as usize),
                Phase::ReadRight => Action::Read(self.window() as usize),
            },
        }
    }

    /// Whether `reply` can be taken: it can be what came of the pending
    /// request, and once both cursors are in place the range must end at an
    /// offset that a `u64` can hold.
    pub open spec fn accepts(self, reply: Reply) -> bool {
        &&& self.request().admits(reply)
        &&& self.phase is SeekRight && reply is Sought ==> self.end <= u64::MAX
    }

    /// How the scan goes on at a window's start: with the left file's read
    /// while some of the range is left, and with the offsets found otherwise.
    pub open spec fn resume(self) -> Step<RangeScanView, Seq<u64>> {
        if self.pos < self.end {
            Step::Ask(RangeScanView { phase: Phase::ReadLeft, ..self })
        } else {
            Step::Done(Ok(self.found))
        }
    }

    /// The state once both halves of the current window are in: the window's
    /// differing offsets are appended, and the position moves on by the
    /// width that was asked for, however many bytes came.
    pub open spec fn absorb(self, right: Seq<u8>) -> RangeScanView {
        RangeScanView {
            pos: self.pos + self.window(),
            phase: Phase::ReadLeft,
            held: Seq::empty(),
            found: self.found + extra_diffs(
                self.held,
                right,
                self.pos as int,
                0,
                longer(self.held.len() as int, right.len() as int),
            ),
            ..self
        }
    }

    /// Where the scan stands once `reply` has come in. A missing handle or a
    /// failure ends it with that error. The left seek is followed by the
    /// right one, and the right one by the first window. The left window is
    /// held until the right one comes; then the two are compared, and the
    /// scan ends if both were empty and goes on to the next window otherwise.
    pub open spec fn after(self, reply: Reply) -> Step<RangeScanView, Seq<u64>> {
        match reply {
            Reply::Missing => Step::Done(Err(Error::NotOpen(self.phase.operand()))),
            Reply::Failed(reason) => Step::Done(Err(Error::Io(reason))),
            Reply::Sought => if self.phase is SeekLeft {
                Step::Ask(RangeScanView { phase: Phase::SeekRight, ..self })
            } else {
                self.resume()
            },
            Reply::Bytes(bytes) => if self.phase is ReadLeft {
                Step::Ask(RangeScanView { phase: Phase::ReadRight, held: bytes@, ..self })
            } else if self.held.len() == 0 && bytes@.len() == 0 {
                Step::Done(Ok(self.absorb(bytes@).found))
            } else {
                self.absorb(bytes@).resume()
            },
        }
    }

    /// Whatever the replies are, a scan stays well formed, and the offsets
    /// it ends with ascend strictly and lie within the range.
    pub proof fn lemma_after_keeps_wf(self, reply: Reply)
        requires
            self.wf(),
            self.accepts(reply),
        ensures
            match self.after(reply) {
                Step::Ask(next) => next.wf() && next.start == self.start && next.end == self.end,
                Step::Done(Ok(found)) => ascending_within(
                    found,
                    self.start as int,
                    self.end as int,
                ),
                Step::Done(Err(_)) => true,
            },
    {
        if let Reply::Bytes(bytes) = reply {
            if self.phase is ReadRight {
                let width = longer(self.held.len() as int, bytes@.len() as int);
                lemma_extra_diffs_exact(self.held, bytes@, self.pos as int, 0, width);
                let fresh = extra_diffs(self.held, bytes@, self.pos as int, 0, width);
                let all = self.found + fresh;
                assert(all == self.absorb(bytes@).found);
                assert forall|k: int| 0 <= k < all.len() implies self.start <= #[trigger] all[k]
                    < self.pos + self.window() by {
                    if k >= self.found.len() {
                        assert(all[k] == fresh[k - self.found.len()]);
                    }
                }
                assert forall|j: int, k: int| 0 <= j < k < all.len() implies all[j] < all[k] by {
                    if k >= self.found.len() {
                        assert(all[k] == fresh[k - self.found.len()]);
                        if j >= self.found.len() {
                            assert(all[j] == fresh[j - self.found.len()]);
                        }
                    }
                }
            }
        }
    }
}

impl RangeScan {
    #[verifier::type_invariant]
    spec fn well_formed(&self) -> bool {
        self@.wf()
    }

    /// Starts a scan of the `length` offsets from `offset`. Its first request
    /// is the left file's seek.
    pub fn begin(offset: u64, length: usize) -> (step: Step<RangeScan, Vec<u64>>)
        ensures
            step@ == Step::<RangeScanView, Seq<u64>>::Ask(
                RangeScanView::initial(offset as nat, length as nat),
            ),
            RangeScanView::initial(offset as nat, length as nat).wf(),
    {
        Step::Ask(
            RangeScan {
                start: offset,
                pos: offset,
                length,
                phase: Phase::SeekLeft,
                held: Vec::new(),
                found: Vec::new(),
            },
        )
    }

    fn window(&self) -> (len: usize)
        requires
            self@.end <= u64::MAX,
        ensures
            len == self@.window(),
    {
        proof {
            use_type_invariant(self);
        }
        window_len(self.start + self.length as u64 - self.pos)
    }

    /// The access that the scan waits for.
    pub fn request(&self) -> (request: Request)
        ensures
            request == self@.request(),
            self@.wf(),
    {
        proof {
            use_type_invariant(self);
        }
        Request {
            operand: self.phase.side(),
            action: match self.phase {
                Phase::SeekLeft => Action::Seek(self.pos),
                Phase::SeekRight => Action::Seek(self.pos),
                Phase::ReadLeft => Action::Read(self.window()),
                Phase::ReadRight => Action::Read(self.window()),
            },
        }
    }

    /// Tests whether `reply` can be taken.
    pub fn accepts(&self, reply: &Reply) -> (ok: bool)
        ensures
            ok == self@.accepts(*reply),
    {
        proof {
            use_type_invariant(self);
        }
        self.request().fits(reply) && match (self.phase, reply) {
            (Phase::SeekRight, Reply::Sought) => self.length as u64 <= u64::MAX - self.start,
            _ => true,
        }
    }

    fn resume(start: u64, pos: u64, length: usize, found: Vec<u64>) -> (step: Step<
        RangeScan,
        Vec<u64>,
    >)
        requires
            start <= pos <= start + length <= u64::MAX,
            ascending_within(found@, start as int, pos as int),
        ensures
            step@ == (RangeScanView {
                start: start as nat,
                pos: pos as nat,
                end: (start + length) as nat,
                phase: Phase::ReadLeft,
                held: Seq::empty(),
                found: found@,
            }).resume(),
    {
        if pos < start + length as u64 {
            Step::Ask(
                RangeScan { start, pos, length, phase: Phase::ReadLeft, held: Vec::new(), found },
            )
        } else {
            Step::Done(Ok(found))
        }
    }

    /// Takes what came of the pending request and says how the scan goes on.
    pub fn advance(self, reply: Reply) -> (step: Step<RangeScan, Vec<u64>>)
        requires
            self@.accepts(reply),
        ensures
            step@ == self@.after(reply),
            match step {
                Step::Ask(next) => next@.wf(),
                Step::Done(Ok(found)) => ascending_within(
                    found@,
                    self@.start as int,
                    self@.end as int,
                ),
                Step::Done(Err(_)) => true,
            },
    {
        proof {
            use_type_invariant(&self);
            self@.lemma_after_keeps_wf(reply);
        }
        match reply {
            Reply::Missing => Step::Done(Err(Error::NotOpen(self.phase.side()))),
            Reply::Failed(reason) => Step::Done(Err(Error::Io(reason))),
            Reply::Sought => match self.phase {
                Phase::SeekLeft => Step::Ask(RangeScan { phase: Phase::SeekRight, ..self }),
                _ => RangeScan::resume(self.start, self.pos, self.length, self.found),
            },
            Reply::Bytes(bytes) => match self.phase {
                Phase::ReadLeft => Step::Ask(
                    RangeScan { phase: Phase::ReadRight, held: bytes, ..self },
                ),
                _ => {
                    let width = self.window();
                    let RangeScan { start, pos, length, phase: _, held, mut found } = self;
                    append_extra_diffs(held.as_slice(), bytes.as_slice(), pos, &mut found);
                    if held.len() == 0 && bytes.len() == 0 {
                        Step::Done(Ok(found))
                    } else {
                        RangeScan::resume(start, pos + width as u64, length, found)
                    }
                },
            },
        }
    }
}

} // verus!
