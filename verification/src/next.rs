//! The nearest difference at or after an offset, under the zero-fill rule:
//! both cursors are moved to the offset once, and full windows are then read
//! from both files until they differ or both have ended.

use crate::error::Error;
use crate::policy::{find_first_zero_fill_diff, first_zero_fill_diff, longer, longer_of, WINDOW};
use crate::protocol::{Action, Phase, Reply, Request, Step};
use vstd::prelude::*;

verus! {

/// A forward search, between two of its accesses.
#[derive(Debug)]
pub struct NextScan {
    start: u64,
    pos: u64,
    phase: Phase,
    held: Vec<u8>,
}

/// What a `NextScan` stands for.
pub struct NextScanView {
    /// The offset from which the search started.
    pub start: nat,
    /// The offset at which the next window starts.
    pub pos: nat,
    /// The access that the search waits for.
    pub phase: Phase,
    /// The left file's bytes of the current window, while the right file's
    /// are awaited.
    pub held: Seq<u8>,
}

impl View for NextScan {
    type V = NextScanView;

    closed spec fn view(&self) -> NextScanView {
        NextScanView {
            start: self.start as nat,
            pos: self.pos as nat,
            phase: self.phase,
            held: self.held@,
        }
    }
}

impl NextScanView {
    /// The state in which a search from `offset` starts.
    pub open spec fn initial(offset: nat) -> NextScanView {
        NextScanView { start: offset, pos: offset, phase: Phase::SeekLeft, held: Seq::empty() }
    }

    /// What every state of a search keeps: the position has not fallen
    /// behind the start, and the held bytes fit one window and end at an
    /// offset that can be named.
    pub open spec fn wf(self) -> bool {
        &&& self.start <= self.pos <= u64::MAX
        &&& match self.phase {
            Phase::SeekLeft => self.pos == self.start && self.held == Seq::<u8>::empty(),
            Phase::SeekRight => self.pos == self.start && self.held == Seq::<u8>::empty(),
            Phase::ReadLeft => self.held == Seq::<u8>::empty(),
            Phase::ReadRight => self.held.len() <= WINDOW && self.pos + self.held.len()
                <= u64::MAX,
        }
    }

    /// The access that the search waits for: each cursor is moved to the
    /// start, and each read asks for one full window.
    pub open spec fn request(self) -> Request {
        Request {
            operand: self.phase.operand(),
            action: match self.phase {
                Phase::SeekLeft => Action::Seek(self.pos as u64),
                Phase::SeekRight => Action::Seek(self.pos as u64),
                Phase::ReadLeft => Action::Read(WINDOW),
                Phase::ReadRight => Action::Read(WINDOW),
            },
        }
    }

    /// Whether `reply` can be taken: it can be what came of the pending
    /// request, and bytes end at an offset that a `u64` can hold.
    pub open spec fn accepts(self, reply: Reply) -> bool {
        &&& self.request().admits(reply)
        &&& reply matches Reply::Bytes(bytes) ==> self.pos + bytes@.len() <= u64::MAX
    }

    /// Where the search stands once `reply` has come in. A missing handle or
    /// a failure ends it with that error. The left seek is followed by the
    /// right one, and the right one by the first window. The left window is
    /// held until the right one comes. If both are empty, both files have
    /// ended and nothing differs. Otherwise the two are compared up to the
    /// end of the longer one, the shorter one filled up with zeros: the first
    /// differing position ends the search, and without one it goes on behind
    /// the longer window.
    pub open spec fn after(self, reply: Reply) -> Step<NextScanView, Option<u64>> {
        match reply {
            Reply::Missing => Step::Done(Err(Error::NotOpen(self.phase.operand()))),
            Reply::Failed(reason) => Step::Done(Err(Error::Io(reason))),
            Reply::Sought => if self.phase is SeekLeft {
                Step::Ask(NextScanView { phase: Phase::SeekRight, ..self })
            } else {
                Step::Ask(NextScanView { phase: Phase::ReadLeft, ..self })
            },
            Reply::Bytes(bytes) => if self.phase is ReadLeft {
                Step::Ask(NextScanView { phase: Phase::ReadRight, held: bytes@, ..self })
            } else if self.held.len() == 0 && bytes@.len() == 0 {
                Step::Done(Ok(None))
            } else {
                let width = longer(self.held.len() as int, bytes@.len() as int);
                match first_zero_fill_diff(self.held, bytes@, 0, width) {
                    Some(i) => Step::Done(Ok(Some((self.pos + i) as u64))),
                    None => Step::Ask(
                        NextScanView {
                            pos: (self.pos + width) as nat,
                            phase: Phase::ReadLeft,
                            held: Seq::empty(),
                            ..self
                        },
                    ),
                }
            },
        }
    }

    /// Whatever the replies are, a search stays well formed, and an offset
    /// it ends with does not lie before its start.
    pub proof fn lemma_after_keeps_wf(self, reply: Reply)
        requires
            self.wf(),
            self.accepts(reply),
        ensures
            match self.after(reply) {
                Step::Ask(next) => next.wf() && next.start == self.start,
                Step::Done(Ok(Some(p))) => self.start <= p,
                _ => true,
            },
    {
        if let Reply::Bytes(bytes) = reply {
            if self.phase is ReadRight {
                let width = longer(self.held.len() as int, bytes@.len() as int);
                crate::policy::lemma_first_zero_fill_diff_exact(self.held, bytes@, 0, width);
            }
        }
    }
}

impl NextScan {
    #[verifier::type_invariant]
    spec fn well_formed(&self) -> bool {
        self@.wf()
    }

    /// Starts a search from `offset`. Its first request is the left file's
    /// seek.
    pub fn begin(offset: u64) -> (step: Step<NextScan, Option<u64>>)
        ensures
            step@ == Step::<NextScanView, Option<u64>>::Ask(NextScanView::initial(offset as nat)),
            NextScanView::initial(offset as nat).wf(),
    {
        Step::Ask(NextScan { start: offset, pos: offset, phase: Phase::SeekLeft, held: Vec::new() })
    }

    /// The access that the search waits for.
    pub fn request(&self) -> (request: Request)
        ensures
            request == self@.request(),
            self@.wf(),
    {
        proof {
            use_type_invariant(self);
        }
        Request {
            operand: self.phase.side(),
            action: match self.phase {
                Phase::SeekLeft => Action::Seek(self.pos),
                Phase::SeekRight => Action::Seek(self.pos),
                Phase::ReadLeft => Action::Read(WINDOW),
                Phase::ReadRight => Action::Read(WINDOW),
            },
        }
    }

    /// Tests whether `reply` can be taken.
    pub fn accepts(&self, reply: &Reply) -> (ok: bool)
        ensures
            ok == self@.accepts(*reply),
    {
        proof {
            use_type_invariant(self);
        }
        self.request().fits(reply) && match reply {
            Reply::Bytes(bytes) => bytes.len() as u64 <= u64::MAX - self.pos,
            _ => true,
        }
    }

    /// Takes what came of the pending request and says how the search goes
    /// on.
    pub fn advance(self, reply: Reply) -> (step: Step<NextScan, Option<u64>>)
        requires
            self@.accepts(reply),
        ensures
            step@ == self@.after(reply),
            match step {
                Step::Ask(next) => next@.wf(),
                Step::Done(Ok(Some(p))) => self@.start <= p,
                _ => true,
            },
    {
        proof {
            use_type_invariant(&self);
            self@.lemma_after_keeps_wf(reply);
        }
        match reply {
            Reply::Missing => Step::Done(Err(Error::NotOpen(self.phase.side()))),
            Reply::Failed(reason) => Step::Done(Err(Error::Io(reason))),
            Reply::Sought => match self.phase {
                Phase::SeekLeft => Step::Ask(NextScan { phase: Phase::SeekRight, ..self }),
                _ => Step::Ask(NextScan { phase: Phase::ReadLeft, ..self }),
            },
            Reply::Bytes(bytes) => match self.phase {
                Phase::ReadLeft => Step::Ask(
                    NextScan { phase: Phase::ReadRight, held: bytes, ..self },
                ),
                _ => {
                    if self.held.len() == 0 && bytes.len() == 0 {
                        return Step::Done(Ok(None));
                    }
                    proof {
                        crate::policy::lemma_first_zero_fill_diff_exact(
                            self.held@,
                            bytes@,
                            0,
                            longer(self.held@.len() as int, bytes@.len() as int),
                        );
                    }
                    match find_first_zero_fill_diff(self.held.as_slice(), bytes.as_slice()) {
                        Some(i) => Step::Done(Ok(Some(self.pos + i as u64))),
                        None => {
                            let width = longer_of(self.held.len(), bytes.len());
                            Step::Ask(
                                NextScan {
                                    start: self.start,
                                    pos: self.pos + width as u64,
                                    phase: Phase::ReadLeft,
                                    held: Vec::new(),
                                },
                            )
                        },
                    }
                },
            },
        }
    }
}

} // verus!
