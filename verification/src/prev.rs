//! The nearest difference before an offset, under the zero-fill rule: the
//! stretch below the offset is read window by window, from the top down,
//! and each window is searched from its end to its start.

use crate::error::Error;
use crate::policy::{find_last_zero_fill_diff, last_zero_fill_diff, longer, shorter, WINDOW};
use crate::protocol::{Action, Phase, Reply, Request, Step};
use vstd::prelude::*;

verus! {

/// A backward search, between two of its accesses.
#[derive(Debug)]
pub struct PrevScan {
    start: u64,
    end: u64,
    phase: Phase,
    held: Vec<u8>,
}

/// What a `PrevScan` stands for.
pub struct PrevScanView {
    /// The offset below which the search started.
    pub start: nat,
    /// The offset just past the current window; everything from here up to
    /// `start` has been searched.
    pub end: nat,
    /// The access that the search waits for.
    pub phase: Phase,
    /// The left file's bytes of the current window, while the right file's
    /// are awaited.
    pub held: Seq<u8>,
}

impl View for PrevScan {
    type V = PrevScanView;

    closed spec fn view(&self) -> PrevScanView {
        PrevScanView {
            start: self.start as nat,
            end: self.end as nat,
            phase: self.phase,
            held: self.held@,
        }
    }
}

impl PrevScanView {
    /// The state in which a search below `offset` starts.
    pub open spec fn initial(offset: nat) -> PrevScanView {
        PrevScanView { start: offset, end: offset, phase: Phase::SeekLeft, held: Seq::empty() }
    }

    /// The width of the current window: one full window, or what is left
    /// above offset zero.
    pub open spec fn window(self) -> nat {
        shorter(self.end as int, WINDOW as int) as nat
    }

    /// The first offset of the current window.
    pub open spec fn window_start(self) -> nat {
        (self.end - self.window()) as nat
    }

    /// What every state of a search keeps: the current window is not empty
    /// and lies below the start, and the held bytes fit it.
    pub open spec fn wf(self) -> bool {
        &&& 0 < self.end <= self.start <= u64::MAX
        &&& match self.phase {
            Phase::SeekLeft => self.held == Seq::<u8>::empty(),
            Phase::ReadLeft => self.held == Seq::<u8>::empty(),
            Phase::SeekRight => self.held.len() <= self.window(),
            Phase::ReadRight => self.held.len() <= self.window(),
        }
    }

    /// The access that the search waits for: each cursor is moved to the
    /// window's start, and each read asks for the window's width.
    pub open spec fn request(self) -> Request {
        Request {
            operand: self.phase.operand(),
            action: match self.phase {
                Phase::SeekLeft => Action::Seek(self.window_start() as u64),
                Phase::SeekRight => Action::Seek(self.window_start() as u64),
                Phase::ReadLeft => Action::Read(self.window() as usize),
                Phase::ReadRight => Action::Read(self.window() as usize),
            },
        }
    }

    /// Where the search stands once `reply` has come in. A missing handle or
    /// a failure ends it with that error. Each seek is followed by the read
    /// on the same file, and the left window is held while the right one is
    /// fetched. The two are then compared down from the end of the longer
    /// one, the shorter one filled up with zeros: the last differing position
    /// ends the search; without one it goes on with the window below, and
    /// ends with nothing once offset zero has been searched.
    pub open spec fn after(self, reply: Reply) -> Step<PrevScanView, Option<u64>> {
        match reply {
            Reply::Missing => Step::Done(Err(Error::NotOpen(self.phase.operand()))),
            Reply::Failed(reason) => Step::Done(Err(Error::Io(reason))),
            Reply::Sought => if self.phase is SeekLeft {
                Step::Ask(PrevScanView { phase: Phase::ReadLeft, ..self })
            } else {
                Step::Ask(PrevScanView { phase: Phase::ReadRight, ..self })
            },
            Reply::Bytes(bytes) => if self.phase is ReadLeft {
                Step::Ask(PrevScanView { phase: Phase::SeekRight, held: bytes@, ..self })
            } else {
                let width = longer(self.held.len() as int, bytes@.len() as int);
                match last_zero_fill_diff(self.held, bytes@, 0, width) {
                    Some(i) => Step::Done(Ok(Some((self.window_start() + i) as u64))),
                    None => if self.window_start() > 0 {
                        Step::Ask(
                            PrevScanView {
                                end: self.window_start(),
                                phase: Phase::SeekLeft,
                                held: Seq::empty(),
                                ..self
                            },
                        )
                    } else {
                        Step::Done(Ok(None))
                    },
                }
            },
        }
    }

    /// Whatever the replies are, a search stays well formed, and an offset
    /// it ends with lies before its start.
    pub proof fn lemma_after_keeps_wf(self, reply: Reply)
        requires
            self.wf(),
            self.request().admits(reply),
        ensures
            match self.after(reply) {
                Step::Ask(next) => next.wf() && next.start == self.start,
                Step::Done(Ok(Some(p))) => p < self.start,
                _ => true,
            },
    {
        if let Reply::Bytes(bytes) = reply {
            if self.phase is ReadRight {
                let width = longer(self.held.len() as int, bytes@.len() as int);
                crate::policy::lemma_last_zero_fill_diff_exact(self.held, bytes@, 0, width);
            }
        }
    }
}

impl PrevScan {
    #[verifier::type_invariant]
    spec fn well_formed(&self) -> bool {
        self@.wf()
    }

    /// Starts a search below `offset`. Below offset zero there is nothing to
    /// search, and the search ends at once with no difference, whatever the
    /// files hold and whether or not they are open. Otherwise its first
    /// request is the left file's seek to the topmost window.
    pub fn begin(offset: u64) -> (step: Step<PrevScan, Option<u64>>)
        ensures
            step@ == if offset == 0 {
                Step::<PrevScanView, Option<u64>>::Done(Ok(None))
            } else {
                Step::<PrevScanView, Option<u64>>::Ask(PrevScanView::initial(offset as nat))
            },
            offset != 0 ==> PrevScanView::initial(offset as nat).wf(),
    {
        if offset == 0 {
            Step::Done(Ok(None))
        } else {
            Step::Ask(
                PrevScan { start: offset, end: offset, phase: Phase::SeekLeft, held: Vec::new() },
            )
        }
    }

    fn window_start(&self) -> (at: u64)
        ensures
            at == self@.window_start(),
            self@.end - at == self@.window(),
    {
        if self.end > WINDOW as u64 {
            self.end - WINDOW as u64
        } else {
            0
        }
    }

    /// The access that the search waits for.
    pub fn request(&self) -> (request: Request)
        ensures
            request == self@.request(),
            self@.wf(),
    {
        proof {
            use_type_invariant(self);
        }
        let at = self.window_start();
        Request {
            operand: self.phase.side(),
            action: match self.phase {
                Phase::SeekLeft => Action::Seek(at),
                Phase::SeekRight => Action::Seek(at),
                Phase::ReadLeft => Action::Read((self.end - at) as usize),
                Phase::ReadRight => Action::Read((self.end - at) as usize),
            },
        }
    }

    /// Tests whether `reply` can be what came of the pending request.
    pub fn accepts(&self, reply: &Reply) -> (ok: bool)
        ensures
            ok == self@.request().admits(*reply),
    {
        self.request().fits(reply)
    }

    /// Takes what came of the pending request and says how the search goes
    /// on.
    pub fn advance(self, reply: Reply) -> (step: Step<PrevScan, Option<u64>>)
        requires
            self@.request().admits(reply),
        ensures
            step@ == self@.after(reply),
            match step {
                Step::Ask(next) => next@.wf(),
                Step::Done(Ok(Some(p))) => p < self@.start,
                _ => true,
            },
    {
        proof {
            use_type_invariant(&self);
            self@.lemma_after_keeps_wf(reply);
        }
        match reply {
            Reply::Missing => Step::Done(Err(Error::NotOpen(self.phase.side()))),
            Reply::Failed(reason) => Step::Done(Err(Error::Io(reason))),
            Reply::Sought => match self.phase {
                Phase::SeekLeft => Step::Ask(PrevScan { phase: Phase::ReadLeft, ..self }),
                _ => Step::Ask(PrevScan { phase: Phase::ReadRight, ..self }),
            },
            Reply::Bytes(bytes) => match self.phase {
                Phase::ReadLeft => Step::Ask(
                    PrevScan { phase: Phase::SeekRight, held: bytes, ..self },
                ),
                _ => {
                    let at = self.window_start();
                    proof {
                        crate::policy::lemma_last_zero_fill_diff_exact(
                            self.held@,
                            bytes@,
                            0,
                            longer(self.held@.len() as int, bytes@.len() as int),
                        );
                    }
                    match find_last_zero_fill_diff(self.held.as_slice(), bytes.as_slice()) {
                        Some(i) => Step::Done(Ok(Some(at + i as u64))),
                        None => if at > 0 {
                            Step::Ask(
                                PrevScan {
                                    start: self.start,
                                    end: at,
                                    phase: Phase::SeekLeft,
                                    held: Vec::new(),
                                },
                            )
                        } else {
                            Step::Done(Ok(None))
                        },
                    }
                },
            },
        }
    }
}

} // verus!
