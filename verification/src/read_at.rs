//! Reading one stretch of a file: a seek to its offset, then one read.

use crate::error::{Error, Operand};
use crate::protocol::{Action, Reply, Request, Step};
use vstd::prelude::*;

verus! {

/// A read of up to `length` bytes at `offset`, between its two accesses.
#[derive(Debug)]
pub struct ReadAt {
    offset: u64,
    length: usize,
    sought: bool,
}

/// What a `ReadAt` stands for.
pub struct ReadAtView {
    /// The offset of the first byte wanted.
    pub offset: u64,
    /// The most bytes wanted.
    pub length: usize,
    /// Whether the cursor has been moved to `offset` already.
    pub sought: bool,
}

impl View for ReadAt {
    type V = ReadAtView;

    closed spec fn view(&self) -> ReadAtView {
        ReadAtView { offset: self.offset, length: self.length, sought: self.sought }
    }
}

impl ReadAtView {
    /// The state in which a read of up to `length` bytes at `offset` starts.
    pub open spec fn initial(offset: u64, length: usize) -> ReadAtView {
        ReadAtView { offset, length, sought: false }
    }

    /// The access that the operation waits for.
    pub open spec fn request(self) -> Request {
        Request {
            operand: Operand::Only,
            action: if self.sought {
                Action::Read(self.length)
            } else {
                Action::Seek(self.offset)
            },
        }
    }

    /// Where the operation stands once `reply` has come in: a missing handle
    /// or a failure ends it with that error; a seek is followed by the read;
    /// the bytes of the read are the result, as many as were obtained.
    pub open spec fn after(self, reply: Reply) -> Step<ReadAtView, Seq<u8>> {
        match reply {
            Reply::Missing => Step::Done(Err(Error::NotOpen(Operand::Only))),
            Reply::Failed(reason) => Step::Done(Err(Error::Io(reason))),
            Reply::Sought => Step::Ask(ReadAtView { sought: true, ..self }),
            Reply::Bytes(bytes) => Step::Done(Ok(bytes@)),
        }
    }
}

impl ReadAt {
    /// Starts a read of up to `length` bytes at `offset`. Its first request
    /// is the seek.
    pub fn begin(offset: u64, length: usize) -> (read: ReadAt)
        ensures
            read@ == ReadAtView::initial(offset, length),
    {
        ReadAt { offset, length, sought: false }
    }

    /// The access that the operation waits for.
    pub fn request(&self) -> (request: Request)
        ensures
            request == self@.request(),
    {
        Request {
            operand: Operand::Only,
            action: if self.sought {
                Action::Read(self.length)
            } else {
                Action::Seek(self.offset)
            },
        }
    }

    /// Tests whether `reply` can be what came of the pending request.
    pub fn accepts(&self, reply: &Reply) -> (ok: bool)
        ensures
            ok == self@.request().admits(*reply),
    {
        self.request().fits(reply)
    }

    /// Takes what came of the pending request and says how the operation
    /// goes on.
    pub fn advance(self, reply: Reply) -> (step: Step<ReadAt, Vec<u8>>)
        requires
            self@.request().admits(reply),
        ensures
            step@ == self@.after(reply),
    {
        match reply {
            Reply::Missing => Step::Done(Err(Error::NotOpen(Operand::Only))),
            Reply::Failed(reason) => Step::Done(Err(Error::Io(reason))),
            Reply::Sought => Step::Ask(
                ReadAt { offset: self.offset, length: self.length, sought: true },
            ),
            Reply::Bytes(bytes) => Step::Done(Ok(bytes)),
        }
    }
}

} // verus!
