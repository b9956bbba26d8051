//! What passes between an operation and whoever holds the files: the
//! operation names one seek or read at a time, and is told what came of it.

use crate::error::{Error, Operand};
use vstd::prelude::*;

verus! {

/// One access to an open file.
#[derive(Debug, Clone, Copy, PartialEq, Eq)]
pub enum Action {
    /// Move the file's cursor to this offset from its start.
    Seek(u64),
    /// Read up to this many bytes at the cursor, and move it past them.
    Read(usize),
}

/// An access, and the file it is to be made on.
#[derive(Debug, Clone, Copy, PartialEq, Eq)]
pub struct Request {
    pub operand: Operand,
    pub action: Action,
}

/// What came of a request.
#[derive(Debug, PartialEq, Eq)]
pub enum Reply {
    /// The file has no live handle, so nothing was attempted.
    Missing,
    /// The cursor was moved.
    Sought,
    /// The bytes that a read obtained; fewer than asked for, or none, at the
    /// end of the file.
    Bytes(Vec<u8>),
    /// The system refused the access, for this reason.
    Failed(String),
}

/// Where an operation stands after a reply: it asks for the next access, or
/// it has ended.
#[derive(Debug)]
pub enum Step<S, T> {
    /// The operation goes on from this state, whose request is to be served
    /// next.
    Ask(S),
    /// The operation has ended with this result.
    Done(Result<T, Error>),
}

impl<S: View, T: View> View for Step<S, T> {
    type V = Step<S::V, T::V>;

    open spec fn view(&self) -> Step<S::V, T::V> {
        match *self {
            Step::Ask(state) => Step::Ask(state@),
            Step::Done(Ok(value)) => Step::Done(Ok(value@)),
            Step::Done(Err(error)) => Step::Done(Err(error)),
        }
    }
}

impl Request {
    /// Whether `reply` can be what came of this request: a seek moves the
    /// cursor and a read yields no more bytes than it asked for, and either
    /// may find the handle missing or fail.
    pub open spec fn admits(self, reply: Reply) -> bool {
        match reply {
            Reply::Missing => true,
            Reply::Failed(_) => true,
            Reply::Sought => self.action is Seek,
            Reply::Bytes(bytes) => match self.action {
                Action::Read(len) => bytes@.len() <= len,
                Action::Seek(_) => false,
            },
        }
    }

    /// Tests whether `reply` can be what came of this request.
    pub fn fits(&self, reply: &Reply) -> (ok: bool)
        ensures
            ok == self.admits(*reply),
    {
        match reply {
            Reply::Missing => true,
            Reply::Failed(_) => true,
            Reply::Sought => match self.action {
                Action::Seek(_) => true,
                Action::Read(_) => false,
            },
            Reply::Bytes(bytes) => match self.action {
                Action::Read(len) => bytes.len() <= len,
                Action::Seek(_) => false,
            },
        }
    }
}

/// Where a comparison of two files stands: which access it waits for.
#[derive(Debug, Clone, Copy, PartialEq, Eq)]
pub enum Phase {
    /// The left file's cursor is to be moved.
    SeekLeft,
    /// The right file's cursor is to be moved.
    SeekRight,
    /// The left file's window is to be read.
    ReadLeft,
    /// The right file's window is to be read; the left one is held.
    ReadRight,
}

impl Phase {
    /// The file that the pending access is made on.
    pub open spec fn operand(self) -> Operand {
        match self {
            Phase::SeekLeft => Operand::Left,
            Phase::ReadLeft => Operand::Left,
            Phase::SeekRight => Operand::Right,
            Phase::ReadRight => Operand::Right,
        }
    }

    /// The file that the pending access is made on.
    pub fn side(&self) -> (operand: Operand)
        ensures
            operand == self.operand(),
    {
        match self {
            Phase::SeekLeft => Operand::Left,
            Phase::ReadLeft => Operand::Left,
            Phase::SeekRight => Operand::Right,
            Phase::ReadRight => Operand::Right,
        }
    }
}

} // verus!
