//! The table of open files: one handle per path.

use crate::error::{Error, Operand};
use crate::read_at::{ReadAt, ReadAtView};
use vstd::hash_map::StringHashMap;
use vstd::prelude::*;

verus! {

/// What is known of a file once it is open.
#[derive(Debug, Clone, Copy, PartialEq, Eq)]
pub struct FileInfo {
    /// The file's length in bytes when it was opened. It is not kept up to
    /// date afterwards.
    pub size: u64,
}

/// A file that was opened for reading, and its length at that moment.
pub struct Opened<H> {
    pub handle: H,
    pub size: u64,
}

/// The open files, each under the path it was opened by. The registry owns
/// the handles: one that is replaced or closed is dropped, which releases
/// the file.
#[verifier::reject_recursive_types(H)]
pub struct HandleRegistry<H> {
    handles: StringHashMap<H>,
}

impl<H> View for HandleRegistry<H> {
    type V = Map<Seq<char>, H>;

    closed spec fn view(&self) -> Map<Seq<char>, H> {
        self.handles@
    }
}

/// How a read on `path` starts in a registry that holds `handles`: with the
/// path's handle, or not at all where it has none.
pub open spec fn read_start<H>(
    handles: Map<Seq<char>, H>,
    path: Seq<char>,
    offset: u64,
    length: usize,
) -> Result<(H, ReadAtView), Error> {
    if handles.contains_key(path) {
        Ok((handles[path], ReadAtView::initial(offset, length)))
    } else {
        Err(Error::NotOpen(Operand::Only))
    }
}

/// The path that a comparison's request is about.
pub open spec fn operand_path(left: Seq<char>, right: Seq<char>, operand: Operand) -> Seq<char> {
    if operand is Right {
        right
    } else {
        left
    }
}

/// A path that has been closed cannot be read: the read ends with `NotOpen`
/// before any access is made, whatever the registry held.
pub proof fn lemma_read_after_close_is_not_open<H>(
    handles: Map<Seq<char>, H>,
    path: Seq<char>,
    offset: u64,
    length: usize,
)
    ensures
        read_start(handles.remove(path), path, offset, length) == Err::<(H, ReadAtView), Error>(
            Error::NotOpen(Operand::Only),
        ),
{
}

impl<H> HandleRegistry<H> {
    /// A registry without any open file.
    pub fn new() -> (registry: Self)
        ensures
            registry@ == Map::<Seq<char>, H>::empty(),
    {
        HandleRegistry { handles: StringHashMap::new() }
    }

    /// Whether `path` has a live handle.
    pub open spec fn is_open(&self, path: Seq<char>) -> bool {
        self@.contains_key(path)
    }

    /// The number of open files.
    pub fn len(&self) -> (n: usize)
        ensures
            n == self@.len(),
    {
        self.handles.len()
    }

    /// Tests whether `path` has a live handle.
    pub fn contains(&self, path: &str) -> (open: bool)
        ensures
            open == self.is_open(path@),
    {
        self.handles.contains_key(path)
    }

    /// Records what came of an attempt to open `path`. A file that was
    /// opened takes the path's place in the registry, and a handle that the
    /// path had before is dropped. An attempt that failed is reported with
    /// the system's reason and leaves the registry as it was.
    pub fn open(&mut self, path: String, attempt: Result<Opened<H>, String>) -> (info: Result<
        FileInfo,
        Error,
    >)
        ensures
            match attempt {
                Ok(opened) => {
                    &&& info == Ok::<FileInfo, Error>(FileInfo { size: opened.size })
                    &&& final(self)@ == old(self)@.insert(path@, opened.handle)
                },
                Err(reason) => {
                    &&& info == Err::<FileInfo, Error>(Error::Io(reason))
                    &&& final(self)@ == old(self)@
                },
            },
    {
        match attempt {
            Ok(opened) => {
                self.handles.insert(path, opened.handle);
                Ok(FileInfo { size: opened.size })
            },
            Err(reason) => Err(Error::Io(reason)),
        }
    }

    /// The handle of `path`, if it has one.
    pub fn lookup<'a>(&'a self, path: &str) -> (handle: Option<&'a H>)
        ensures
            match handle {
                Some(h) => self.is_open(path@) && *h == self@[path@],
                None => !self.is_open(path@),
            },
    {
        self.handles.get(path)
    }

    /// The handle that a comparison's request is to be served on: that of
    /// the right path for the right operand, that of the left path otherwise.
    pub fn resolve<'a>(&'a self, left: &str, right: &str, operand: Operand) -> (handle: Option<
        &'a H,
    >)
        ensures
            match handle {
                Some(h) => self.is_open(operand_path(left@, right@, operand)) && *h
                    == self@[operand_path(left@, right@, operand)],
                None => !self.is_open(operand_path(left@, right@, operand)),
            },
    {
        match operand {
            Operand::Right => self.handles.get(right),
            _ => self.handles.get(left),
        }
    }

    /// Starts a read of up to `length` bytes at `offset` of the file open
    /// under `path`: gives its handle and the read to be run on it, or
    /// `NotOpen` where the path has no live handle.
    pub fn read_at<'a>(&'a self, path: &str, offset: u64, length: usize) -> (start: Result<
        (&'a H, ReadAt),
        Error,
    >)
        ensures
            match start {
                Ok((handle, read)) => read_start(self@, path@, offset, length) == Ok::<
                    (H, ReadAtView),
                    Error,
                >((*handle, read@)),
                Err(error) => read_start(self@, path@, offset, length) == Err::<
                    (H, ReadAtView),
                    Error,
                >(error),
            },
    {
        match self.handles.get(path) {
            Some(handle) => Ok((handle, ReadAt::begin(offset, length))),
            None => Err(Error::NotOpen(Operand::Only)),
        }
    }

    /// Closes `path`: its handle, if it has one, leaves the registry and is
    /// dropped. Closing a path that is not open changes nothing.
    pub fn close(&mut self, path: &str)
        ensures
            final(self)@ == old(self)@.remove(path@),
    {
        self.handles.remove(path);
    }
}

} // verus!
