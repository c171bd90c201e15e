//! What the driver asks of its environment, and what the environment answers.
//! The driver does nothing outside itself: it hands out one [`Request`] at a
//! time, the environment carries it out, and hands back a [`Response`].

use crate::classpath::PathKind;
use crate::discovery::{ClassEntry, DiscoveredClass};
use crate::failure::{Failure, FailureView};
use vstd::prelude::*;

verus! {

/// The number of local-variable slots of the frame in which the entry method
/// runs. It is fixed, whatever the method's signature.
pub const INITIAL_FRAME_SLOTS: u8 = 5;

/// What the execution engine returned.
#[derive(Clone, Copy, Debug, PartialEq, Eq, Hash)]
pub enum EngineOutcome {
    /// An integer.
    Integer(i32),
    /// A value of another type.
    NonInteger,
    /// No value.
    Nothing,
}

/// What the driver asks of its environment.
#[derive(Clone, Debug, PartialEq, Eq)]
pub enum Request {
    /// Register the built-in classes in the repository.
    Bootstrap,
    /// Find out what `path` is: a file, a directory, or something else.
    Probe { path: String },
    /// Open the archive at `path` and hand over its first entry.
    OpenArchive { path: String },
    /// Start to walk the directory tree at `root`, keeping the entries that
    /// [`admits_entry`](crate::discovery::admits_entry) admits, and hand over
    /// the first of them.
    OpenTree { root: String },
    /// Hand over the next entry of the archive or tree that is open.
    NextEntry,
    /// Read the file at `path` whole.
    ReadFile { path: String },
    /// Parse `class` and add it to the repository.
    Register { class: DiscoveredClass },
    /// Look the class `name` up in the repository.
    LookupClass { name: String },
    /// Look the method `key` up in the class `class_name`.
    LookupMethod { class_name: String, key: String },
    /// Run the method `key` of the class `class_name` in a frame of `frame_slots`
    /// local-variable slots.
    Execute { class_name: String, key: String, frame_slots: u8 },
    /// The run has succeeded: report `value`.
    Report { value: i32 },
    /// The run has failed: report `failure`.
    Abort { failure: Failure },
}

/// A [`Request`] as a mathematical value.
pub enum RequestView {
    Bootstrap,
    Probe { path: Seq<char> },
    OpenArchive { path: Seq<char> },
    OpenTree { root: Seq<char> },
    NextEntry,
    ReadFile { path: Seq<char> },
    Register { class: ClassEntry },
    LookupClass { name: Seq<char> },
    LookupMethod { class_name: Seq<char>, key: Seq<char> },
    Execute { class_name: Seq<char>, key: Seq<char>, frame_slots: u8 },
    Report { value: i32 },
    Abort { failure: FailureView },
}

impl View for Request {
    type V = RequestView;

    open spec fn view(&self) -> RequestView {
        match self {
            Request::Bootstrap => RequestView::Bootstrap,
            Request::Probe { path } => RequestView::Probe { path: path@ },
            Request::OpenArchive { path } => RequestView::OpenArchive { path: path@ },
            Request::OpenTree { root } => RequestView::OpenTree { root: root@ },
            Request::NextEntry => RequestView::NextEntry,
            Request::ReadFile { path } => RequestView::ReadFile { path: path@ },
            Request::Register { class } => RequestView::Register { class: class@ },
            Request::LookupClass { name } => RequestView::LookupClass { name: name@ },
            Request::LookupMethod { class_name, key } => RequestView::LookupMethod {
                class_name: class_name@,
                key: key@,
            },
            Request::Execute { class_name, key, frame_slots } => RequestView::Execute {
                class_name: class_name@,
                key: key@,
                frame_slots: *frame_slots,
            },
            Request::Report { value } => RequestView::Report { value: *value },
            Request::Abort { failure } => RequestView::Abort { failure: failure@ },
        }
    }
}

impl Request {
    /// Whether this request ends the run.
    pub fn is_final(&self) -> (last: bool)
        ensures
            last == (self@ is Report || self@ is Abort),
    {
        match self {
            Request::Report { .. } => true,
            Request::Abort { .. } => true,
            _ => false,
        }
    }
}

/// What the environment answers.
#[derive(Clone, Debug, PartialEq, Eq)]
pub enum Response {
    /// An empty repository stands ready.
    Ready,
    /// The built-in classes are registered.
    Bootstrapped,
    /// The path that was probed is of this kind.
    Probed { kind: PathKind },
    /// The next entry of the archive, with its full name within the archive.
    Entry { name: String, bytes: Vec<u8> },
    /// The next entry of the directory tree: its base name, its path, and
    /// whether it is a directory.
    Node { name: String, path: String, is_dir: bool },
    /// The next entry could not be decoded or reached, and was passed over.
    Skipped,
    /// The archive or tree has no further entry.
    Exhausted,
    /// The content of the file that was read.
    Content { bytes: Vec<u8> },
    /// The class was parsed and added to the repository.
    Registered,
    /// What was looked up is there.
    Found,
    /// What was looked up is not there.
    Missing,
    /// The execution engine returned.
    Returned { outcome: EngineOutcome },
    /// What was asked for could not be done.
    Failed { reason: String },
}

/// A [`Response`] as a mathematical value.
pub enum ResponseView {
    Ready,
    Bootstrapped,
    Probed { kind: PathKind },
    Entry { name: Seq<char>, bytes: Seq<u8> },
    Node { name: Seq<char>, path: Seq<char>, is_dir: bool },
    Skipped,
    Exhausted,
    Content { bytes: Seq<u8> },
    Registered,
    Found,
    Missing,
    Returned { outcome: EngineOutcome },
    Failed { reason: Seq<char> },
}

impl View for Response {
    type V = ResponseView;

    open spec fn view(&self) -> ResponseView {
        match self {
            Response::Ready => ResponseView::Ready,
            Response::Bootstrapped => ResponseView::Bootstrapped,
            Response::Probed { kind } => ResponseView::Probed { kind: *kind },
            Response::Entry { name, bytes } => ResponseView::Entry { name: name@, bytes: bytes@ },
            Response::Node { name, path, is_dir } => ResponseView::Node {
                name: name@,
                path: path@,
                is_dir: *is_dir,
            },
            Response::Skipped => ResponseView::Skipped,
            Response::Exhausted => ResponseView::Exhausted,
            Response::Content { bytes } => ResponseView::Content { bytes: bytes@ },
            Response::Registered => ResponseView::Registered,
            Response::Found => ResponseView::Found,
            Response::Missing => ResponseView::Missing,
            Response::Returned { outcome } => ResponseView::Returned { outcome: *outcome },
            Response::Failed { reason } => ResponseView::Failed { reason: reason@ },
        }
    }
}

} // verus!
