//! The fatal errors of a run. No error is recovered from: each ends the run,
//! and the run's outcome is then a message that names the step that failed and
//! the path, class or method key on which it failed.

use vstd::prelude::*;
use vstd::string::*;

verus! {

/// The families of fatal errors.
#[derive(Clone, Copy, Debug, PartialEq, Eq, Hash)]
pub enum ErrorClass {
    /// The classpath does not exist, is inaccessible, or is neither a file nor
    /// a directory.
    Classpath,
    /// An archive or a class file on disk could not be opened or read.
    Discovery,
    /// Bytes that were read did not hold a valid class definition.
    Parse,
    /// The entry class or the entry method was not found once every class had
    /// been registered.
    Resolution,
    /// The execution engine failed, or what it returned was not an integer.
    Execution,
    /// The environment answered something that the driver had not asked for.
    Protocol,
}

/// What went wrong.
#[derive(Clone, Copy, Debug, PartialEq, Eq, Hash)]
pub enum FailureKind {
    /// The classpath could not be inspected.
    ClasspathUnavailable,
    /// The classpath is neither a regular file nor a directory.
    ClasspathUnsupported,
    /// An archive or a class file could not be opened or read.
    Unreadable,
    /// The parser refused the bytes of a class.
    Malformed,
    /// The repository holds no class of the entry class's name.
    EntryClassMissing,
    /// The entry class has no method under the entry method key.
    EntryMethodMissing,
    /// The execution engine reported a failure.
    EngineFailed,
    /// The execution engine returned a value that is not an integer.
    ResultNotInteger,
    /// The execution engine returned no value.
    NoResult,
    /// The environment answered something that the driver had not asked for.
    OutOfTurn,
}

impl FailureKind {
    /// The family that this kind of failure belongs to.
    pub open spec fn class_of(self) -> ErrorClass {
        match self {
            FailureKind::ClasspathUnavailable | FailureKind::ClasspathUnsupported => {
                ErrorClass::Classpath
            },
            FailureKind::Unreadable => ErrorClass::Discovery,
            FailureKind::Malformed => ErrorClass::Parse,
            FailureKind::EntryClassMissing | FailureKind::EntryMethodMissing => {
                ErrorClass::Resolution
            },
            FailureKind::EngineFailed | FailureKind::ResultNotInteger | FailureKind::NoResult => {
                ErrorClass::Execution
            },
            FailureKind::OutOfTurn => ErrorClass::Protocol,
        }
    }

    /// The family that this kind of failure belongs to.
    pub fn class(self) -> (class: ErrorClass)
        ensures
            class == self.class_of(),
    {
        match self {
            FailureKind::ClasspathUnavailable | FailureKind::ClasspathUnsupported => {
                ErrorClass::Classpath
            },
            FailureKind::Unreadable => ErrorClass::Discovery,
            FailureKind::Malformed => ErrorClass::Parse,
            FailureKind::EntryClassMissing | FailureKind::EntryMethodMissing => {
                ErrorClass::Resolution
            },
            FailureKind::EngineFailed | FailureKind::ResultNotInteger | FailureKind::NoResult => {
                ErrorClass::Execution
            },
            FailureKind::OutOfTurn => ErrorClass::Protocol,
        }
    }
}

/// A fatal error: its kind, the path, class name or method key that it is
/// about, and what the environment said of it, if anything.
#[derive(Clone, Debug, PartialEq, Eq)]
pub struct Failure {
    pub kind: FailureKind,
    pub subject: String,
    pub detail: String,
}

/// A [`Failure`] as a mathematical value.
pub struct FailureView {
    pub kind: FailureKind,
    pub subject: Seq<char>,
    pub detail: Seq<char>,
}

impl View for Failure {
    type V = FailureView;

    open spec fn view(&self) -> FailureView {
        FailureView { kind: self.kind, subject: self.subject@, detail: self.detail@ }
    }
}

/// The message that reports a failure.
pub open spec fn message_of(failure: FailureView) -> Seq<char> {
    match failure.kind {
        FailureKind::ClasspathUnavailable => "Can't determine if "@ + failure.subject
            + " is file or directory: "@ + failure.detail,
        FailureKind::ClasspathUnsupported => "Path "@ + failure.subject
            + " is neither file nor directory?!"@,
        FailureKind::Unreadable => "Problem reading "@ + failure.subject + ": "@ + failure.detail,
        FailureKind::Malformed => "Problem parsing "@ + failure.subject + ": "@ + failure.detail,
        FailureKind::EntryClassMissing => "Error: Main class not found "@ + failure.subject,
        FailureKind::EntryMethodMissing => "Error: Main method not found "@ + failure.subject,
        FailureKind::EngineFailed => "Error executing "@ + failure.subject + ": "@
            + failure.detail,
        FailureKind::ResultNotInteger => "Error executing "@ + failure.subject
            + " - non-int value returned"@,
        FailureKind::NoResult => "Error executing "@ + failure.subject
            + " - no value returned"@,
        FailureKind::OutOfTurn => "Error: unexpected answer from the environment"@,
    }
}

impl Failure {
    /// A failure of the given kind about `subject`.
    pub fn new(kind: FailureKind, subject: String, detail: String) -> (failure: Failure)
        ensures
            failure@ == (FailureView { kind, subject: subject@, detail: detail@ }),
    {
        Failure { kind, subject, detail }
    }

    /// A copy of this failure.
    pub fn duplicate(&self) -> (copy: Failure)
        ensures
            copy@ == self@,
    {
        Failure { kind: self.kind, subject: self.subject.clone(), detail: self.detail.clone() }
    }

    /// The message that reports this failure.
    pub fn message(&self) -> (text: String)
        ensures
            text@ == message_of(self@),
    {
        let subject = self.subject.as_str();
        let detail = self.detail.as_str();
        match self.kind {
            FailureKind::ClasspathUnavailable => "Can't determine if ".to_owned().concat(
                subject,
            ).concat(" is file or directory: ").concat(detail),
            FailureKind::ClasspathUnsupported => "Path ".to_owned().concat(subject).concat(
                " is neither file nor directory?!",
            ),
            FailureKind::Unreadable => "Problem reading ".to_owned().concat(subject).concat(
                ": ",
            ).concat(detail),
            FailureKind::Malformed => "Problem parsing ".to_owned().concat(subject).concat(
                ": ",
            ).concat(detail),
            FailureKind::EntryClassMissing => "Error: Main class not found ".to_owned().concat(
                subject,
            ),
            FailureKind::EntryMethodMissing => "Error: Main method not found ".to_owned().concat(
                subject,
            ),
            FailureKind::EngineFailed => "Error executing ".to_owned().concat(subject).concat(
                ": ",
            ).concat(detail),
            FailureKind::ResultNotInteger => "Error executing ".to_owned().concat(subject).concat(
                " - non-int value returned",
            ),
            FailureKind::NoResult => "Error executing ".to_owned().concat(subject).concat(
                " - no value returned",
            ),
            FailureKind::OutOfTurn => "Error: unexpected answer from the environment".to_owned(),
        }
    }
}

} // verus!
