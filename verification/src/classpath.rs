//! The classpath and what it denotes: nothing, an archive, or a directory
//! tree.

use crate::failure::{Failure, FailureKind, FailureView};
use vstd::prelude::*;

verus! {

/// What the file system says a path is.
#[derive(Clone, Copy, Debug, PartialEq, Eq, Hash)]
pub enum PathKind {
    /// A regular file.
    File,
    /// A directory.
    Directory,
    /// Anything else, such as a device.
    Other,
}

/// Where classes are looked for. It is determined once, before any class is
/// discovered, and decides which one of the three ways of discovery is used.
#[derive(Clone, Debug, PartialEq, Eq)]
pub enum ClasspathLocator {
    /// No classpath was given: the entry class is read from a file of its own.
    Absent,
    /// The classpath is an archive, whose class entries are registered.
    ArchiveFile(String),
    /// The classpath is a directory, whose tree is walked for class files.
    DirectoryTree(String),
}

/// A [`ClasspathLocator`] as a mathematical value.
pub enum LocatorView {
    Absent,
    ArchiveFile(Seq<char>),
    DirectoryTree(Seq<char>),
}

impl View for ClasspathLocator {
    type V = LocatorView;

    open spec fn view(&self) -> LocatorView {
        match self {
            ClasspathLocator::Absent => LocatorView::Absent,
            ClasspathLocator::ArchiveFile(path) => LocatorView::ArchiveFile(path@),
            ClasspathLocator::DirectoryTree(path) => LocatorView::DirectoryTree(path@),
        }
    }
}

/// What a classpath of the given kind denotes: a file is an archive, a
/// directory is a tree, and anything else is refused.
pub open spec fn classified(path: Seq<char>, kind: PathKind) -> Result<LocatorView, FailureView> {
    match kind {
        PathKind::File => Ok(LocatorView::ArchiveFile(path)),
        PathKind::Directory => Ok(LocatorView::DirectoryTree(path)),
        PathKind::Other => Err(
            FailureView {
                kind: FailureKind::ClasspathUnsupported,
                subject: path,
                detail: Seq::empty(),
            },
        ),
    }
}

/// The view of a classification's outcome.
pub open spec fn classification_view(outcome: Result<ClasspathLocator, Failure>) -> Result<
    LocatorView,
    FailureView,
> {
    match outcome {
        Ok(locator) => Ok(locator@),
        Err(failure) => Err(failure@),
    }
}

impl ClasspathLocator {
    /// Classifies the classpath `path`, which the file system reports to be of
    /// the given kind.
    pub fn classify(path: String, kind: PathKind) -> (outcome: Result<ClasspathLocator, Failure>)
        ensures
            classification_view(outcome) == classified(path@, kind),
    {
        match kind {
            PathKind::File => Ok(ClasspathLocator::ArchiveFile(path)),
            PathKind::Directory => Ok(ClasspathLocator::DirectoryTree(path)),
            PathKind::Other => Err(
                Failure::new(FailureKind::ClasspathUnsupported, path, String::new()),
            ),
        }
    }

    /// A copy of this locator.
    pub fn duplicate(&self) -> (copy: ClasspathLocator)
        ensures
            copy@ == self@,
    {
        match self {
            ClasspathLocator::Absent => ClasspathLocator::Absent,
            ClasspathLocator::ArchiveFile(path) => ClasspathLocator::ArchiveFile(path.clone()),
            ClasspathLocator::DirectoryTree(path) => ClasspathLocator::DirectoryTree(path.clone()),
        }
    }
}

} // verus!
