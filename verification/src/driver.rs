//! The driver: a state machine that leads a run from an empty repository to
//! the entry method's result.
//!
//! A run passes through its stages in one order and never goes back: the
//! built-in classes are registered before any class is discovered, exactly one
//! of the three ways of discovery is used, the entry class and its entry
//! method are resolved once every discovered class is registered, and the
//! method is then executed. Whatever fails ends the run where it stands.

use crate::classpath::{classified, ClasspathLocator, LocatorView, PathKind};
use crate::discovery::{
    class_in_archive,
    class_name_in_tree,
    discover_in_archive,
    discover_in_tree,
    ClassEntry,
    DiscoveredClass,
};
use crate::failure::{Failure, FailureKind, FailureView};
use crate::names::{entry_key_of, entry_method_key, text_view};
use crate::protocol::{
    EngineOutcome,
    Request,
    RequestView,
    Response,
    ResponseView,
    INITIAL_FRAME_SLOTS,
};
use vstd::prelude::*;

verus! {

/// The stages of a run, in their order. A run is at the last stage that it
/// has completed.
#[derive(Clone, Copy, Debug, PartialEq, Eq, Hash)]
pub enum Stage {
    /// Nothing has been done yet.
    Uninitialized,
    /// The built-in classes are registered.
    Bootstrapped,
    /// Every class of the classpath is registered.
    Scanned,
    /// The entry class and its entry method are found.
    EntryResolved,
    /// The execution engine has returned a value.
    Executed,
    /// The value was an integer, and is the run's result.
    Reported,
}

impl Stage {
    /// The place of this stage in the order of stages.
    pub open spec fn rank(self) -> nat {
        match self {
            Stage::Uninitialized => 0,
            Stage::Bootstrapped => 1,
            Stage::Scanned => 2,
            Stage::EntryResolved => 3,
            Stage::Executed => 4,
            Stage::Reported => 5,
        }
    }
}

/// What the driver is waiting for.
#[derive(Debug)]
enum Phase {
    Idle,
    Bootstrapping,
    Probing,
    Scanning,
    Reading { name: String, path: String },
    Registering { name: String },
    ResolvingClass,
    ResolvingMethod,
    Executing,
    Done { value: i32 },
    Failed { failure: Failure, at: Stage },
}

/// What the driver is waiting for, as a mathematical value.
pub enum PhaseView {
    /// For an empty repository.
    Idle,
    /// For the built-in classes to be registered.
    Bootstrapping,
    /// For the kind of the classpath.
    Probing,
    /// For the next entry of the archive or tree.
    Scanning,
    /// For the content of the file at `path`, to be registered as `name`.
    Reading { name: Seq<char>, path: Seq<char> },
    /// For the class `name` to be parsed and registered.
    Registering { name: Seq<char> },
    /// For the entry class to be looked up.
    ResolvingClass,
    /// For the entry method to be looked up.
    ResolvingMethod,
    /// For the execution engine to return.
    Executing,
    /// For nothing: the run has succeeded with `value`.
    Done { value: i32 },
    /// For nothing: the run has failed with `failure`, having completed the
    /// stage `at`.
    Failed { failure: FailureView, at: Stage },
}

impl View for Phase {
    type V = PhaseView;

    closed spec fn view(&self) -> PhaseView {
        match self {
            Phase::Idle => PhaseView::Idle,
            Phase::Bootstrapping => PhaseView::Bootstrapping,
            Phase::Probing => PhaseView::Probing,
            Phase::Scanning => PhaseView::Scanning,
            Phase::Reading { name, path } => PhaseView::Reading { name: name@, path: path@ },
            Phase::Registering { name } => PhaseView::Registering { name: name@ },
            Phase::ResolvingClass => PhaseView::ResolvingClass,
            Phase::ResolvingMethod => PhaseView::ResolvingMethod,
            Phase::Executing => PhaseView::Executing,
            Phase::Done { value } => PhaseView::Done { value: *value },
            Phase::Failed { failure, at } => PhaseView::Failed { failure: failure@, at: *at },
        }
    }
}

/// The last stage that a run in the given phase has completed.
pub open spec fn stage_of(phase: PhaseView) -> Stage {
    match phase {
        PhaseView::Idle | PhaseView::Bootstrapping => Stage::Uninitialized,
        PhaseView::Probing
        | PhaseView::Scanning
        | PhaseView::Reading { .. }
        | PhaseView::Registering { .. } => Stage::Bootstrapped,
        PhaseView::ResolvingClass | PhaseView::ResolvingMethod => Stage::Scanned,
        PhaseView::Executing => Stage::EntryResolved,
        PhaseView::Done { .. } => Stage::Reported,
        PhaseView::Failed { at, .. } => at,
    }
}

/// The driver as a mathematical value: what it was started with, what its
/// classpath has turned out to be, and what it is waiting for.
pub struct DriverView {
    /// The classpath, if one was given.
    pub classpath: Option<Seq<char>>,
    /// The file that holds the entry class, for a run without a classpath.
    pub entry_path: Seq<char>,
    /// The name of the entry class.
    pub entry_class: Seq<char>,
    /// What the classpath denotes, once that is known.
    pub locator: Option<LocatorView>,
    /// What the driver is waiting for.
    pub phase: PhaseView,
}

/// The driver before anything has happened.
pub open spec fn initial(
    classpath: Option<Seq<char>>,
    entry_path: Seq<char>,
    entry_class: Seq<char>,
) -> DriverView {
    DriverView { classpath, entry_path, entry_class, locator: None, phase: PhaseView::Idle }
}

/// The driver goes on to `phase` and asks for `request`.
pub open spec fn moves(d: DriverView, phase: PhaseView, request: RequestView) -> (
    DriverView,
    RequestView,
) {
    (DriverView { phase, ..d }, request)
}

/// The driver settles what its classpath denotes, goes on to `phase` and asks
/// for `request`.
pub open spec fn settles(
    d: DriverView,
    locator: LocatorView,
    phase: PhaseView,
    request: RequestView,
) -> (DriverView, RequestView) {
    (DriverView { locator: Some(locator), phase, ..d }, request)
}

/// The run fails with `failure`, having completed the stage `at`.
pub open spec fn fails(d: DriverView, failure: FailureView, at: Stage) -> (
    DriverView,
    RequestView,
) {
    (DriverView { phase: PhaseView::Failed { failure, at }, ..d }, RequestView::Abort { failure })
}

/// The failure of a run whose environment answered out of turn.
pub open spec fn out_of_turn_failure() -> FailureView {
    FailureView { kind: FailureKind::OutOfTurn, subject: Seq::empty(), detail: Seq::empty() }
}

/// The run fails because the environment answered what was not asked for.
pub open spec fn out_of_turn(d: DriverView) -> (DriverView, RequestView) {
    fails(d, out_of_turn_failure(), stage_of(d.phase))
}

/// The driver sets out to discover classes in the one way that belongs to
/// what its classpath denotes: without a classpath it asks for the entry
/// class's own file, to register it under that file's name; with an archive
/// or a directory tree it asks for the first entry.
pub open spec fn discovers(d: DriverView, locator: LocatorView) -> (DriverView, RequestView) {
    match locator {
        LocatorView::Absent => settles(
            d,
            locator,
            PhaseView::Reading { name: d.entry_path, path: d.entry_path },
            RequestView::ReadFile { path: d.entry_path },
        ),
        LocatorView::ArchiveFile(path) => settles(
            d,
            locator,
            PhaseView::Scanning,
            RequestView::OpenArchive { path },
        ),
        LocatorView::DirectoryTree(root) => settles(
            d,
            locator,
            PhaseView::Scanning,
            RequestView::OpenTree { root },
        ),
    }
}

/// Once the built-in classes are registered, the driver asks what the
/// classpath is, if it has one.
pub open spec fn after_bootstrap(d: DriverView) -> (DriverView, RequestView) {
    match d.classpath {
        Some(path) => moves(d, PhaseView::Probing, RequestView::Probe { path }),
        None => discovers(d, LocatorView::Absent),
    }
}

/// Once the kind of the classpath is known, the driver takes the classpath
/// for an archive or for a directory tree, or fails if it is neither.
pub open spec fn after_probe(d: DriverView, path: Seq<char>, kind: PathKind) -> (
    DriverView,
    RequestView,
) {
    match classified(path, kind) {
        Ok(locator) => discovers(d, locator),
        Err(failure) => fails(d, failure, Stage::Bootstrapped),
    }
}

/// Once every class is registered, the driver looks for the entry class.
pub open spec fn resolves(d: DriverView) -> (DriverView, RequestView) {
    moves(d, PhaseView::ResolvingClass, RequestView::LookupClass { name: d.entry_class })
}

/// What the driver does with an answer while it scans the archive at `path`:
/// an entry named as a class is registered under its full name, any other is
/// passed over, and an entry that could not be decoded is dropped.
pub open spec fn next_in_archive(d: DriverView, path: Seq<char>, r: ResponseView) -> (
    DriverView,
    RequestView,
) {
    match r {
        ResponseView::Entry { name, bytes } => match class_in_archive(name, bytes) {
            Some(class) => moves(
                d,
                PhaseView::Registering { name: class.name },
                RequestView::Register { class },
            ),
            None => moves(d, PhaseView::Scanning, RequestView::NextEntry),
        },
        ResponseView::Skipped => moves(d, PhaseView::Scanning, RequestView::NextEntry),
        ResponseView::Exhausted => resolves(d),
        ResponseView::Failed { reason } => fails(
            d,
            FailureView { kind: FailureKind::Unreadable, subject: path, detail: reason },
            Stage::Bootstrapped,
        ),
        _ => out_of_turn(d),
    }
}

/// What the driver does with an answer while it walks a directory tree: an
/// entry that is named as a class and is no directory is read, to be
/// registered under the stem of its base name, and any other entry is passed
/// over.
pub open spec fn next_in_tree(d: DriverView, r: ResponseView) -> (DriverView, RequestView) {
    match r {
        ResponseView::Node { name, path, is_dir } => match class_name_in_tree(name, is_dir) {
            Some(stem) => moves(
                d,
                PhaseView::Reading { name: stem, path },
                RequestView::ReadFile { path },
            ),
            None => moves(d, PhaseView::Scanning, RequestView::NextEntry),
        },
        ResponseView::Skipped => moves(d, PhaseView::Scanning, RequestView::NextEntry),
        ResponseView::Exhausted => resolves(d),
        _ => out_of_turn(d),
    }
}

/// Once a class is registered, the driver goes on with the scan, or, without
/// a classpath, looks for the entry class.
pub open spec fn after_registration(d: DriverView) -> (DriverView, RequestView) {
    match d.locator {
        Some(LocatorView::Absent) => resolves(d),
        Some(LocatorView::ArchiveFile(_)) | Some(LocatorView::DirectoryTree(_)) => moves(
            d,
            PhaseView::Scanning,
            RequestView::NextEntry,
        ),
        None => out_of_turn(d),
    }
}

/// What the driver does with what the execution engine returned: an integer
/// is the run's result, and anything else fails the run.
pub open spec fn after_execution(d: DriverView, outcome: EngineOutcome) -> (
    DriverView,
    RequestView,
) {
    match outcome {
        EngineOutcome::Integer(value) => moves(
            d,
            PhaseView::Done { value },
            RequestView::Report { value },
        ),
        EngineOutcome::NonInteger => fails(
            d,
            FailureView {
                kind: FailureKind::ResultNotInteger,
                subject: d.entry_class,
                detail: Seq::empty(),
            },
            Stage::Executed,
        ),
        EngineOutcome::Nothing => fails(
            d,
            FailureView {
                kind: FailureKind::NoResult,
                subject: d.entry_class,
                detail: Seq::empty(),
            },
            Stage::Executed,
        ),
    }
}

/// The driver's transition: the state in which the answer `r` leaves the
/// driver `d`, and what the driver asks for next.
pub open spec fn next(d: DriverView, r: ResponseView) -> (DriverView, RequestView) {
    match d.phase {
        PhaseView::Idle => match r {
            ResponseView::Ready => moves(d, PhaseView::Bootstrapping, RequestView::Bootstrap),
            _ => out_of_turn(d),
        },
        PhaseView::Bootstrapping => match r {
            ResponseView::Bootstrapped => after_bootstrap(d),
            _ => out_of_turn(d),
        },
        PhaseView::Probing => match d.classpath {
            Some(path) => match r {
                ResponseView::Probed { kind } => after_probe(d, path, kind),
                ResponseView::Failed { reason } => fails(
                    d,
                    FailureView {
                        kind: FailureKind::ClasspathUnavailable,
                        subject: path,
                        detail: reason,
                    },
                    Stage::Bootstrapped,
                ),
                _ => out_of_turn(d),
            },
            None => out_of_turn(d),
        },
        PhaseView::Scanning => match d.locator {
            Some(LocatorView::ArchiveFile(path)) => next_in_archive(d, path, r),
            Some(LocatorView::DirectoryTree(_)) => next_in_tree(d, r),
            _ => out_of_turn(d),
        },
        PhaseView::Reading { name, path } => match r {
            ResponseView::Content { bytes } => moves(
                d,
                PhaseView::Registering { name },
                RequestView::Register { class: ClassEntry { name, bytes } },
            ),
            ResponseView::Failed { reason } => fails(
                d,
                FailureView { kind: FailureKind::Unreadable, subject: path, detail: reason },
                Stage::Bootstrapped,
            ),
            _ => out_of_turn(d),
        },
        PhaseView::Registering { name } => match r {
            ResponseView::Registered => after_registration(d),
            ResponseView::Failed { reason } => fails(
                d,
                FailureView { kind: FailureKind::Malformed, subject: name, detail: reason },
                Stage::Bootstrapped,
            ),
            _ => out_of_turn(d),
        },
        PhaseView::ResolvingClass => match r {
            ResponseView::Found => moves(
                d,
                PhaseView::ResolvingMethod,
                RequestView::LookupMethod {
                    class_name: d.entry_class,
                    key: entry_key_of(d.entry_class),
                },
            ),
            ResponseView::Missing => fails(
                d,
                FailureView {
                    kind: FailureKind::EntryClassMissing,
                    subject: d.entry_class,
                    detail: Seq::empty(),
                },
                Stage::Scanned,
            ),
            _ => out_of_turn(d),
        },
        PhaseView::ResolvingMethod => match r {
            ResponseView::Found => moves(
                d,
                PhaseView::Executing,
                RequestView::Execute {
                    class_name: d.entry_class,
                    key: entry_key_of(d.entry_class),
                    frame_slots: INITIAL_FRAME_SLOTS,
                },
            ),
            ResponseView::Missing => fails(
                d,
                FailureView {
                    kind: FailureKind::EntryMethodMissing,
                    subject: entry_key_of(d.entry_class),
                    detail: Seq::empty(),
                },
                Stage::Scanned,
            ),
            _ => out_of_turn(d),
        },
        PhaseView::Executing => match r {
            ResponseView::Returned { outcome } => after_execution(d, outcome),
            ResponseView::Failed { reason } => fails(
                d,
                FailureView {
                    kind: FailureKind::EngineFailed,
                    subject: d.entry_class,
                    detail: reason,
                },
                Stage::EntryResolved,
            ),
            _ => out_of_turn(d),
        },
        PhaseView::Done { value } => (d, RequestView::Report { value }),
        PhaseView::Failed { failure, at } => (d, RequestView::Abort { failure }),
    }
}

/// The view of what a classpath denotes, once that is known.
pub open spec fn locator_view(locator: Option<ClasspathLocator>) -> Option<LocatorView> {
    match locator {
        Some(known) => Some(known@),
        None => None,
    }
}

/// The view of a failure that may be absent.
pub open spec fn failure_view(failure: Option<Failure>) -> Option<FailureView> {
    match failure {
        Some(given) => Some(given@),
        None => None,
    }
}

/// The driver of one run.
#[derive(Debug)]
pub struct Driver {
    classpath: Option<String>,
    entry_path: String,
    entry_class: String,
    locator: Option<ClasspathLocator>,
    phase: Phase,
}

impl View for Driver {
    type V = DriverView;

    closed spec fn view(&self) -> DriverView {
        DriverView {
            classpath: text_view(self.classpath),
            entry_path: self.entry_path@,
            entry_class: self.entry_class@,
            locator: locator_view(self.locator),
            phase: self.phase@,
        }
    }
}

/// What the driver makes of an answer: what it waits for next, what its
/// classpath denotes, where the answer has settled that, and what it asks for.
struct Decision {
    phase: Phase,
    settled: Option<ClasspathLocator>,
    request: Request,
}

impl Decision {
    /// The state in which this decision leaves the driver `d`, and the
    /// request that goes with it.
    spec fn applied(self, d: DriverView) -> (DriverView, RequestView) {
        (
            DriverView {
                phase: self.phase@,
                locator: match self.settled {
                    Some(locator) => Some(locator@),
                    None => d.locator,
                },
                ..d
            },
            self.request@,
        )
    }

    /// The decision to wait for `phase` and to ask for `request`.
    fn to(phase: Phase, request: Request) -> (decision: Decision)
        ensures
            decision.phase == phase,
            decision.settled is None,
            decision.request == request,
    {
        Decision { phase, settled: None, request }
    }

    /// The decision to end the run with `failure`, at the stage `at`.
    fn failing(failure: Failure, at: Stage) -> (decision: Decision)
        ensures
            decision.phase@ == (PhaseView::Failed { failure: failure@, at }),
            decision.settled is None,
            decision.request@ == (RequestView::Abort { failure: failure@ }),
    {
        let copy = failure.duplicate();
        Decision::to(Phase::Failed { failure: copy, at }, Request::Abort { failure })
    }
}

impl Driver {
    /// A driver for a run over `classpath`, if one is given, that starts at
    /// the entry method of `entry_class`. Without a classpath the entry class
    /// is read from the file `entry_path`, and registered under that name;
    /// with a classpath `entry_path` plays no part.
    pub fn new(classpath: Option<String>, entry_path: String, entry_class: String) -> (driver:
        Driver)
        ensures
            driver@ == initial(text_view(classpath), entry_path@, entry_class@),
    {
        Driver { classpath, entry_path, entry_class, locator: None, phase: Phase::Idle }
    }

    /// The last stage that the run has completed.
    pub fn stage(&self) -> (stage: Stage)
        ensures
            stage == stage_of(self@.phase),
    {
        match &self.phase {
            Phase::Idle => Stage::Uninitialized,
            Phase::Bootstrapping => Stage::Uninitialized,
            Phase::Probing => Stage::Bootstrapped,
            Phase::Scanning => Stage::Bootstrapped,
            Phase::Reading { .. } => Stage::Bootstrapped,
            Phase::Registering { .. } => Stage::Bootstrapped,
            Phase::ResolvingClass => Stage::Scanned,
            Phase::ResolvingMethod => Stage::Scanned,
            Phase::Executing => Stage::EntryResolved,
            Phase::Done { .. } => Stage::Reported,
            Phase::Failed { at, .. } => *at,
        }
    }

    /// Whether the run has ended, in success or in failure.
    pub fn is_finished(&self) -> (ended: bool)
        ensures
            ended == (self@.phase is Done || self@.phase is Failed),
    {
        match &self.phase {
            Phase::Done { .. } => true,
            Phase::Failed { .. } => true,
            _ => false,
        }
    }

    /// The result of the run, if it has succeeded.
    pub fn result(&self) -> (result: Option<i32>)
        ensures
            result == match self@.phase {
                PhaseView::Done { value } => Some(value),
                _ => None,
            },
    {
        match &self.phase {
            Phase::Done { value } => Some(*value),
            _ => None,
        }
    }

    /// The failure of the run, if it has failed.
    pub fn failure(&self) -> (failure: Option<Failure>)
        ensures
            failure_view(failure) == match self@.phase {
                PhaseView::Failed { failure, .. } => Some(failure),
                _ => None,
            },
    {
        match &self.phase {
            Phase::Failed { failure, .. } => Some(failure.duplicate()),
            _ => None,
        }
    }

    /// What the classpath denotes, once that is known.
    pub fn locator(&self) -> (locator: Option<ClasspathLocator>)
        ensures
            locator_view(locator) == self@.locator,
    {
        match &self.locator {
            Some(known) => Some(known.duplicate()),
            None => None,
        }
    }

    /// The decision to end a run whose environment answered out of turn.
    fn out_of_turn(&self) -> (decision: Decision)
        ensures
            decision.phase@ == (PhaseView::Failed {
                failure: out_of_turn_failure(),
                at: stage_of(self@.phase),
            }),
            decision.settled is None,
            decision.request@ == (RequestView::Abort { failure: out_of_turn_failure() }),
    {
        Decision::failing(
            Failure::new(FailureKind::OutOfTurn, String::new(), String::new()),
            self.stage(),
        )
    }

    /// The decision to look for the entry class.
    fn resolving(&self) -> (decision: Decision)
        ensures
            decision.phase@ == PhaseView::ResolvingClass,
            decision.settled is None,
            decision.request@ == (RequestView::LookupClass { name: self@.entry_class }),
    {
        Decision::to(
            Phase::ResolvingClass,
            Request::LookupClass { name: self.entry_class.clone() },
        )
    }

    /// What the driver does with an answer while it scans an archive.
    fn decide_in_archive(&self, path: &String, response: Response) -> (decision: Decision)
        ensures
            decision.settled is None,
            decision.applied(self@) == next_in_archive(self@, path@, response@),
    {
        match response {
            Response::Entry { name, bytes } => match discover_in_archive(name, bytes) {
                Some(class) => Decision::to(
                    Phase::Registering { name: class.name.clone() },
                    Request::Register { class },
                ),
                None => Decision::to(Phase::Scanning, Request::NextEntry),
            },
            Response::Skipped => Decision::to(Phase::Scanning, Request::NextEntry),
            Response::Exhausted => self.resolving(),
            Response::Failed { reason } => Decision::failing(
                Failure::new(FailureKind::Unreadable, path.clone(), reason),
                Stage::Bootstrapped,
            ),
            _ => self.out_of_turn(),
        }
    }

    /// What the driver does with an answer while it walks a directory tree.
    fn decide_in_tree(&self, response: Response) -> (decision: Decision)
        ensures
            decision.settled is None,
            decision.applied(self@) == next_in_tree(self@, response@),
    {
        match response {
            Response::Node { name, path, is_dir } => match discover_in_tree(name.as_str(), is_dir) {
                Some(stem) => Decision::to(
                    Phase::Reading { name: stem, path: path.clone() },
                    Request::ReadFile { path },
                ),
                None => Decision::to(Phase::Scanning, Request::NextEntry),
            },
            Response::Skipped => Decision::to(Phase::Scanning, Request::NextEntry),
            Response::Exhausted => self.resolving(),
            _ => self.out_of_turn(),
        }
    }

    /// The decision to set out to discover classes, in the way that belongs
    /// to what the classpath denotes.
    fn discover(&self, locator: ClasspathLocator) -> (decision: Decision)
        ensures
            decision.applied(self@) == discovers(self@, locator@),
    {
        let (phase, request) = match &locator {
            ClasspathLocator::Absent => (
                Phase::Reading { name: self.entry_path.clone(), path: self.entry_path.clone() },
                Request::ReadFile { path: self.entry_path.clone() },
            ),
            ClasspathLocator::ArchiveFile(path) => (
                Phase::Scanning,
                Request::OpenArchive { path: path.clone() },
            ),
            ClasspathLocator::DirectoryTree(root) => (
                Phase::Scanning,
                Request::OpenTree { root: root.clone() },
            ),
        };
        Decision { phase, settled: Some(locator), request }
    }

    /// What the driver makes of `response`.
    fn decide(&self, response: Response) -> (decision: Decision)
        ensures
            decision.applied(self@) == next(self@, response@),
    {
        match &self.phase {
            Phase::Idle => match response {
                Response::Ready => Decision::to(Phase::Bootstrapping, Request::Bootstrap),
                _ => self.out_of_turn(),
            },
            Phase::Bootstrapping => match response {
                Response::Bootstrapped => match &self.classpath {
                    Some(path) => Decision::to(
                        Phase::Probing,
                        Request::Probe { path: path.clone() },
                    ),
                    None => self.discover(ClasspathLocator::Absent),
                },
                _ => self.out_of_turn(),
            },
            Phase::Probing => match &self.classpath {
                Some(path) => match response {
                    Response::Probed { kind } => match ClasspathLocator::classify(
                        path.clone(),
                        kind,
                    ) {
                        Ok(locator) => self.discover(locator),
                        Err(failure) => Decision::failing(failure, Stage::Bootstrapped),
                    },
                    Response::Failed { reason } => Decision::failing(
                        Failure::new(FailureKind::ClasspathUnavailable, path.clone(), reason),
                        Stage::Bootstrapped,
                    ),
                    _ => self.out_of_turn(),
                },
                None => self.out_of_turn(),
            },
            Phase::Scanning => match &self.locator {
                Some(ClasspathLocator::ArchiveFile(path)) => self.decide_in_archive(
                    path,
                    response,
                ),
                Some(ClasspathLocator::DirectoryTree(_)) => self.decide_in_tree(response),
                _ => self.out_of_turn(),
            },
            Phase::Reading { name, path } => match response {
                Response::Content { bytes } => Decision::to(
                    Phase::Registering { name: name.clone() },
                    Request::Register { class: DiscoveredClass { name: name.clone(), bytes } },
                ),
                Response::Failed { reason } => Decision::failing(
                    Failure::new(FailureKind::Unreadable, path.clone(), reason),
                    Stage::Bootstrapped,
                ),
                _ => self.out_of_turn(),
            },
            Phase::Registering { name } => match response {
                Response::Registered => match &self.locator {
                    Some(ClasspathLocator::Absent) => self.resolving(),
                    Some(_) => Decision::to(Phase::Scanning, Request::NextEntry),
                    None => self.out_of_turn(),
                },
                Response::Failed { reason } => Decision::failing(
                    Failure::new(FailureKind::Malformed, name.clone(), reason),
                    Stage::Bootstrapped,
                ),
                _ => self.out_of_turn(),
            },
            Phase::ResolvingClass => match response {
                Response::Found => Decision::to(
                    Phase::ResolvingMethod,
                    Request::LookupMethod {
                        class_name: self.entry_class.clone(),
                        key: entry_method_key(self.entry_class.as_str()),
                    },
                ),
                Response::Missing => Decision::failing(
                    Failure::new(
                        FailureKind::EntryClassMissing,
                        self.entry_class.clone(),
                        String::new(),
                    ),
                    Stage::Scanned,
                ),
                _ => self.out_of_turn(),
            },
            Phase::ResolvingMethod => match response {
                Response::Found => Decision::to(
                    Phase::Executing,
                    Request::Execute {
                        class_name: self.entry_class.clone(),
                        key: entry_method_key(self.entry_class.as_str()),
                        frame_slots: INITIAL_FRAME_SLOTS,
                    },
                ),
                Response::Missing => Decision::failing(
                    Failure::new(
                        FailureKind::EntryMethodMissing,
                        entry_method_key(self.entry_class.as_str()),
                        String::new(),
                    ),
                    Stage::Scanned,
                ),
                _ => self.out_of_turn(),
            },
            Phase::Executing => match response {
                Response::Returned { outcome } => match outcome {
                    EngineOutcome::Integer(value) => Decision::to(
                        Phase::Done { value },
                        Request::Report { value },
                    ),
                    EngineOutcome::NonInteger => Decision::failing(
                        Failure::new(
                            FailureKind::ResultNotInteger,
                            self.entry_class.clone(),
                            String::new(),
                        ),
                        Stage::Executed,
                    ),
                    EngineOutcome::Nothing => Decision::failing(
                        Failure::new(
                            FailureKind::NoResult,
                            self.entry_class.clone(),
                            String::new(),
                        ),
                        Stage::Executed,
                    ),
                },
                Response::Failed { reason } => Decision::failing(
                    Failure::new(FailureKind::EngineFailed, self.entry_class.clone(), reason),
                    Stage::EntryResolved,
                ),
                _ => self.out_of_turn(),
            },
            Phase::Done { value } => Decision::to(
                Phase::Done { value: *value },
                Request::Report { value: *value },
            ),
            Phase::Failed { failure, at } => Decision::to(
                Phase::Failed { failure: failure.duplicate(), at: *at },
                Request::Abort { failure: failure.duplicate() },
            ),
        }
    }

    /// Takes the environment's answer to the last request and says what to
    /// ask for next. The first answer of a run is [`Response::Ready`]. Once
    /// the request is [`Request::Report`] or [`Request::Abort`] the run has
    /// ended, and every further answer is met with that same request.
    pub fn step(&mut self, response: Response) -> (request: Request)
        ensures
            (final(self)@, request@) == next(old(self)@, response@),
    {
        let decision = self.decide(response);
        self.phase = decision.phase;
        if let Some(locator) = decision.settled {
            self.locator = Some(locator);
        }
        decision.request
    }
}

} // verus!
