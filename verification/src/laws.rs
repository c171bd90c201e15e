//! What holds of every run of the driver. The theorems of this module speak
//! of whole runs, whereas the contract of
//! [`Driver::step`](crate::driver::Driver::step) speaks of one answer.

use crate::classpath::{LocatorView, PathKind};
use crate::discovery::{class_in_archive, class_name_in_tree, ClassEntry};
use crate::driver::{
    after_bootstrap,
    initial,
    next,
    out_of_turn,
    stage_of,
    DriverView,
    PhaseView,
    Stage,
};
use crate::failure::{FailureKind, FailureView};
use crate::names::{entry_key_of, is_class_name};
use crate::protocol::{RequestView, ResponseView, INITIAL_FRAME_SLOTS};
use crate::registry::{lemma_registering_twice, registered};
use crate::run::{
    asked,
    lemma_nothing_registered,
    lemma_registrations_in_two_parts,
    lemma_registrations_of_one,
    lemma_run_in_two_parts,
    lemma_run_of_one,
    lemma_run_of_three,
    reached,
    registrations,
};
use vstd::prelude::*;

verus! {

/// The answers with which every run begins: an empty repository stands
/// ready, and the built-in classes are registered.
pub open spec fn opening() -> Seq<ResponseView> {
    seq![ResponseView::Ready, ResponseView::Bootstrapped]
}

/// Every run begins by asking for the built-in classes, before it asks for
/// anything else. With a classpath it then asks what the classpath is;
/// without one it asks for the entry class's own file.
pub proof fn lemma_run_opens(
    classpath: Option<Seq<char>>,
    entry_path: Seq<char>,
    entry_class: Seq<char>,
)
    ensures
        ({
            let d = initial(classpath, entry_path, entry_class);
            &&& asked(d, opening()) == seq![RequestView::Bootstrap, after_bootstrap(d).1]
            &&& reached(d, opening()) == after_bootstrap(d).0
            &&& after_bootstrap(d).1 == match classpath {
                Some(path) => RequestView::Probe { path },
                None => RequestView::ReadFile { path: entry_path },
            }
        }),
{
    let d = initial(classpath, entry_path, entry_class);
    let d1 = next(d, ResponseView::Ready).0;
    lemma_run_of_one(d, ResponseView::Ready);
    lemma_run_of_one(d1, ResponseView::Bootstrapped);
    lemma_run_in_two_parts(d, seq![ResponseView::Ready], seq![ResponseView::Bootstrapped]);
    assert(seq![ResponseView::Ready] + seq![ResponseView::Bootstrapped] =~= opening());
}

/// A run that has ended stays as it is: whatever the environment answers, a
/// run that has succeeded reports its value again, and a run that has failed
/// reports its failure again. No failure is retried or recovered from.
pub proof fn lemma_ended_run_stays(d: DriverView, answers: Seq<ResponseView>)
    requires
        d.phase is Done || d.phase is Failed,
    ensures
        reached(d, answers) == d,
        asked(d, answers).len() == answers.len(),
        d.phase matches PhaseView::Done { value } ==> forall|i: int|
            0 <= i < answers.len() ==> #[trigger] asked(d, answers)[i] == (RequestView::Report {
                value,
            }),
        d.phase matches PhaseView::Failed { failure, .. } ==> forall|i: int|
            0 <= i < answers.len() ==> #[trigger] asked(d, answers)[i] == (RequestView::Abort {
                failure,
            }),
    decreases answers.len(),
{
    if answers.len() > 0 {
        lemma_ended_run_stays(d, answers.drop_first());
        let rest = asked(d, answers.drop_first());
        assert forall|i: int| 0 < i < answers.len() implies #[trigger] asked(d, answers)[i]
            == rest[i - 1] by {}
    }
}

/// No answer takes a run back: the stage that the run has completed after
/// an answer is the one that it had completed before, or a later one.
pub proof fn lemma_stage_never_falls(d: DriverView, answer: ResponseView)
    ensures
        stage_of(d.phase).rank() <= stage_of(next(d, answer).0.phase).rank(),
{
}

/// The stages of a run follow each other in their one order, however long
/// the run and whatever the answers.
pub proof fn lemma_stages_in_order(d: DriverView, answers: Seq<ResponseView>)
    ensures
        stage_of(d.phase).rank() <= stage_of(reached(d, answers).phase).rank(),
    decreases answers.len(),
{
    if answers.len() > 0 {
        lemma_stage_never_falls(d, answers.first());
        lemma_stages_in_order(next(d, answers.first()).0, answers.drop_first());
    }
}

/// Each stage is completed by the one answer that completes it: the built-in
/// classes by the answer that they are registered, the scan by the end of
/// the entries or, without a classpath, by the registration of the entry
/// class, the resolution by the entry method, and the execution by what the
/// engine returned, which is the run's result if and only if it is an
/// integer.
pub proof fn lemma_stage_is_earned(d: DriverView, answer: ResponseView)
    ensures
        ({
            let before = stage_of(d.phase);
            let after = stage_of(next(d, answer).0.phase);
            before != after ==> match after {
                Stage::Uninitialized => false,
                Stage::Bootstrapped => d.phase is Bootstrapping && answer is Bootstrapped,
                Stage::Scanned => d.phase is Scanning && answer is Exhausted || d.phase
                    is Registering && answer is Registered,
                Stage::EntryResolved => d.phase is ResolvingMethod && answer is Found,
                Stage::Executed => d.phase is Executing && answer is Returned
                    && !(answer->outcome is Integer),
                Stage::Reported => d.phase is Executing && answer is Returned && answer->outcome
                    is Integer,
            }
        }),
{
}

/// Whether the driver `d` is in a state that a run can be in: what it waits
/// for agrees with what it knows of its classpath.
pub open spec fn coherent(d: DriverView) -> bool {
    &&& match d.locator {
        None => d.phase is Idle || d.phase is Bootstrapping || d.phase is Probing
            || d.phase is Failed,
        Some(LocatorView::Absent) => d.classpath is None && !(d.phase is Idle) && !(d.phase
            is Bootstrapping) && !(d.phase is Probing) && !(d.phase is Scanning),
        Some(LocatorView::ArchiveFile(path)) => d.classpath == Some(path) && !(d.phase is Idle)
            && !(d.phase is Bootstrapping) && !(d.phase is Probing) && !(d.phase is Reading),
        Some(LocatorView::DirectoryTree(path)) => d.classpath == Some(path) && !(d.phase
            is Idle) && !(d.phase is Bootstrapping) && !(d.phase is Probing),
    }
    &&& d.phase is Probing ==> d.classpath is Some
}

/// Every state of a run is coherent: the first is, and each answer leads from
/// a coherent state to a coherent state.
pub proof fn lemma_runs_are_coherent(
    classpath: Option<Seq<char>>,
    entry_path: Seq<char>,
    entry_class: Seq<char>,
    answers: Seq<ResponseView>,
)
    ensures
        coherent(reached(initial(classpath, entry_path, entry_class), answers)),
{
    lemma_coherence_is_kept(initial(classpath, entry_path, entry_class), answers);
}

/// Answers lead from a coherent state to a coherent state.
pub proof fn lemma_coherence_is_kept(d: DriverView, answers: Seq<ResponseView>)
    requires
        coherent(d),
    ensures
        coherent(reached(d, answers)),
    decreases answers.len(),
{
    if answers.len() > 0 {
        lemma_coherent_step(d, answers.first());
        lemma_coherence_is_kept(next(d, answers.first()).0, answers.drop_first());
    }
}

/// One answer leads from a coherent state to a coherent state, in which the
/// driver's inputs are what they were.
pub proof fn lemma_coherent_step(d: DriverView, answer: ResponseView)
    requires
        coherent(d),
    ensures
        coherent(next(d, answer).0),
        next(d, answer).0.classpath == d.classpath,
        next(d, answer).0.entry_path == d.entry_path,
        next(d, answer).0.entry_class == d.entry_class,
{
}

/// What a classpath denotes is settled once: from then on no answer changes
/// it.
pub proof fn lemma_classified_once(d: DriverView, answers: Seq<ResponseView>)
    requires
        coherent(d),
        d.locator is Some,
    ensures
        reached(d, answers).locator == d.locator,
    decreases answers.len(),
{
    if answers.len() > 0 {
        lemma_coherent_step(d, answers.first());
        lemma_classified_once(next(d, answers.first()).0, answers.drop_first());
    }
}

/// Whether a request belongs to the discovery of classes without a classpath,
/// in an archive, or in a directory tree, given what the classpath denotes.
pub open spec fn discovers_by(request: RequestView, locator: LocatorView) -> bool {
    match request {
        RequestView::OpenArchive { path } => locator == LocatorView::ArchiveFile(path),
        RequestView::OpenTree { root } => locator == LocatorView::DirectoryTree(root),
        RequestView::NextEntry => locator is ArchiveFile || locator is DirectoryTree,
        RequestView::ReadFile { .. } => locator is Absent || locator is DirectoryTree,
        _ => true,
    }
}

/// Classes are discovered in one way only: each request to open or to go on
/// with a scan, or to read a file, is the one that belongs to what the
/// classpath denotes, and the driver asks for it only once the built-in
/// classes are registered. So does each request to register a class.
pub proof fn lemma_one_way_of_discovery(d: DriverView, answer: ResponseView)
    requires
        coherent(d),
    ensures
        ({
            let (after, request) = next(d, answer);
            request is OpenArchive || request is OpenTree || request is NextEntry || request
                is ReadFile || request is Register ==> {
                &&& stage_of(after.phase) == Stage::Bootstrapped
                &&& after.locator matches Some(locator) && discovers_by(request, locator)
            }
        }),
{
}

/// Whether the driver `d` waits for an answer such as `answer`.
pub open spec fn awaited(d: DriverView, answer: ResponseView) -> bool {
    match d.phase {
        PhaseView::Idle => answer is Ready,
        PhaseView::Bootstrapping => answer is Bootstrapped,
        PhaseView::Probing => answer is Probed || answer is Failed,
        PhaseView::Scanning => match d.locator {
            Some(LocatorView::ArchiveFile(_)) => answer is Entry || answer is Skipped || answer
                is Exhausted || answer is Failed,
            Some(LocatorView::DirectoryTree(_)) => answer is Node || answer is Skipped || answer
                is Exhausted,
            _ => false,
        },
        PhaseView::Reading { .. } => answer is Content || answer is Failed,
        PhaseView::Registering { .. } => answer is Registered || answer is Failed,
        PhaseView::ResolvingClass | PhaseView::ResolvingMethod => answer is Found || answer
            is Missing,
        PhaseView::Executing => answer is Returned || answer is Failed,
        PhaseView::Done { .. } | PhaseView::Failed { .. } => true,
    }
}

/// A run fails for an answer out of turn exactly when the answer is none that
/// the driver waits for: no state of a run turns an answer that it waits for
/// into such a failure.
pub proof fn lemma_out_of_turn_exactly(d: DriverView, answer: ResponseView)
    requires
        coherent(d),
        !(d.phase is Done),
        !(d.phase is Failed),
    ensures
        !awaited(d, answer) <==> next(d, answer) == out_of_turn(d),
        !awaited(d, answer) <==> (next(d, answer).0.phase matches PhaseView::Failed {
            failure,
            ..
        } && failure.kind == FailureKind::OutOfTurn),
{
}

/// The failure of a run whose classpath is refused: the classpath could not
/// be inspected, or it is neither a file nor a directory.
pub open spec fn refusal(path: Seq<char>, probe: ResponseView) -> FailureView {
    match probe {
        ResponseView::Failed { reason } => FailureView {
            kind: FailureKind::ClasspathUnavailable,
            subject: path,
            detail: reason,
        },
        _ => FailureView {
            kind: FailureKind::ClasspathUnsupported,
            subject: path,
            detail: Seq::empty(),
        },
    }
}

/// A classpath that does not exist or cannot be inspected, or that is neither
/// a file nor a directory, ends the run at once, before any scan and before
/// any class is registered. The driver asks for the built-in classes and for
/// the kind of the classpath, and from then on only reports the failure,
/// which names the classpath.
pub proof fn lemma_refused_classpath_ends_run(
    path: Seq<char>,
    entry_path: Seq<char>,
    entry_class: Seq<char>,
    probe: ResponseView,
    more: Seq<ResponseView>,
)
    requires
        probe is Failed || probe == (ResponseView::Probed { kind: PathKind::Other }),
    ensures
        ({
            let d = initial(Some(path), entry_path, entry_class);
            let failure = refusal(path, probe);
            let answers = opening().push(probe) + more;
            let run = asked(d, answers);
            &&& run.len() == 3 + more.len()
            &&& run[0] == RequestView::Bootstrap
            &&& run[1] == RequestView::Probe { path }
            &&& forall|i: int| 2 <= i < run.len() ==> #[trigger] run[i] == (RequestView::Abort {
                failure,
            })
            &&& registrations(run) == Seq::<ClassEntry>::empty()
            &&& reached(d, answers).phase == (PhaseView::Failed {
                failure,
                at: Stage::Bootstrapped,
            })
        }),
{
    let d = initial(Some(path), entry_path, entry_class);
    let failure = refusal(path, probe);
    let head = opening().push(probe);
    let d2 = after_bootstrap(d).0;
    let d3 = next(d2, probe).0;
    lemma_run_opens(Some(path), entry_path, entry_class);
    lemma_run_of_one(d2, probe);
    lemma_run_in_two_parts(d, opening(), seq![probe]);
    assert(opening() + seq![probe] =~= head);
    lemma_run_in_two_parts(d, head, more);
    lemma_ended_run_stays(d3, more);
    let run = asked(d, head + more);
    assert forall|i: int| 2 <= i < run.len() implies #[trigger] run[i] == (RequestView::Abort {
        failure,
    }) by {}
    lemma_nothing_registered(run);
}

/// Without a classpath exactly one class is registered: the content of the
/// entry class's file, under that file's name. Once the entry class is found,
/// the entry method is looked up under the entry key, and the run goes on to
/// execute it if and only if the class has a method under that key. If it has
/// none the run fails, and its failure names the key.
pub proof fn lemma_bare_class_run(
    entry_path: Seq<char>,
    entry_class: Seq<char>,
    bytes: Seq<u8>,
    has_entry_method: bool,
)
    ensures
        ({
            let d = initial(None, entry_path, entry_class);
            let key = entry_key_of(entry_class);
            let class = ClassEntry { name: entry_path, bytes };
            let answers = opening() + seq![
                ResponseView::Content { bytes },
                ResponseView::Registered,
                ResponseView::Found,
            ].push(
                if has_entry_method {
                    ResponseView::Found
                } else {
                    ResponseView::Missing
                },
            );
            let run = asked(d, answers);
            &&& run.len() == 6
            &&& run[0] == RequestView::Bootstrap
            &&& run[1] == RequestView::ReadFile { path: entry_path }
            &&& run[2] == RequestView::Register { class }
            &&& run[3] == RequestView::LookupClass { name: entry_class }
            &&& run[4] == RequestView::LookupMethod { class_name: entry_class, key }
            &&& has_entry_method ==> run[5] == RequestView::Execute {
                class_name: entry_class,
                key,
                frame_slots: INITIAL_FRAME_SLOTS,
            }
            &&& !has_entry_method ==> run[5] == RequestView::Abort {
                failure: FailureView {
                    kind: FailureKind::EntryMethodMissing,
                    subject: key,
                    detail: Seq::empty(),
                },
            }
            &&& registrations(run) == seq![class]
        }),
{
    let d = initial(None, entry_path, entry_class);
    let class = ClassEntry { name: entry_path, bytes };
    let last = if has_entry_method {
        ResponseView::Found
    } else {
        ResponseView::Missing
    };
    let d2 = after_bootstrap(d).0;
    let a3 = ResponseView::Content { bytes };
    let d3 = next(d2, a3).0;
    let d4 = next(d3, ResponseView::Registered).0;
    let d5 = next(d4, ResponseView::Found).0;
    let middle = seq![a3, ResponseView::Registered, ResponseView::Found];
    lemma_run_opens(None, entry_path, entry_class);
    lemma_run_of_three(d2, a3, ResponseView::Registered, ResponseView::Found);
    lemma_run_of_one(d5, last);
    lemma_run_in_two_parts(d2, middle, seq![last]);
    assert(middle + seq![last] =~= middle.push(last));
    lemma_run_in_two_parts(d, opening(), middle.push(last));
    let run = asked(d, opening() + middle.push(last));
    let before = seq![RequestView::Bootstrap, RequestView::ReadFile { path: entry_path }];
    let after = seq![
        RequestView::LookupClass { name: entry_class },
        RequestView::LookupMethod { class_name: entry_class, key: entry_key_of(entry_class) },
        next(d5, last).1,
    ];
    assert(run =~= before + seq![RequestView::Register { class }] + after);
    lemma_registrations_in_two_parts(before + seq![RequestView::Register { class }], after);
    lemma_registrations_in_two_parts(before, seq![RequestView::Register { class }]);
    lemma_registrations_of_one(RequestView::Register { class });
    lemma_nothing_registered(before);
    lemma_nothing_registered(after);
}

/// What a scan finds in an archive: an entry with its full name within the
/// archive and its bytes, or an entry that could not be decoded.
pub enum ArchiveItem {
    Entry { name: Seq<char>, bytes: Seq<u8> },
    Undecodable,
}

/// The class that an item of an archive holds, if it holds one.
pub open spec fn archive_item_class(item: ArchiveItem) -> Option<ClassEntry> {
    match item {
        ArchiveItem::Entry { name, bytes } => class_in_archive(name, bytes),
        ArchiveItem::Undecodable => None,
    }
}

/// The classes that the items of an archive hold, first to last: those of the
/// entries whose names end with the class-file suffix, each under its full
/// name within the archive.
pub open spec fn archive_classes(items: Seq<ArchiveItem>) -> Seq<ClassEntry> {
    items.filter_map(|item: ArchiveItem| archive_item_class(item))
}

/// What the environment answers as the driver comes to one item of an
/// archive, when each class is parsed and registered without fault.
pub open spec fn archive_item_answers(item: ArchiveItem) -> Seq<ResponseView> {
    match item {
        ArchiveItem::Entry { name, bytes } => if is_class_name(name) {
            seq![ResponseView::Entry { name, bytes }, ResponseView::Registered]
        } else {
            seq![ResponseView::Entry { name, bytes }]
        },
        ArchiveItem::Undecodable => seq![ResponseView::Skipped],
    }
}

/// What the environment answers as the driver scans an archive of the given
/// items, when each class is parsed and registered without fault.
pub open spec fn archive_answers(items: Seq<ArchiveItem>) -> Seq<ResponseView>
    decreases items.len(),
{
    if items.len() == 0 {
        Seq::empty()
    } else {
        archive_answers(items.drop_last()) + archive_item_answers(items.last())
    }
}

/// What the driver asks for as it comes to one item of an archive: that the
/// class that the item holds be registered, if it holds one, and then the
/// next entry.
pub open spec fn archive_item_requests(item: ArchiveItem) -> Seq<RequestView> {
    match archive_item_class(item) {
        Some(class) => seq![RequestView::Register { class }, RequestView::NextEntry],
        None => seq![RequestView::NextEntry],
    }
}

/// What the driver asks for as it scans an archive of the given items.
pub open spec fn archive_requests(items: Seq<ArchiveItem>) -> Seq<RequestView>
    decreases items.len(),
{
    if items.len() == 0 {
        Seq::empty()
    } else {
        archive_requests(items.drop_last()) + archive_item_requests(items.last())
    }
}

/// Over the items of an archive the driver asks, item by item, for the
/// registration of each class before it asks for the next entry, and is then
/// ready for the next item.
pub proof fn lemma_archive_scan(d: DriverView, path: Seq<char>, items: Seq<ArchiveItem>)
    requires
        d.phase is Scanning,
        d.locator == Some(LocatorView::ArchiveFile(path)),
    ensures
        asked(d, archive_answers(items)) == archive_requests(items),
        reached(d, archive_answers(items)) == d,
    decreases items.len(),
{
    if items.len() > 0 {
        let front = items.drop_last();
        lemma_archive_scan(d, path, front);
        lemma_run_in_two_parts(d, archive_answers(front), archive_item_answers(items.last()));
        match items.last() {
            ArchiveItem::Entry { name, bytes } => {
                let entry = ResponseView::Entry { name, bytes };
                lemma_run_of_one(d, entry);
                if is_class_name(name) {
                    lemma_run_of_one(next(d, entry).0, ResponseView::Registered);
                    lemma_run_in_two_parts(d, seq![entry], seq![ResponseView::Registered]);
                    assert(seq![entry] + seq![ResponseView::Registered] =~= seq![
                        entry,
                        ResponseView::Registered,
                    ]);
                    assert(seq![next(d, entry).1] + seq![RequestView::NextEntry] =~= seq![
                        next(d, entry).1,
                        RequestView::NextEntry,
                    ]);
                }
            },
            ArchiveItem::Undecodable => {
                lemma_run_of_one(d, ResponseView::Skipped);
            },
        }
    }
}

/// The requests of a scan of an archive hand over exactly the classes that
/// the archive's items hold, in their order.
pub proof fn lemma_archive_registrations(items: Seq<ArchiveItem>)
    ensures
        registrations(archive_requests(items)) == archive_classes(items),
    decreases items.len(),
{
    if items.len() > 0 {
        let front = items.drop_last();
        lemma_archive_registrations(front);
        lemma_registrations_in_two_parts(
            archive_requests(front),
            archive_item_requests(items.last()),
        );
        lemma_registrations_of_one(RequestView::NextEntry);
        if let Some(class) = archive_item_class(items.last()) {
            lemma_registrations_of_one(RequestView::Register { class });
            lemma_registrations_in_two_parts(
                seq![RequestView::Register { class }],
                seq![RequestView::NextEntry],
            );
            assert(seq![RequestView::Register { class }] + seq![RequestView::NextEntry] =~= seq![
                RequestView::Register { class },
                RequestView::NextEntry,
            ]);
            assert(seq![class] + Seq::<ClassEntry>::empty() =~= seq![class]);
        } else {
            assert(archive_classes(front) + Seq::<ClassEntry>::empty() =~= archive_classes(
                front,
            ));
        }
    }
}

/// A run over an archive registers exactly the classes that the archive's
/// entries hold: one for each entry whose name ends with the class-file
/// suffix, under the entry's full name within the archive, in the order of
/// the entries, each as soon as the scan comes to it. The other entries, and
/// those that could not be decoded, are passed over. The run then looks for
/// the entry class.
pub proof fn lemma_archive_run(
    path: Seq<char>,
    entry_path: Seq<char>,
    entry_class: Seq<char>,
    items: Seq<ArchiveItem>,
)
    ensures
        ({
            let d = initial(Some(path), entry_path, entry_class);
            let answers = opening().push(ResponseView::Probed { kind: PathKind::File })
                + archive_answers(items).push(ResponseView::Exhausted);
            &&& asked(d, answers) == seq![
                RequestView::Bootstrap,
                RequestView::Probe { path },
                RequestView::OpenArchive { path },
            ] + archive_requests(items).push(RequestView::LookupClass { name: entry_class })
            &&& registrations(asked(d, answers)) == archive_classes(items)
            &&& reached(d, answers).phase == PhaseView::ResolvingClass
            &&& reached(d, answers).locator == Some(LocatorView::ArchiveFile(path))
        }),
{
    let d = initial(Some(path), entry_path, entry_class);
    let probed = ResponseView::Probed { kind: PathKind::File };
    let head = opening().push(probed);
    let d2 = after_bootstrap(d).0;
    let d3 = next(d2, probed).0;
    lemma_run_opens(Some(path), entry_path, entry_class);
    lemma_run_of_one(d2, probed);
    lemma_run_in_two_parts(d, opening(), seq![probed]);
    assert(opening() + seq![probed] =~= head);
    let scan = archive_answers(items);
    lemma_archive_scan(d3, path, items);
    lemma_run_of_one(d3, ResponseView::Exhausted);
    lemma_run_in_two_parts(d3, scan, seq![ResponseView::Exhausted]);
    assert(scan + seq![ResponseView::Exhausted] =~= scan.push(ResponseView::Exhausted));
    lemma_run_in_two_parts(d, head, scan.push(ResponseView::Exhausted));
    let opened = seq![
        RequestView::Bootstrap,
        RequestView::Probe { path },
        RequestView::OpenArchive { path },
    ];
    let closing = seq![RequestView::LookupClass { name: entry_class }];
    assert(asked(d, head) =~= opened);
    assert(archive_requests(items) + closing =~= archive_requests(items).push(closing[0]));
    lemma_archive_registrations(items);
    lemma_registrations_in_two_parts(opened, archive_requests(items) + closing);
    lemma_registrations_in_two_parts(archive_requests(items), closing);
    lemma_nothing_registered(opened);
    lemma_nothing_registered(closing);
    assert(Seq::<ClassEntry>::empty() + (archive_classes(items) + Seq::<ClassEntry>::empty())
        =~= archive_classes(items));
}

/// Of the items of an archive, as many are registered as hold a class: each
/// item either holds a class, and is registered, or holds none, and is
/// passed over.
pub proof fn lemma_archive_classes_counted(items: Seq<ArchiveItem>)
    ensures
        archive_classes(items).len() == items.filter(
            |item: ArchiveItem| archive_item_class(item) is Some,
        ).len(),
        archive_classes(items).len() + items.filter(
            |item: ArchiveItem| archive_item_class(item) is None,
        ).len() == items.len(),
    decreases items.len(),
{
    reveal(Seq::filter);
    if items.len() > 0 {
        lemma_archive_classes_counted(items.drop_last());
    }
}

/// What a walk finds in a directory tree: an entry with its base name, its
/// path, whether it is a directory, and its content, or an entry that could
/// not be reached.
pub enum TreeItem {
    Node { name: Seq<char>, path: Seq<char>, is_dir: bool, bytes: Seq<u8> },
    Inaccessible,
}

/// The class that an item of a directory tree holds, if it holds one: its
/// content, under the stem of its base name.
pub open spec fn tree_item_class(item: TreeItem) -> Option<ClassEntry> {
    match item {
        TreeItem::Node { name, path, is_dir, bytes } => match class_name_in_tree(name, is_dir) {
            Some(stem) => Some(ClassEntry { name: stem, bytes }),
            None => None,
        },
        TreeItem::Inaccessible => None,
    }
}

/// The classes that the items of a directory tree hold, first to last: those
/// of the entries that are no directories and whose base names end with the
/// class-file suffix, each under the stem of its base name.
pub open spec fn tree_classes(items: Seq<TreeItem>) -> Seq<ClassEntry> {
    items.filter_map(|item: TreeItem| tree_item_class(item))
}

/// What the environment answers as the driver comes to one item of a
/// directory tree, when each class file is read, parsed and registered
/// without fault.
pub open spec fn tree_item_answers(item: TreeItem) -> Seq<ResponseView> {
    match item {
        TreeItem::Node { name, path, is_dir, bytes } => if class_name_in_tree(name, is_dir)
            is Some {
            seq![
                ResponseView::Node { name, path, is_dir },
                ResponseView::Content { bytes },
                ResponseView::Registered,
            ]
        } else {
            seq![ResponseView::Node { name, path, is_dir }]
        },
        TreeItem::Inaccessible => seq![ResponseView::Skipped],
    }
}

/// What the environment answers as the driver walks a directory tree of the
/// given items, when each class file is read, parsed and registered without
/// fault.
pub open spec fn tree_answers(items: Seq<TreeItem>) -> Seq<ResponseView>
    decreases items.len(),
{
    if items.len() == 0 {
        Seq::empty()
    } else {
        tree_answers(items.drop_last()) + tree_item_answers(items.last())
    }
}

/// What the driver asks for as it comes to one item of a directory tree: if
/// the item holds a class, that its file be read and that the class be
/// registered; and then the next entry.
pub open spec fn tree_item_requests(item: TreeItem) -> Seq<RequestView> {
    match item {
        TreeItem::Node { name, path, is_dir, bytes } => match class_name_in_tree(name, is_dir) {
            Some(stem) => seq![
                RequestView::ReadFile { path },
                RequestView::Register { class: ClassEntry { name: stem, bytes } },
                RequestView::NextEntry,
            ],
            None => seq![RequestView::NextEntry],
        },
        TreeItem::Inaccessible => seq![RequestView::NextEntry],
    }
}

/// What the driver asks for as it walks a directory tree of the given items.
pub open spec fn tree_requests(items: Seq<TreeItem>) -> Seq<RequestView>
    decreases items.len(),
{
    if items.len() == 0 {
        Seq::empty()
    } else {
        tree_requests(items.drop_last()) + tree_item_requests(items.last())
    }
}

/// Over the items of a directory tree the driver asks, item by item, for
/// each class file to be read and registered before it asks for the next
/// entry, and is then ready for the next item.
pub proof fn lemma_tree_scan(d: DriverView, root: Seq<char>, items: Seq<TreeItem>)
    requires
        d.phase is Scanning,
        d.locator == Some(LocatorView::DirectoryTree(root)),
    ensures
        asked(d, tree_answers(items)) == tree_requests(items),
        reached(d, tree_answers(items)) == d,
    decreases items.len(),
{
    if items.len() > 0 {
        let front = items.drop_last();
        lemma_tree_scan(d, root, front);
        lemma_run_in_two_parts(d, tree_answers(front), tree_item_answers(items.last()));
        match items.last() {
            TreeItem::Node { name, path, is_dir, bytes } => {
                let node = ResponseView::Node { name, path, is_dir };
                if class_name_in_tree(name, is_dir) is Some {
                    lemma_run_of_three(
                        d,
                        node,
                        ResponseView::Content { bytes },
                        ResponseView::Registered,
                    );
                } else {
                    lemma_run_of_one(d, node);
                }
            },
            TreeItem::Inaccessible => {
                lemma_run_of_one(d, ResponseView::Skipped);
            },
        }
    }
}

/// The requests of a walk of a directory tree hand over exactly the classes
/// that the tree's items hold, in their order.
pub proof fn lemma_tree_registrations(items: Seq<TreeItem>)
    ensures
        registrations(tree_requests(items)) == tree_classes(items),
    decreases items.len(),
{
    if items.len() > 0 {
        let front = items.drop_last();
        lemma_tree_registrations(front);
        lemma_registrations_in_two_parts(tree_requests(front), tree_item_requests(items.last()));
        lemma_registrations_of_one(RequestView::NextEntry);
        if let Some(class) = tree_item_class(items.last()) {
            let read = seq![RequestView::ReadFile { path: items.last()->path }];
            let register = seq![RequestView::Register { class }];
            let go_on = seq![RequestView::NextEntry];
            lemma_registrations_of_one(read[0]);
            lemma_registrations_of_one(register[0]);
            lemma_registrations_in_two_parts(read, register);
            lemma_registrations_in_two_parts(read + register, go_on);
            assert(read + register + go_on =~= tree_item_requests(items.last()));
            assert(Seq::<ClassEntry>::empty() + seq![class] + Seq::<ClassEntry>::empty()
                =~= seq![class]);
        } else {
            assert(tree_classes(front) + Seq::<ClassEntry>::empty() =~= tree_classes(front));
        }
    }
}

/// A run over a directory tree registers exactly the class files that the
/// walk of the tree comes to: one for each entry that is no directory and
/// whose base name ends with the class-file suffix, with the file's content,
/// under the stem of its base name, in the order of the walk, each as soon as
/// the walk comes to it. Neither the path of an entry nor its depth in the
/// tree enters into the name. The other entries, and those that could not be
/// reached, are passed over. The run then looks for the entry class.
pub proof fn lemma_tree_run(
    root: Seq<char>,
    entry_path: Seq<char>,
    entry_class: Seq<char>,
    items: Seq<TreeItem>,
)
    ensures
        ({
            let d = initial(Some(root), entry_path, entry_class);
            let answers = opening().push(ResponseView::Probed { kind: PathKind::Directory })
                + tree_answers(items).push(ResponseView::Exhausted);
            &&& asked(d, answers) == seq![
                RequestView::Bootstrap,
                RequestView::Probe { path: root },
                RequestView::OpenTree { root },
            ] + tree_requests(items).push(RequestView::LookupClass { name: entry_class })
            &&& registrations(asked(d, answers)) == tree_classes(items)
            &&& reached(d, answers).phase == PhaseView::ResolvingClass
            &&& reached(d, answers).locator == Some(LocatorView::DirectoryTree(root))
        }),
{
    let d = initial(Some(root), entry_path, entry_class);
    let probed = ResponseView::Probed { kind: PathKind::Directory };
    let head = opening().push(probed);
    let d2 = after_bootstrap(d).0;
    let d3 = next(d2, probed).0;
    lemma_run_opens(Some(root), entry_path, entry_class);
    lemma_run_of_one(d2, probed);
    lemma_run_in_two_parts(d, opening(), seq![probed]);
    assert(opening() + seq![probed] =~= head);
    let scan = tree_answers(items);
    lemma_tree_scan(d3, root, items);
    lemma_run_of_one(d3, ResponseView::Exhausted);
    lemma_run_in_two_parts(d3, scan, seq![ResponseView::Exhausted]);
    assert(scan + seq![ResponseView::Exhausted] =~= scan.push(ResponseView::Exhausted));
    lemma_run_in_two_parts(d, head, scan.push(ResponseView::Exhausted));
    let opened = seq![
        RequestView::Bootstrap,
        RequestView::Probe { path: root },
        RequestView::OpenTree { root },
    ];
    let closing = seq![RequestView::LookupClass { name: entry_class }];
    assert(asked(d, head) =~= opened);
    assert(tree_requests(items) + closing =~= tree_requests(items).push(closing[0]));
    lemma_tree_registrations(items);
    lemma_registrations_in_two_parts(opened, tree_requests(items) + closing);
    lemma_registrations_in_two_parts(tree_requests(items), closing);
    lemma_nothing_registered(opened);
    lemma_nothing_registered(closing);
    assert(Seq::<ClassEntry>::empty() + (tree_classes(items) + Seq::<ClassEntry>::empty())
        =~= tree_classes(items));
}

/// A second run over the same classpath, answered as the first was, leaves
/// the repository as the first run left it: the driver hands over the same
/// classes in the same order, and under each name the same class wins.
pub proof fn lemma_second_run_changes_nothing(
    base: Map<Seq<char>, Seq<u8>>,
    d: DriverView,
    answers: Seq<ResponseView>,
)
    ensures
        ({
            let handed = registrations(asked(d, answers));
            registered(registered(base, handed), handed) == registered(base, handed)
        }),
{
    lemma_registering_twice(base, registrations(asked(d, answers)));
}

} // verus!
