use ocelotter_boot::classpath::{ClasspathLocator, PathKind};
use ocelotter_boot::discovery::DiscoveredClass;
use ocelotter_boot::driver::{Driver, Stage};
use ocelotter_boot::failure::{ErrorClass, Failure, FailureKind};
use ocelotter_boot::protocol::{EngineOutcome, Request, Response, INITIAL_FRAME_SLOTS};
use ocelotter_boot::registry::Registry;

const MAGIC: [u8; 4] = [0xca, 0xfe, 0xba, 0xbe];
const KEY: &str = "Foo.main2:([Ljava/lang/String;)I";

/// The bytes of a class that the stand-in parser accepts.
fn class_bytes(tag: u8) -> Vec<u8> {
    vec![0xca, 0xfe, 0xba, 0xbe, tag]
}

/// One entry of a stand-in directory tree, in the order of a walk.
struct Node {
    name: &'static str,
    path: &'static str,
    is_dir: bool,
}

/// A stand-in for everything outside the driver: a file system, an archive,
/// a parser, a repository and an execution engine.
struct World {
    builtins: Vec<(&'static str, Vec<u8>)>,
    kinds: Vec<(&'static str, PathKind)>,
    files: Vec<(&'static str, Vec<u8>)>,
    archive: Option<Vec<Option<(&'static str, Vec<u8>)>>>,
    tree: Vec<Option<Node>>,
    methods: Vec<(&'static str, &'static str, Option<EngineOutcome>)>,
    repository: Registry,
    cursor: usize,
    in_tree: bool,
    entry_class: Option<String>,
    requests: Vec<Request>,
}

impl World {
    fn new() -> World {
        World {
            builtins: vec![("java/lang/Object", class_bytes(0))],
            kinds: vec![],
            files: vec![],
            archive: None,
            tree: vec![],
            methods: vec![],
            repository: Registry::new(),
            cursor: 0,
            in_tree: false,
            entry_class: None,
            requests: vec![],
        }
    }

    fn next_entry(&mut self) -> Response {
        let at = self.cursor;
        self.cursor += 1;
        if self.in_tree {
            match self.tree.get(at) {
                None => Response::Exhausted,
                Some(None) => Response::Skipped,
                Some(Some(node)) => Response::Node {
                    name: node.name.to_string(),
                    path: node.path.to_string(),
                    is_dir: node.is_dir,
                },
            }
        } else {
            match self.archive.as_ref().unwrap().get(at) {
                None => Response::Exhausted,
                Some(None) => Response::Skipped,
                Some(Some((name, bytes))) => {
                    Response::Entry { name: name.to_string(), bytes: bytes.clone() }
                }
            }
        }
    }

    fn perform(&mut self, request: &Request) -> Response {
        match request {
            Request::Bootstrap => {
                for (name, bytes) in &self.builtins {
                    self.repository
                        .register(DiscoveredClass { name: name.to_string(), bytes: bytes.clone() });
                }
                Response::Bootstrapped
            }
            Request::Probe { path } => match self.kinds.iter().find(|(p, _)| p == path) {
                Some((_, kind)) => Response::Probed { kind: *kind },
                None => Response::Failed { reason: "No such file or directory".to_string() },
            },
            Request::OpenArchive { .. } => {
                self.cursor = 0;
                self.in_tree = false;
                if self.archive.is_none() {
                    return Response::Failed { reason: "invalid Zip archive".to_string() };
                }
                self.next_entry()
            }
            Request::OpenTree { .. } => {
                self.cursor = 0;
                self.in_tree = true;
                self.next_entry()
            }
            Request::NextEntry => self.next_entry(),
            Request::ReadFile { path } => match self.files.iter().find(|(p, _)| p == path) {
                Some((_, bytes)) => Response::Content { bytes: bytes.clone() },
                None => Response::Failed { reason: "No such file or directory".to_string() },
            },
            Request::Register { class } => {
                if class.bytes.starts_with(&MAGIC) {
                    self.repository.register(class.clone());
                    Response::Registered
                } else {
                    Response::Failed { reason: "bad magic".to_string() }
                }
            }
            Request::LookupClass { name } => {
                if self.repository.contains(name) {
                    self.entry_class = Some(name.clone());
                    Response::Found
                } else {
                    Response::Missing
                }
            }
            Request::LookupMethod { class_name, key } => {
                assert_eq!(self.entry_class.as_ref(), Some(class_name));
                if self.methods.iter().any(|(c, k, _)| c == class_name && k == key) {
                    Response::Found
                } else {
                    Response::Missing
                }
            }
            Request::Execute { class_name, key, frame_slots } => {
                assert_eq!(*frame_slots, 5);
                let method =
                    self.methods.iter().find(|(c, k, _)| c == class_name && k == key).unwrap();
                match method.2 {
                    Some(outcome) => Response::Returned { outcome },
                    None => Response::Failed { reason: "stack underflow".to_string() },
                }
            }
            Request::Report { .. } | Request::Abort { .. } => unreachable!(),
        }
    }

    /// Runs the driver in this world to its end, and returns the last request.
    fn run(&mut self, driver: &mut Driver) -> Request {
        let mut answer = Response::Ready;
        loop {
            let request = driver.step(answer);
            self.requests.push(request.clone());
            if request.is_final() {
                return request;
            }
            answer = self.perform(&request);
        }
    }

    fn registered(&self) -> Vec<DiscoveredClass> {
        let mut classes = vec![];
        for request in &self.requests {
            if let Request::Register { class } = request {
                classes.push(class.clone());
            }
        }
        classes
    }
}

fn driver(classpath: Option<&str>, entry_path: &str, entry_class: &str) -> Driver {
    Driver::new(classpath.map(|p| p.to_string()), entry_path.to_string(), entry_class.to_string())
}

fn failure_of(request: &Request) -> &Failure {
    match request {
        Request::Abort { failure } => failure,
        other => panic!("the run did not fail: {:?}", other),
    }
}

fn foo_directory() -> World {
    let mut world = World::new();
    world.kinds = vec![("classes", PathKind::Directory)];
    world.tree = vec![
        Some(Node { name: "classes", path: "classes", is_dir: true }),
        Some(Node { name: "Foo.class", path: "classes/Foo.class", is_dir: false }),
    ];
    world.files = vec![("classes/Foo.class", class_bytes(1))];
    world
}

#[test]
fn runs_the_entry_method_of_a_class_in_a_directory() {
    let mut world = foo_directory();
    world.methods = vec![("Foo", KEY, Some(EngineOutcome::Integer(42)))];
    let mut d = driver(Some("classes"), "Foo.class", "Foo");
    let last = world.run(&mut d);
    assert_eq!(last, Request::Report { value: 42 });
    assert_eq!(d.result(), Some(42));
    assert_eq!(d.failure(), None);
    assert_eq!(d.stage(), Stage::Reported);
    assert!(d.is_finished());
    assert_eq!(
        world.requests,
        vec![
            Request::Bootstrap,
            Request::Probe { path: "classes".to_string() },
            Request::OpenTree { root: "classes".to_string() },
            Request::NextEntry,
            Request::ReadFile { path: "classes/Foo.class".to_string() },
            Request::Register {
                class: DiscoveredClass { name: "Foo".to_string(), bytes: class_bytes(1) }
            },
            Request::NextEntry,
            Request::LookupClass { name: "Foo".to_string() },
            Request::LookupMethod { class_name: "Foo".to_string(), key: KEY.to_string() },
            Request::Execute {
                class_name: "Foo".to_string(),
                key: KEY.to_string(),
                frame_slots: 5
            },
            Request::Report { value: 42 },
        ]
    );
}

#[test]
fn absent_entry_method_fails_the_run_and_is_named() {
    let mut world = foo_directory();
    let mut d = driver(Some("classes"), "Foo.class", "Foo");
    let last = world.run(&mut d);
    let failure = failure_of(&last);
    assert_eq!(failure.kind, FailureKind::EntryMethodMissing);
    assert_eq!(failure.kind.class(), ErrorClass::Resolution);
    assert_eq!(failure.subject, "Foo.main2:([Ljava/lang/String;)I");
    assert_eq!(failure.message(), "Error: Main method not found Foo.main2:([Ljava/lang/String;)I");
    assert_eq!(d.stage(), Stage::Scanned);
    assert_eq!(d.result(), None);
    assert_eq!(d.failure().as_ref(), Some(failure));
    assert!(world.requests.iter().all(|r| !matches!(r, Request::Execute { .. })));
}

#[test]
fn nonexistent_classpath_ends_the_run_before_any_scan() {
    let mut world = foo_directory();
    let mut d = driver(Some("/no/such/place"), "Foo.class", "Foo");
    let last = world.run(&mut d);
    let failure = failure_of(&last);
    assert_eq!(failure.kind, FailureKind::ClasspathUnavailable);
    assert_eq!(failure.kind.class(), ErrorClass::Classpath);
    assert_eq!(failure.subject, "/no/such/place");
    assert_eq!(failure.detail, "No such file or directory");
    assert_eq!(
        world.requests,
        vec![
            Request::Bootstrap,
            Request::Probe { path: "/no/such/place".to_string() },
            Request::Abort { failure: failure.duplicate() },
        ]
    );
    assert!(world.registered().is_empty());
    assert_eq!(world.repository.len(), 1);
    assert_eq!(d.stage(), Stage::Bootstrapped);
    assert_eq!(d.locator(), None);
}

#[test]
fn classpath_that_is_neither_file_nor_directory_is_refused() {
    let mut world = World::new();
    world.kinds = vec![("/dev/null", PathKind::Other)];
    let mut d = driver(Some("/dev/null"), "Foo.class", "Foo");
    let last = world.run(&mut d);
    let failure = failure_of(&last);
    assert_eq!(failure.kind, FailureKind::ClasspathUnsupported);
    assert_eq!(failure.subject, "/dev/null");
    assert_eq!(failure.message(), "Path /dev/null is neither file nor directory?!");
    assert_eq!(world.requests.len(), 3);
    assert_eq!(d.locator(), None);
}

#[test]
fn without_classpath_exactly_one_class_is_registered() {
    let mut world = World::new();
    world.files = vec![("Foo.class", class_bytes(7))];
    world.methods = vec![(
        "Foo.class",
        "Foo.class.main2:([Ljava/lang/String;)I",
        Some(EngineOutcome::Integer(3)),
    )];
    let mut d = driver(None, "Foo.class", "Foo.class");
    let last = world.run(&mut d);
    assert_eq!(last, Request::Report { value: 3 });
    assert_eq!(
        world.registered(),
        vec![DiscoveredClass { name: "Foo.class".to_string(), bytes: class_bytes(7) }]
    );
    assert_eq!(d.locator(), Some(ClasspathLocator::Absent));
    assert_eq!(
        world.requests[..4],
        [
            Request::Bootstrap,
            Request::ReadFile { path: "Foo.class".to_string() },
            Request::Register {
                class: DiscoveredClass { name: "Foo.class".to_string(), bytes: class_bytes(7) }
            },
            Request::LookupClass { name: "Foo.class".to_string() },
        ]
    );
    assert!(world.requests.iter().all(|r| !matches!(
        r,
        Request::Probe { .. }
            | Request::OpenArchive { .. }
            | Request::OpenTree { .. }
            | Request::NextEntry
    )));
}

#[test]
fn without_classpath_resolution_succeeds_only_with_the_entry_method() {
    for has_method in [false, true] {
        let mut d = driver(None, "dir/Foo.class", "Foo");
        let requests = d.replay(vec![
            Response::Ready,
            Response::Bootstrapped,
            Response::Content { bytes: class_bytes(1) },
            Response::Registered,
            Response::Found,
            if has_method { Response::Found } else { Response::Missing },
        ]);
        assert_eq!(requests.len(), 6);
        assert_eq!(requests[1], Request::ReadFile { path: "dir/Foo.class".to_string() });
        assert_eq!(
            requests[2],
            Request::Register {
                class: DiscoveredClass { name: "dir/Foo.class".to_string(), bytes: class_bytes(1) }
            }
        );
        assert_eq!(
            requests[4],
            Request::LookupMethod { class_name: "Foo".to_string(), key: KEY.to_string() }
        );
        assert_eq!(matches!(requests[5], Request::Execute { .. }), has_method);
        assert_eq!(matches!(requests[5], Request::Abort { .. }), !has_method);
        assert_eq!(d.stage(), if has_method { Stage::EntryResolved } else { Stage::Scanned });
    }
}

#[test]
fn unreadable_entry_class_file_fails_the_run() {
    let mut world = World::new();
    let mut d = driver(None, "Missing.class", "Missing");
    let last = world.run(&mut d);
    let failure = failure_of(&last);
    assert_eq!(failure.kind, FailureKind::Unreadable);
    assert_eq!(failure.kind.class(), ErrorClass::Discovery);
    assert_eq!(failure.subject, "Missing.class");
    assert_eq!(failure.message(), "Problem reading Missing.class: No such file or directory");
    assert!(world.registered().is_empty());
    assert_eq!(d.stage(), Stage::Bootstrapped);
}

fn jar() -> World {
    let mut world = World::new();
    world.kinds = vec![("lib/app.jar", PathKind::File)];
    world.archive = Some(vec![
        Some(("META-INF/", vec![])),
        Some(("META-INF/MANIFEST.MF", vec![1, 2])),
        Some(("Foo.class", class_bytes(1))),
        Some(("pkg/", vec![])),
        None,
        Some(("pkg/Bar.class", class_bytes(2))),
        Some(("pkg/Bar.class.orig", class_bytes(3))),
        Some(("pkg/deep/Baz.class", class_bytes(4))),
    ]);
    world.methods = vec![(
        "Foo.class",
        "Foo.class.main2:([Ljava/lang/String;)I",
        Some(EngineOutcome::Integer(-1)),
    )];
    world
}

#[test]
fn archive_registers_exactly_its_class_entries_under_their_full_names() {
    let mut world = jar();
    let mut d = driver(Some("lib/app.jar"), "Foo.class", "Foo.class");
    let last = world.run(&mut d);
    assert_eq!(last, Request::Report { value: -1 });
    assert_eq!(
        world.registered(),
        vec![
            DiscoveredClass { name: "Foo.class".to_string(), bytes: class_bytes(1) },
            DiscoveredClass { name: "pkg/Bar.class".to_string(), bytes: class_bytes(2) },
            DiscoveredClass { name: "pkg/deep/Baz.class".to_string(), bytes: class_bytes(4) },
        ]
    );
    assert_eq!(world.repository.len(), 4);
    assert!(world.repository.contains("pkg/deep/Baz.class"));
    assert!(!world.repository.contains("Baz"));
    assert!(!world.repository.contains("META-INF/MANIFEST.MF"));
    assert_eq!(d.locator(), Some(ClasspathLocator::ArchiveFile("lib/app.jar".to_string())));
    assert_eq!(world.requests[2], Request::OpenArchive { path: "lib/app.jar".to_string() });
    assert!(world.requests.iter().all(|r| !matches!(
        r,
        Request::OpenTree { .. } | Request::ReadFile { .. }
    )));
}

#[test]
fn archive_without_entries_registers_nothing() {
    let mut world = World::new();
    world.kinds = vec![("empty.jar", PathKind::File)];
    world.archive = Some(vec![]);
    let mut d = driver(Some("empty.jar"), "Foo.class", "Foo");
    let last = world.run(&mut d);
    assert_eq!(failure_of(&last).kind, FailureKind::EntryClassMissing);
    assert_eq!(failure_of(&last).subject, "Foo");
    assert_eq!(failure_of(&last).message(), "Error: Main class not found Foo");
    assert!(world.registered().is_empty());
    assert_eq!(d.stage(), Stage::Scanned);
}

#[test]
fn archive_that_cannot_be_opened_fails_the_run() {
    let mut world = World::new();
    world.kinds = vec![("broken.jar", PathKind::File)];
    let mut d = driver(Some("broken.jar"), "Foo.class", "Foo");
    let last = world.run(&mut d);
    let failure = failure_of(&last);
    assert_eq!(failure.kind, FailureKind::Unreadable);
    assert_eq!(failure.subject, "broken.jar");
    assert_eq!(failure.detail, "invalid Zip archive");
    assert_eq!(d.stage(), Stage::Bootstrapped);
}

#[test]
fn undecodable_archive_entries_are_dropped_not_fatal() {
    let mut world = World::new();
    world.kinds = vec![("a.jar", PathKind::File)];
    world.archive = Some(vec![None, Some(("A.class", class_bytes(1))), None, None]);
    let mut d = driver(Some("a.jar"), "A.class", "A.class");
    let last = world.run(&mut d);
    assert_eq!(failure_of(&last).kind, FailureKind::EntryMethodMissing);
    assert_eq!(
        world.registered(),
        vec![DiscoveredClass { name: "A.class".to_string(), bytes: class_bytes(1) }]
    );
}

fn nested_tree() -> World {
    let mut world = World::new();
    world.kinds = vec![("out", PathKind::Directory)];
    world.tree = vec![
        Some(Node { name: "out", path: "out", is_dir: true }),
        Some(Node { name: "Top.class", path: "out/Top.class", is_dir: false }),
        Some(Node { name: "notes.txt", path: "out/notes.txt", is_dir: false }),
        Some(Node { name: "com", path: "out/com", is_dir: true }),
        None,
        Some(Node { name: "acme", path: "out/com/acme", is_dir: true }),
        Some(Node { name: "Deep.class", path: "out/com/acme/Deep.class", is_dir: false }),
        Some(Node { name: "odd.class", path: "out/com/odd.class", is_dir: true }),
        Some(Node { name: "In.ner.class", path: "out/com/odd.class/In.ner.class", is_dir: false }),
        Some(Node { name: "Deep.java", path: "out/com/acme/Deep.java", is_dir: false }),
    ];
    world.files = vec![
        ("out/Top.class", class_bytes(1)),
        ("out/com/acme/Deep.class", class_bytes(2)),
        ("out/com/odd.class/In.ner.class", class_bytes(3)),
    ];
    world
}

#[test]
fn tree_registers_its_class_files_by_stem_whatever_their_depth() {
    let mut world = nested_tree();
    world.methods =
        vec![("Deep", "Deep.main2:([Ljava/lang/String;)I", Some(EngineOutcome::Integer(0)))];
    let mut d = driver(Some("out"), "Deep.class", "Deep");
    let last = world.run(&mut d);
    assert_eq!(last, Request::Report { value: 0 });
    assert_eq!(
        world.registered(),
        vec![
            DiscoveredClass { name: "Top".to_string(), bytes: class_bytes(1) },
            DiscoveredClass { name: "Deep".to_string(), bytes: class_bytes(2) },
            DiscoveredClass { name: "In.ner".to_string(), bytes: class_bytes(3) },
        ]
    );
    assert!(world.repository.contains("Deep"));
    assert!(!world.repository.contains("com/acme/Deep"));
    assert!(!world.repository.contains("Deep.class"));
    assert_eq!(d.locator(), Some(ClasspathLocator::DirectoryTree("out".to_string())));
    assert!(world.requests.iter().all(|r| !matches!(r, Request::OpenArchive { .. })));
}

#[test]
fn directory_named_like_a_class_is_not_read() {
    let mut world = nested_tree();
    let mut d = driver(Some("out"), "Top.class", "Top");
    world.run(&mut d);
    assert!(!world.requests.contains(&Request::ReadFile { path: "out/com/odd.class".to_string() }));
    assert!(!world.repository.contains("odd"));
}

#[test]
fn unreadable_class_file_in_a_tree_fails_the_whole_run() {
    let mut world = nested_tree();
    world.files.remove(1);
    let mut d = driver(Some("out"), "Top.class", "Top");
    let last = world.run(&mut d);
    let failure = failure_of(&last);
    assert_eq!(failure.kind, FailureKind::Unreadable);
    assert_eq!(failure.subject, "out/com/acme/Deep.class");
    assert_eq!(
        world.registered(),
        vec![DiscoveredClass { name: "Top".to_string(), bytes: class_bytes(1) }]
    );
    assert!(!world.requests.contains(&Request::LookupClass { name: "Top".to_string() }));
    assert_eq!(d.stage(), Stage::Bootstrapped);
}

#[test]
fn malformed_class_fails_the_whole_run() {
    let mut world = nested_tree();
    world.files[0].1 = vec![0, 1, 2, 3];
    let mut d = driver(Some("out"), "Top.class", "Top");
    let last = world.run(&mut d);
    let failure = failure_of(&last);
    assert_eq!(failure.kind, FailureKind::Malformed);
    assert_eq!(failure.kind.class(), ErrorClass::Parse);
    assert_eq!(failure.subject, "Top");
    assert_eq!(failure.message(), "Problem parsing Top: bad magic");
    assert!(world.registered().len() == 1);
    assert_eq!(world.repository.len(), 1);
    assert_eq!(d.stage(), Stage::Bootstrapped);
}

#[test]
fn later_discovery_of_a_name_supersedes_the_earlier() {
    let mut world = World::new();
    world.kinds = vec![("out", PathKind::Directory)];
    world.tree = vec![
        Some(Node { name: "out", path: "out", is_dir: true }),
        Some(Node { name: "Foo.class", path: "out/a/Foo.class", is_dir: false }),
        Some(Node { name: "Bar.class", path: "out/a/Bar.class", is_dir: false }),
        Some(Node { name: "Foo.class", path: "out/b/Foo.class", is_dir: false }),
    ];
    world.files = vec![
        ("out/a/Foo.class", class_bytes(1)),
        ("out/a/Bar.class", class_bytes(2)),
        ("out/b/Foo.class", class_bytes(3)),
    ];
    world.methods = vec![("Foo", KEY, Some(EngineOutcome::Integer(1)))];
    let mut d = driver(Some("out"), "Foo.class", "Foo");
    assert_eq!(world.run(&mut d), Request::Report { value: 1 });
    assert_eq!(world.registered().len(), 3);
    assert_eq!(world.repository.len(), 3);
    assert_eq!(world.repository.lookup("Foo"), Some(&class_bytes(3)));
    assert_eq!(world.repository.lookup("Bar"), Some(&class_bytes(2)));
}

#[test]
fn user_class_may_shadow_a_built_in() {
    let mut world = World::new();
    world.builtins = vec![("Object", class_bytes(0)), ("String", class_bytes(1))];
    world.kinds = vec![("out", PathKind::Directory)];
    world.tree = vec![
        Some(Node { name: "out", path: "out", is_dir: true }),
        Some(Node { name: "Object.class", path: "out/Object.class", is_dir: false }),
    ];
    world.files = vec![("out/Object.class", class_bytes(9))];
    let mut d = driver(Some("out"), "Object.class", "Object");
    world.run(&mut d);
    assert_eq!(world.repository.len(), 2);
    assert_eq!(world.repository.lookup("Object"), Some(&class_bytes(9)));
    assert_eq!(world.repository.lookup("String"), Some(&class_bytes(1)));
}

#[test]
fn second_run_over_the_same_classpath_changes_nothing() {
    let mut world = nested_tree();
    world.methods =
        vec![("Top", "Top.main2:([Ljava/lang/String;)I", Some(EngineOutcome::Integer(8)))];
    let mut first = driver(Some("out"), "Top.class", "Top");
    assert_eq!(world.run(&mut first), Request::Report { value: 8 });
    let names = ["Top", "Deep", "In.ner", "java/lang/Object", "odd", "Nope"];
    let after_one: Vec<Option<Vec<u8>>> =
        names.iter().map(|n| world.repository.lookup(n).cloned()).collect();
    let count = world.repository.len();
    let asked_once = world.requests.clone();
    world.requests.clear();
    let mut second = driver(Some("out"), "Top.class", "Top");
    assert_eq!(world.run(&mut second), Request::Report { value: 8 });
    let after_two: Vec<Option<Vec<u8>>> =
        names.iter().map(|n| world.repository.lookup(n).cloned()).collect();
    assert_eq!(after_one, after_two);
    assert_eq!(world.repository.len(), count);
    assert_eq!(world.requests, asked_once);
}

#[test]
fn missing_entry_class_fails_the_run() {
    let mut world = foo_directory();
    let mut d = driver(Some("classes"), "Bar.class", "Bar");
    let last = world.run(&mut d);
    let failure = failure_of(&last);
    assert_eq!(failure.kind, FailureKind::EntryClassMissing);
    assert_eq!(failure.kind.class(), ErrorClass::Resolution);
    assert_eq!(failure.subject, "Bar");
    assert_eq!(d.stage(), Stage::Scanned);
    assert!(world.requests.iter().all(|r| !matches!(r, Request::LookupMethod { .. })));
}

#[test]
fn non_integer_result_fails_the_run() {
    let mut world = foo_directory();
    world.methods = vec![("Foo", KEY, Some(EngineOutcome::NonInteger))];
    let mut d = driver(Some("classes"), "Foo.class", "Foo");
    let last = world.run(&mut d);
    let failure = failure_of(&last);
    assert_eq!(failure.kind, FailureKind::ResultNotInteger);
    assert_eq!(failure.kind.class(), ErrorClass::Execution);
    assert_eq!(failure.message(), "Error executing Foo - non-int value returned");
    assert_eq!(d.stage(), Stage::Executed);
    assert_eq!(d.result(), None);
}

#[test]
fn absent_result_fails_the_run() {
    let mut world = foo_directory();
    world.methods = vec![("Foo", KEY, Some(EngineOutcome::Nothing))];
    let mut d = driver(Some("classes"), "Foo.class", "Foo");
    let last = world.run(&mut d);
    let failure = failure_of(&last);
    assert_eq!(failure.kind, FailureKind::NoResult);
    assert_eq!(failure.message(), "Error executing Foo - no value returned");
    assert_eq!(d.stage(), Stage::Executed);
}

#[test]
fn engine_failure_fails_the_run() {
    let mut world = foo_directory();
    world.methods = vec![("Foo", KEY, None)];
    let mut d = driver(Some("classes"), "Foo.class", "Foo");
    let last = world.run(&mut d);
    let failure = failure_of(&last);
    assert_eq!(failure.kind, FailureKind::EngineFailed);
    assert_eq!(failure.kind.class(), ErrorClass::Execution);
    assert_eq!(failure.message(), "Error executing Foo: stack underflow");
    assert_eq!(d.stage(), Stage::EntryResolved);
}

#[test]
fn extreme_integers_are_reported_as_they_are() {
    for value in [i32::MIN, -1, 0, 1, i32::MAX] {
        let mut world = foo_directory();
        world.methods = vec![("Foo", KEY, Some(EngineOutcome::Integer(value)))];
        let mut d = driver(Some("classes"), "Foo.class", "Foo");
        assert_eq!(world.run(&mut d), Request::Report { value });
        assert_eq!(d.result(), Some(value));
    }
}

#[test]
fn stages_follow_each_other_in_order() {
    let mut d = driver(Some("classes"), "Foo.class", "Foo");
    assert_eq!(d.stage(), Stage::Uninitialized);
    assert!(!d.is_finished());
    let script = vec![
        (Response::Ready, Stage::Uninitialized),
        (Response::Bootstrapped, Stage::Bootstrapped),
        (Response::Probed { kind: PathKind::Directory }, Stage::Bootstrapped),
        (
            Response::Node {
                name: "Foo.class".to_string(),
                path: "classes/Foo.class".to_string(),
                is_dir: false,
            },
            Stage::Bootstrapped,
        ),
        (Response::Content { bytes: class_bytes(1) }, Stage::Bootstrapped),
        (Response::Registered, Stage::Bootstrapped),
        (Response::Exhausted, Stage::Scanned),
        (Response::Found, Stage::Scanned),
        (Response::Found, Stage::EntryResolved),
        (Response::Returned { outcome: EngineOutcome::Integer(42) }, Stage::Reported),
    ];
    for (answer, stage) in script {
        d.step(answer);
        assert_eq!(d.stage(), stage);
    }
    assert!(d.is_finished());
}

#[test]
fn first_request_is_for_the_built_in_classes() {
    for classpath in [None, Some("x")] {
        let mut d = driver(classpath, "Foo.class", "Foo");
        assert_eq!(d.step(Response::Ready), Request::Bootstrap);
        assert_eq!(d.stage(), Stage::Uninitialized);
        assert_eq!(d.locator(), None);
    }
}

#[test]
fn answer_out_of_turn_fails_the_run() {
    let mut d = driver(Some("classes"), "Foo.class", "Foo");
    let request = d.step(Response::Registered);
    let failure = failure_of(&request);
    assert_eq!(failure.kind, FailureKind::OutOfTurn);
    assert_eq!(failure.kind.class(), ErrorClass::Protocol);
    assert_eq!(failure.subject, "");
    assert_eq!(d.stage(), Stage::Uninitialized);
    assert!(d.is_finished());
}

#[test]
fn answer_out_of_turn_in_every_waiting_state() {
    let progress = vec![
        Response::Ready,
        Response::Bootstrapped,
        Response::Probed { kind: PathKind::File },
        Response::Entry { name: "A.class".to_string(), bytes: class_bytes(1) },
        Response::Registered,
        Response::Exhausted,
        Response::Found,
        Response::Found,
    ];
    let stages = [
        Stage::Uninitialized,
        Stage::Uninitialized,
        Stage::Bootstrapped,
        Stage::Bootstrapped,
        Stage::Bootstrapped,
        Stage::Bootstrapped,
        Stage::Scanned,
        Stage::Scanned,
        Stage::EntryResolved,
    ];
    for upto in 0..=progress.len() {
        let mut d = driver(Some("a.jar"), "A.class", "A");
        d.replay(progress[..upto].to_vec());
        assert!(!d.is_finished());
        let request = d.step(Response::Content { bytes: vec![] });
        assert_eq!(failure_of(&request).kind, FailureKind::OutOfTurn, "after {} answers", upto);
        assert_eq!(d.stage(), stages[upto]);
    }
}

#[test]
fn tree_entry_is_out_of_turn_in_an_archive_and_archive_entry_in_a_tree() {
    let mut d = driver(Some("a.jar"), "A.class", "A");
    d.replay(vec![
        Response::Ready,
        Response::Bootstrapped,
        Response::Probed { kind: PathKind::File },
    ]);
    let request = d.step(Response::Node {
        name: "A.class".to_string(),
        path: "A.class".to_string(),
        is_dir: false,
    });
    assert_eq!(failure_of(&request).kind, FailureKind::OutOfTurn);

    let mut d = driver(Some("dir"), "A.class", "A");
    d.replay(vec![
        Response::Ready,
        Response::Bootstrapped,
        Response::Probed { kind: PathKind::Directory },
    ]);
    let request = d.step(Response::Entry { name: "A.class".to_string(), bytes: vec![] });
    assert_eq!(failure_of(&request).kind, FailureKind::OutOfTurn);
}

#[test]
fn ended_run_repeats_its_last_request() {
    let mut world = foo_directory();
    world.methods = vec![("Foo", KEY, Some(EngineOutcome::Integer(42)))];
    let mut d = driver(Some("classes"), "Foo.class", "Foo");
    world.run(&mut d);
    let later =
        [Response::Ready, Response::Registered, Response::Failed { reason: "x".to_string() }];
    for answer in later {
        assert_eq!(d.step(answer), Request::Report { value: 42 });
        assert_eq!(d.stage(), Stage::Reported);
    }

    let mut d = driver(Some("/no/such/place"), "Foo.class", "Foo");
    let last = World::new().run(&mut d);
    let later =
        [Response::Ready, Response::Probed { kind: PathKind::File }, Response::Exhausted];
    for answer in later {
        assert_eq!(d.step(answer), last);
        assert_eq!(d.stage(), Stage::Bootstrapped);
    }
}

#[test]
fn replay_makes_the_requests_that_the_steps_make() {
    let answers = vec![
        Response::Ready,
        Response::Bootstrapped,
        Response::Probed { kind: PathKind::File },
        Response::Entry { name: "x.txt".to_string(), bytes: vec![1] },
        Response::Skipped,
        Response::Entry { name: "p/A.class".to_string(), bytes: class_bytes(1) },
        Response::Registered,
        Response::Exhausted,
        Response::Missing,
        Response::Found,
    ];
    let mut stepped = driver(Some("a.jar"), "A.class", "A");
    let mut by_steps = vec![];
    for answer in answers.clone() {
        by_steps.push(stepped.step(answer));
    }
    let mut replayed = driver(Some("a.jar"), "A.class", "A");
    let by_replay = replayed.replay(answers);
    assert_eq!(by_steps, by_replay);
    assert_eq!(stepped.stage(), replayed.stage());
    assert_eq!(stepped.failure(), replayed.failure());
    assert_eq!(
        by_replay,
        vec![
            Request::Bootstrap,
            Request::Probe { path: "a.jar".to_string() },
            Request::OpenArchive { path: "a.jar".to_string() },
            Request::NextEntry,
            Request::NextEntry,
            Request::Register {
                class: DiscoveredClass { name: "p/A.class".to_string(), bytes: class_bytes(1) }
            },
            Request::NextEntry,
            Request::LookupClass { name: "A".to_string() },
            Request::Abort {
                failure: Failure::new(
                    FailureKind::EntryClassMissing,
                    "A".to_string(),
                    String::new()
                )
            },
            Request::Abort {
                failure: Failure::new(
                    FailureKind::EntryClassMissing,
                    "A".to_string(),
                    String::new()
                )
            },
        ]
    );
}

#[test]
fn replay_of_nothing_asks_nothing() {
    let mut d = driver(None, "Foo.class", "Foo");
    assert!(d.replay(vec![]).is_empty());
    assert_eq!(d.stage(), Stage::Uninitialized);
}

#[test]
fn only_report_and_abort_end_a_run() {
    assert!(Request::Report { value: 0 }.is_final());
    assert!(Request::Abort {
        failure: Failure::new(FailureKind::NoResult, String::new(), String::new())
    }
    .is_final());
    assert!(!Request::Bootstrap.is_final());
    assert!(!Request::NextEntry.is_final());
    assert!(!Request::Probe { path: String::new() }.is_final());
    assert!(!Request::Execute { class_name: String::new(), key: String::new(), frame_slots: 5 }
        .is_final());
}

#[test]
fn initial_frame_has_five_slots() {
    assert_eq!(INITIAL_FRAME_SLOTS, 5);
    let mut d = driver(None, "Foo.class", "Foo");
    let requests = d.replay(vec![
        Response::Ready,
        Response::Bootstrapped,
        Response::Content { bytes: vec![] },
        Response::Registered,
        Response::Found,
        Response::Found,
    ]);
    assert_eq!(
        requests[5],
        Request::Execute { class_name: "Foo".to_string(), key: KEY.to_string(), frame_slots: 5 }
    );
}
