use ocelotter_boot::classpath::{ClasspathLocator, PathKind};
use ocelotter_boot::discovery::{
    admits_entry, discover_in_archive, discover_in_tree, DiscoveredClass,
};
use ocelotter_boot::failure::FailureKind;

#[test]
fn a_file_is_an_archive() {
    assert_eq!(
        ClasspathLocator::classify("lib/rt.jar".to_string(), PathKind::File),
        Ok(ClasspathLocator::ArchiveFile("lib/rt.jar".to_string()))
    );
}

#[test]
fn a_directory_is_a_tree() {
    assert_eq!(
        ClasspathLocator::classify("classes".to_string(), PathKind::Directory),
        Ok(ClasspathLocator::DirectoryTree("classes".to_string()))
    );
}

#[test]
fn anything_else_is_refused() {
    let refused = ClasspathLocator::classify("/dev/null".to_string(), PathKind::Other).unwrap_err();
    assert_eq!(refused.kind, FailureKind::ClasspathUnsupported);
    assert_eq!(refused.subject, "/dev/null");
    assert_eq!(refused.detail, "");
}

#[test]
fn locator_duplicate_is_equal() {
    for locator in [
        ClasspathLocator::Absent,
        ClasspathLocator::ArchiveFile("a.jar".to_string()),
        ClasspathLocator::DirectoryTree("dir".to_string()),
    ] {
        assert_eq!(locator.duplicate(), locator);
    }
}

#[test]
fn archive_entry_keeps_its_full_name() {
    assert_eq!(
        discover_in_archive("java/lang/Object.class".to_string(), vec![0xca, 0xfe]),
        Some(DiscoveredClass {
            name: "java/lang/Object.class".to_string(),
            bytes: vec![0xca, 0xfe]
        })
    );
}

#[test]
fn archive_entry_that_is_no_class_is_passed_over() {
    assert_eq!(discover_in_archive("META-INF/MANIFEST.MF".to_string(), vec![1, 2, 3]), None);
    assert_eq!(discover_in_archive("java/lang/".to_string(), vec![]), None);
    assert_eq!(discover_in_archive("".to_string(), vec![]), None);
}

#[test]
fn walk_admits_directories_and_class_files() {
    assert!(admits_entry("classes", true));
    assert!(admits_entry("Foo.class", false));
    assert!(admits_entry("odd.class", true));
    assert!(!admits_entry("Foo.java", false));
    assert!(!admits_entry("README", false));
    assert!(!admits_entry("", false));
}

#[test]
fn tree_file_is_named_by_its_stem() {
    assert_eq!(discover_in_tree("Foo.class", false), Some("Foo".to_string()));
    assert_eq!(discover_in_tree("a.b.class", false), Some("a.b".to_string()));
    assert_eq!(discover_in_tree(".class", false), Some(".class".to_string()));
}

#[test]
fn tree_entry_that_is_no_class_file_is_passed_over() {
    assert_eq!(discover_in_tree("Foo.java", false), None);
    assert_eq!(discover_in_tree("pkg", true), None);
    assert_eq!(discover_in_tree("odd.class", true), None);
}

#[test]
fn whatever_holds_a_class_is_admitted() {
    for name in ["Foo.class", "Foo", ".class", "x.jar", "", "pkg.class"] {
        for is_dir in [false, true] {
            if discover_in_tree(name, is_dir).is_some() || is_dir {
                assert!(admits_entry(name, is_dir));
            }
        }
    }
}
