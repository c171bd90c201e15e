use ocelotter_boot::discovery::DiscoveredClass;
use ocelotter_boot::registry::Registry;

fn class(name: &str, bytes: &[u8]) -> DiscoveredClass {
    DiscoveredClass { name: name.to_string(), bytes: bytes.to_vec() }
}

#[test]
fn new_registry_is_empty() {
    let registry = Registry::new();
    assert_eq!(registry.len(), 0);
    assert!(!registry.contains("Foo"));
    assert_eq!(registry.lookup("Foo"), None);
}

#[test]
fn registered_class_is_found() {
    let mut registry = Registry::new();
    registry.register(class("Foo", &[1, 2, 3]));
    assert_eq!(registry.len(), 1);
    assert!(registry.contains("Foo"));
    assert_eq!(registry.lookup("Foo"), Some(&vec![1, 2, 3]));
    assert_eq!(registry.lookup("Bar"), None);
    assert_eq!(registry.lookup("Fo"), None);
    assert_eq!(registry.lookup("Foo "), None);
}

#[test]
fn classes_of_different_names_stand_side_by_side() {
    let mut registry = Registry::new();
    registry.register(class("Foo", &[1]));
    registry.register(class("Bar", &[2]));
    registry.register(class("pkg/Baz.class", &[3]));
    assert_eq!(registry.len(), 3);
    assert_eq!(registry.lookup("Foo"), Some(&vec![1]));
    assert_eq!(registry.lookup("Bar"), Some(&vec![2]));
    assert_eq!(registry.lookup("pkg/Baz.class"), Some(&vec![3]));
}

#[test]
fn later_registration_supersedes_earlier() {
    let mut registry = Registry::new();
    registry.register(class("Foo", &[1]));
    registry.register(class("Bar", &[2]));
    registry.register(class("Foo", &[3, 3]));
    assert_eq!(registry.len(), 2);
    assert_eq!(registry.lookup("Foo"), Some(&vec![3, 3]));
    assert_eq!(registry.lookup("Bar"), Some(&vec![2]));
}

#[test]
fn user_class_shadows_built_in_of_the_same_name() {
    let mut registry = Registry::new();
    registry.register_all(vec![class("java/lang/Object", &[0]), class("java/lang/String", &[1])]);
    registry.register(class("java/lang/String", &[9]));
    assert_eq!(registry.len(), 2);
    assert_eq!(registry.lookup("java/lang/Object"), Some(&vec![0]));
    assert_eq!(registry.lookup("java/lang/String"), Some(&vec![9]));
}

#[test]
fn register_all_registers_in_order() {
    let mut registry = Registry::new();
    registry.register_all(vec![
        class("A", &[1]),
        class("B", &[2]),
        class("A", &[3]),
        class("C", &[4]),
        class("B", &[5]),
    ]);
    assert_eq!(registry.len(), 3);
    assert_eq!(registry.lookup("A"), Some(&vec![3]));
    assert_eq!(registry.lookup("B"), Some(&vec![5]));
    assert_eq!(registry.lookup("C"), Some(&vec![4]));
}

#[test]
fn register_all_of_nothing_changes_nothing() {
    let mut registry = Registry::new();
    registry.register(class("A", &[1]));
    registry.register_all(vec![]);
    assert_eq!(registry.len(), 1);
    assert_eq!(registry.lookup("A"), Some(&vec![1]));
}

#[test]
fn registering_twice_changes_nothing() {
    let classes = vec![
        class("A", &[1]),
        class("B", &[2]),
        class("A", &[3]),
        class("C", &[]),
    ];
    let mut once = Registry::new();
    once.register(class("Base", &[7]));
    once.register_all(classes.clone());
    let mut twice = Registry::new();
    twice.register(class("Base", &[7]));
    twice.register_all(classes.clone());
    twice.register_all(classes);
    assert_eq!(once.len(), twice.len());
    for name in ["A", "B", "C", "Base", "D"] {
        assert_eq!(once.lookup(name), twice.lookup(name));
    }
    assert_eq!(twice.lookup("A"), Some(&vec![3]));
}

#[test]
fn empty_name_and_empty_bytes_are_kept() {
    let mut registry = Registry::new();
    registry.register(class("", &[]));
    assert!(registry.contains(""));
    assert_eq!(registry.lookup(""), Some(&vec![]));
    assert_eq!(registry.len(), 1);
}
