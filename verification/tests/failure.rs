use ocelotter_boot::failure::{ErrorClass, Failure, FailureKind};

fn failure(kind: FailureKind, subject: &str, detail: &str) -> Failure {
    Failure::new(kind, subject.to_string(), detail.to_string())
}

#[test]
fn new_failure_holds_what_it_was_given() {
    let f = failure(FailureKind::Malformed, "Foo.class", "bad magic");
    assert_eq!(f.kind, FailureKind::Malformed);
    assert_eq!(f.subject, "Foo.class");
    assert_eq!(f.detail, "bad magic");
}

#[test]
fn duplicate_is_equal() {
    let f = failure(FailureKind::Unreadable, "lib/Foo.class", "permission denied");
    assert_eq!(f.duplicate(), f);
}

#[test]
fn kinds_fall_into_their_families() {
    assert_eq!(FailureKind::ClasspathUnavailable.class(), ErrorClass::Classpath);
    assert_eq!(FailureKind::ClasspathUnsupported.class(), ErrorClass::Classpath);
    assert_eq!(FailureKind::Unreadable.class(), ErrorClass::Discovery);
    assert_eq!(FailureKind::Malformed.class(), ErrorClass::Parse);
    assert_eq!(FailureKind::EntryClassMissing.class(), ErrorClass::Resolution);
    assert_eq!(FailureKind::EntryMethodMissing.class(), ErrorClass::Resolution);
    assert_eq!(FailureKind::EngineFailed.class(), ErrorClass::Execution);
    assert_eq!(FailureKind::ResultNotInteger.class(), ErrorClass::Execution);
    assert_eq!(FailureKind::NoResult.class(), ErrorClass::Execution);
    assert_eq!(FailureKind::OutOfTurn.class(), ErrorClass::Protocol);
}

#[test]
fn message_of_unavailable_classpath() {
    assert_eq!(
        failure(FailureKind::ClasspathUnavailable, "/no/such", "No such file or directory")
            .message(),
        "Can't determine if /no/such is file or directory: No such file or directory"
    );
}

#[test]
fn message_of_unsupported_classpath() {
    assert_eq!(
        failure(FailureKind::ClasspathUnsupported, "/dev/null", "").message(),
        "Path /dev/null is neither file nor directory?!"
    );
}

#[test]
fn message_of_unreadable_file() {
    assert_eq!(
        failure(FailureKind::Unreadable, "Foo.class", "permission denied").message(),
        "Problem reading Foo.class: permission denied"
    );
}

#[test]
fn message_of_malformed_class() {
    assert_eq!(
        failure(FailureKind::Malformed, "Foo", "bad magic").message(),
        "Problem parsing Foo: bad magic"
    );
}

#[test]
fn message_of_missing_entry_class() {
    assert_eq!(
        failure(FailureKind::EntryClassMissing, "Foo", "").message(),
        "Error: Main class not found Foo"
    );
}

#[test]
fn message_of_missing_entry_method() {
    assert_eq!(
        failure(FailureKind::EntryMethodMissing, "Foo.main2:([Ljava/lang/String;)I", "")
            .message(),
        "Error: Main method not found Foo.main2:([Ljava/lang/String;)I"
    );
}

#[test]
fn message_of_engine_failure() {
    assert_eq!(
        failure(FailureKind::EngineFailed, "Foo", "stack underflow").message(),
        "Error executing Foo: stack underflow"
    );
}

#[test]
fn message_of_non_integer_result() {
    assert_eq!(
        failure(FailureKind::ResultNotInteger, "Foo", "").message(),
        "Error executing Foo - non-int value returned"
    );
}

#[test]
fn message_of_absent_result() {
    assert_eq!(
        failure(FailureKind::NoResult, "Foo", "").message(),
        "Error executing Foo - no value returned"
    );
}

#[test]
fn message_of_answer_out_of_turn() {
    assert_eq!(
        failure(FailureKind::OutOfTurn, "", "").message(),
        "Error: unexpected answer from the environment"
    );
}
