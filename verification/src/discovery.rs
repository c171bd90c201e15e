//! What the two scanners find. An archive's entry is a class when its name
//! ends with the class-file suffix, and is registered under its full name
//! within the archive. In a directory tree, an entry that is no directory is
//! a class under the same condition, and is registered under the stem of its
//! base name: the directories above it do not enter into the name.

use crate::names::{file_stem, has_class_suffix, is_class_name, stem_of, text_view};
use vstd::prelude::*;

verus! {

/// A class that a scanner has found: the name under which it is registered,
/// and the bytes to parse.
#[derive(Clone, Debug, PartialEq, Eq)]
pub struct DiscoveredClass {
    pub name: String,
    pub bytes: Vec<u8>,
}

/// A [`DiscoveredClass`] as a mathematical value.
pub struct ClassEntry {
    pub name: Seq<char>,
    pub bytes: Seq<u8>,
}

impl View for DiscoveredClass {
    type V = ClassEntry;

    open spec fn view(&self) -> ClassEntry {
        ClassEntry { name: self.name@, bytes: self.bytes@ }
    }
}

/// The view of a class that may have been found.
pub open spec fn found_view(found: Option<DiscoveredClass>) -> Option<ClassEntry> {
    match found {
        Some(class) => Some(class@),
        None => None,
    }
}

/// The class that an archive's entry holds, if it holds one.
pub open spec fn class_in_archive(name: Seq<char>, bytes: Seq<u8>) -> Option<ClassEntry> {
    if is_class_name(name) {
        Some(ClassEntry { name, bytes })
    } else {
        None
    }
}

/// Whether a walk of a directory tree keeps an entry: directories, to descend
/// into them, and files named as classes.
pub open spec fn admits(name: Seq<char>, is_dir: bool) -> bool {
    is_dir || is_class_name(name)
}

/// The name under which an entry of a directory tree is registered, if it is
/// a class: the stem of its base name, where that name ends with the
/// class-file suffix and the entry is no directory.
pub open spec fn class_name_in_tree(name: Seq<char>, is_dir: bool) -> Option<Seq<char>> {
    if !is_dir && is_class_name(name) {
        Some(stem_of(name))
    } else {
        None
    }
}

/// Takes an entry of an archive: a class, under its full name, if that name
/// ends with the class-file suffix, and nothing otherwise.
pub fn discover_in_archive(name: String, bytes: Vec<u8>) -> (found: Option<DiscoveredClass>)
    ensures
        found_view(found) == class_in_archive(name@, bytes@),
{
    if has_class_suffix(name.as_str()) {
        Some(DiscoveredClass { name, bytes })
    } else {
        None
    }
}

/// Tells whether a walk of a directory tree keeps the entry of the given base
/// name.
pub fn admits_entry(name: &str, is_dir: bool) -> (keep: bool)
    ensures
        keep == admits(name@, is_dir),
{
    is_dir || has_class_suffix(name)
}

/// The name under which the entry of base name `name` is registered: its
/// stem, if `name` ends with the class-file suffix and the entry is no
/// directory.
pub fn discover_in_tree(name: &str, is_dir: bool) -> (found: Option<String>)
    ensures
        text_view(found) == class_name_in_tree(name@, is_dir),
{
    if !is_dir && has_class_suffix(name) {
        Some(file_stem(name))
    } else {
        None
    }
}

/// A walk that keeps what [`admits`] admits loses no class and cuts off no
/// directory: every directory is admitted, and so is every entry that holds
/// a class.
pub proof fn lemma_walk_keeps_what_matters(name: Seq<char>, is_dir: bool)
    ensures
        is_dir ==> admits(name, is_dir),
        class_name_in_tree(name, is_dir) is Some ==> admits(name, is_dir),
        !admits(name, is_dir) ==> !is_dir && class_name_in_tree(name, is_dir) is None,
{
}

} // verus!
