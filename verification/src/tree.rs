//! A directory tree and its walk, as mathematical values. They say what the
//! driver registers of a whole tree: the class files that lie anywhere in it.

use crate::classpath::{LocatorView, PathKind};
use crate::discovery::{admits, class_name_in_tree, ClassEntry};
use crate::driver::{initial, PhaseView};
use crate::laws::{
    lemma_tree_run,
    opening,
    tree_answers,
    tree_classes,
    tree_item_class,
    TreeItem,
};
use crate::protocol::ResponseView;
use crate::run::{asked, reached, registrations};
use vstd::prelude::*;

verus! {

/// A directory tree.
pub enum Tree {
    /// A file, or whatever else is no directory: its base name, its path and
    /// its content.
    File { name: Seq<char>, path: Seq<char>, bytes: Seq<u8> },
    /// A directory: its base name, its path and what it holds, in the order
    /// in which a walk comes to it.
    Directory { name: Seq<char>, path: Seq<char>, children: Seq<Tree> },
    /// An entry that a walk cannot reach.
    Unreachable,
}

/// What a walk hands over of the root of `tree`.
pub open spec fn item_of(tree: Tree) -> TreeItem {
    match tree {
        Tree::File { name, path, bytes } => TreeItem::Node { name, path, is_dir: false, bytes },
        Tree::Directory { name, path, children } => TreeItem::Node {
            name,
            path,
            is_dir: true,
            bytes: Seq::empty(),
        },
        Tree::Unreachable => TreeItem::Inaccessible,
    }
}

/// Whether a walk keeps the root of `tree`: it keeps what [`admits`] admits,
/// and reports what it cannot reach.
pub open spec fn kept(tree: Tree) -> bool {
    match tree {
        Tree::File { name, .. } => admits(name, false),
        Tree::Directory { name, .. } => admits(name, true),
        Tree::Unreachable => true,
    }
}

/// What a walk of `tree` hands over: each entry that it keeps, a directory
/// before what it holds. What it does not keep it does not descend into.
pub open spec fn walk(tree: Tree) -> Seq<TreeItem>
    decreases tree,
{
    if !kept(tree) {
        Seq::empty()
    } else {
        match tree {
            Tree::Directory { children, .. } => seq![item_of(tree)] + walk_all(children),
            _ => seq![item_of(tree)],
        }
    }
}

/// What a walk of each of `trees` hands over, first to last.
pub open spec fn walk_all(trees: Seq<Tree>) -> Seq<TreeItem>
    decreases trees,
{
    if trees.len() == 0 {
        Seq::empty()
    } else {
        walk_all(trees.drop_last()) + walk(trees.last())
    }
}

/// The class files that lie anywhere in `tree`: each file whose base name
/// ends with the class-file suffix, with its content, under the stem of its
/// base name, however deep in the tree it lies.
pub open spec fn class_files(tree: Tree) -> Seq<ClassEntry>
    decreases tree,
{
    match tree {
        Tree::File { name, path, bytes } => match class_name_in_tree(name, false) {
            Some(stem) => seq![ClassEntry { name: stem, bytes }],
            None => Seq::empty(),
        },
        Tree::Directory { children, .. } => class_files_all(children),
        Tree::Unreachable => Seq::empty(),
    }
}

/// The class files that lie anywhere in `trees`, first to last.
pub open spec fn class_files_all(trees: Seq<Tree>) -> Seq<ClassEntry>
    decreases trees,
{
    if trees.len() == 0 {
        Seq::empty()
    } else {
        class_files_all(trees.drop_last()) + class_files(trees.last())
    }
}

/// The classes that items given in two parts hold are those of the first
/// part followed by those of the second.
pub proof fn lemma_tree_classes_in_two_parts(first: Seq<TreeItem>, second: Seq<TreeItem>)
    ensures
        tree_classes(first + second) == tree_classes(first) + tree_classes(second),
    decreases second.len(),
{
    if second.len() > 0 {
        assert((first + second).drop_last() =~= first + second.drop_last());
        lemma_tree_classes_in_two_parts(first, second.drop_last());
    }
}

/// The classes that one item holds.
proof fn lemma_tree_classes_of_one(item: TreeItem)
    ensures
        tree_classes(seq![item]) == match tree_item_class(item) {
            Some(class) => seq![class],
            None => Seq::<ClassEntry>::empty(),
        },
{
    assert(tree_classes(seq![item].drop_last()) =~= Seq::empty());
}

/// A walk finds every class file of a tree, and nothing else: what it hands
/// over holds exactly the class files that lie anywhere in the tree. What
/// the walk leaves out holds no class file, and no directory is left out.
pub proof fn lemma_walk_finds_class_files(tree: Tree)
    ensures
        tree_classes(walk(tree)) == class_files(tree),
    decreases tree,
{
    lemma_tree_classes_of_one(item_of(tree));
    if let Tree::Directory { name, path, children } = tree {
        lemma_walk_all_finds_class_files(children);
        lemma_tree_classes_in_two_parts(seq![item_of(tree)], walk_all(children));
        assert(Seq::<ClassEntry>::empty() + class_files_all(children) =~= class_files_all(
            children,
        ));
    }
}

/// A walk of several trees finds every class file of each.
pub proof fn lemma_walk_all_finds_class_files(trees: Seq<Tree>)
    ensures
        tree_classes(walk_all(trees)) == class_files_all(trees),
    decreases trees,
{
    if trees.len() > 0 {
        lemma_walk_all_finds_class_files(trees.drop_last());
        lemma_walk_finds_class_files(trees.last());
        lemma_tree_classes_in_two_parts(walk_all(trees.drop_last()), walk(trees.last()));
    }
}

/// A run over a directory tree registers exactly the class files that lie
/// anywhere in the tree, each under the stem of its base name, whatever the
/// directories above it. The run then looks for the entry class.
pub proof fn lemma_tree_classpath_run(
    root: Seq<char>,
    entry_path: Seq<char>,
    entry_class: Seq<char>,
    tree: Tree,
)
    ensures
        ({
            let d = initial(Some(root), entry_path, entry_class);
            let answers = opening().push(ResponseView::Probed { kind: PathKind::Directory })
                + tree_answers(walk(tree)).push(ResponseView::Exhausted);
            &&& registrations(asked(d, answers)) == class_files(tree)
            &&& reached(d, answers).phase == PhaseView::ResolvingClass
            &&& reached(d, answers).locator == Some(LocatorView::DirectoryTree(root))
        }),
{
    lemma_tree_run(root, entry_path, entry_class, walk(tree));
    lemma_walk_finds_class_files(tree);
}

} // verus!
