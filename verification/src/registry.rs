//! A table of classes by logical name, in which the last registration under a
//! name wins. It states the rule by which a repository takes the classes that
//! the driver hands it, one after the other, in the order of their discovery.

use crate::discovery::{ClassEntry, DiscoveredClass};
use vstd::prelude::*;

verus! {

/// The table that results from registering `entries`, first to last, on top
/// of `base`: each entry replaces what stood under its name before.
pub open spec fn registered(base: Map<Seq<char>, Seq<u8>>, entries: Seq<ClassEntry>) -> Map<
    Seq<char>,
    Seq<u8>,
>
    decreases entries.len(),
{
    if entries.len() == 0 {
        base
    } else {
        registered(base, entries.drop_last()).insert(entries.last().name, entries.last().bytes)
    }
}

/// The place of the last of `entries` that is named `name`, if one is.
pub open spec fn last_named(entries: Seq<ClassEntry>, name: Seq<char>) -> Option<int>
    decreases entries.len(),
{
    if entries.len() == 0 {
        None
    } else if entries.last().name == name {
        Some(entries.len() - 1)
    } else {
        last_named(entries.drop_last(), name)
    }
}

/// The views of a sequence of classes.
pub open spec fn entries_of(classes: Seq<DiscoveredClass>) -> Seq<ClassEntry> {
    classes.map_values(|class: DiscoveredClass| class@)
}

/// Whether no two of `entries` have the same name.
pub open spec fn distinct_names(entries: Seq<ClassEntry>) -> bool {
    forall|i: int, j: int|
        0 <= i < j < entries.len() ==> (#[trigger] entries[i]).name != (#[trigger] entries[j]).name
}

/// Whether one of the names of `entries` is `name`.
pub open spec fn names(entries: Seq<ClassEntry>, name: Seq<char>) -> bool {
    exists|i: int| 0 <= i < entries.len() && (#[trigger] entries[i]).name == name
}

/// [`last_named`] gives the place of an entry of the given name after which
/// no entry has that name, and gives none only where no entry has that name.
pub proof fn lemma_last_named(entries: Seq<ClassEntry>, name: Seq<char>)
    ensures
        match last_named(entries, name) {
            Some(at) => {
                &&& 0 <= at < entries.len()
                &&& entries[at].name == name
                &&& forall|j: int| at < j < entries.len() ==> (#[trigger] entries[j]).name != name
            },
            None => !names(entries, name),
        },
    decreases entries.len(),
{
    if entries.len() > 0 && entries.last().name != name {
        let front = entries.drop_last();
        lemma_last_named(front, name);
        assert forall|j: int| 0 <= j < front.len() implies #[trigger] entries[j] == front[j] by {}
    }
}

/// Last write wins: after `entries` are registered on top of `base`, the
/// table holds under a name the bytes of the last entry of that name, or,
/// where no entry has that name, what `base` held under it.
pub proof fn lemma_last_write_wins(
    base: Map<Seq<char>, Seq<u8>>,
    entries: Seq<ClassEntry>,
    name: Seq<char>,
)
    ensures
        registered(base, entries).contains_key(name) <==> last_named(entries, name) is Some
            || base.contains_key(name),
        registered(base, entries)[name] == match last_named(entries, name) {
            Some(at) => entries[at].bytes,
            None => base[name],
        },
    decreases entries.len(),
{
    if entries.len() > 0 {
        lemma_last_write_wins(base, entries.drop_last(), name);
        lemma_last_named(entries.drop_last(), name);
    }
}

/// If two entries share a name, and the later of them is the last of that
/// name, the table holds the later one's bytes under the name once all are
/// registered: the later registration supersedes the earlier.
pub proof fn lemma_later_registration_wins(
    base: Map<Seq<char>, Seq<u8>>,
    entries: Seq<ClassEntry>,
    earlier: int,
    later: int,
)
    requires
        0 <= earlier < later < entries.len(),
        entries[earlier].name == entries[later].name,
        forall|j: int| later < j < entries.len() ==> (#[trigger] entries[j]).name
            != entries[later].name,
    ensures
        registered(base, entries).contains_key(entries[later].name),
        registered(base, entries)[entries[later].name] == entries[later].bytes,
{
    let name = entries[later].name;
    lemma_last_write_wins(base, entries, name);
    lemma_last_named(entries, name);
}

/// To register one sequence of entries and then another is to register the
/// two in a row.
pub proof fn lemma_registered_in_two_parts(
    base: Map<Seq<char>, Seq<u8>>,
    first: Seq<ClassEntry>,
    second: Seq<ClassEntry>,
)
    ensures
        registered(base, first + second) == registered(registered(base, first), second),
    decreases second.len(),
{
    if second.len() > 0 {
        assert((first + second).drop_last() =~= first + second.drop_last());
        lemma_registered_in_two_parts(base, first, second.drop_last());
    }
}

/// To register the same entries a second time, in the same order, changes
/// nothing: the table is the one that the first time left.
pub proof fn lemma_registering_twice(base: Map<Seq<char>, Seq<u8>>, entries: Seq<ClassEntry>)
    ensures
        registered(registered(base, entries), entries) == registered(base, entries),
        registered(base, entries + entries) == registered(base, entries),
{
    let once = registered(base, entries);
    let twice = registered(once, entries);
    assert forall|name: Seq<char>| #[trigger]
        twice.dom().contains(name) == once.dom().contains(name) by {
        lemma_last_write_wins(base, entries, name);
        lemma_last_write_wins(once, entries, name);
    }
    assert forall|name: Seq<char>| #[trigger] once.dom().contains(name) implies twice[name]
        == once[name] by {
        lemma_last_write_wins(base, entries, name);
        lemma_last_write_wins(once, entries, name);
    }
    assert(twice =~= once);
    lemma_registered_in_two_parts(base, entries, entries);
}

/// Registering on the empty table entries of distinct names gives a table of
/// exactly those names, each with its entry's bytes, and of as many names as
/// there are entries.
pub proof fn lemma_registered_distinct(entries: Seq<ClassEntry>)
    requires
        distinct_names(entries),
    ensures
        forall|name: Seq<char>| #[trigger]
            registered(Map::empty(), entries).contains_key(name) <==> names(entries, name),
        forall|i: int|
            0 <= i < entries.len() ==> registered(Map::empty(), entries)[(
            #[trigger] entries[i]).name] == entries[i].bytes,
        registered(Map::empty(), entries).dom().finite(),
        registered(Map::empty(), entries).dom().len() == entries.len(),
    decreases entries.len(),
{
    let table = registered(Map::empty(), entries);
    assert forall|name: Seq<char>| #[trigger] table.contains_key(name) <==> names(
        entries,
        name,
    ) by {
        lemma_last_write_wins(Map::empty(), entries, name);
        lemma_last_named(entries, name);
    }
    assert forall|i: int| 0 <= i < entries.len() implies table[(#[trigger] entries[i]).name]
        == entries[i].bytes by {
        lemma_last_write_wins(Map::empty(), entries, entries[i].name);
        lemma_last_named(entries, entries[i].name);
    }
    if entries.len() == 0 {
        assert(table.dom() =~= Set::empty());
    } else {
        let front = entries.drop_last();
        let last = entries.last();
        assert forall|i: int| 0 <= i < front.len() implies #[trigger] front[i] == entries[i] by {}
        lemma_registered_distinct(front);
        assert(!names(front, last.name));
        assert(table.dom() =~= registered(Map::empty(), front).dom().insert(last.name));
    }
}

/// To replace, among entries of distinct names, one entry by another of the
/// same name keeps the names distinct and registers the new entry.
proof fn lemma_replaced(before: Seq<ClassEntry>, at: int, entry: ClassEntry)
    requires
        distinct_names(before),
        0 <= at < before.len(),
        before[at].name == entry.name,
    ensures
        distinct_names(before.update(at, entry)),
        registered(Map::empty(), before.update(at, entry)) == registered(
            Map::empty(),
            before,
        ).insert(entry.name, entry.bytes),
{
    let after = before.update(at, entry);
    assert forall|i: int| 0 <= i < after.len() implies (#[trigger] after[i]).name
        == before[i].name by {}
    let old_table = registered(Map::empty(), before).insert(entry.name, entry.bytes);
    let new_table = registered(Map::empty(), after);
    assert forall|name: Seq<char>|
        #[trigger] new_table.dom().contains(name) == old_table.dom().contains(name) && (
        old_table.dom().contains(name) ==> new_table[name] == old_table[name]) by {
        lemma_last_write_wins(Map::empty(), before, name);
        lemma_last_write_wins(Map::empty(), after, name);
        lemma_last_named(before, name);
        lemma_last_named(after, name);
        if let Some(place) = last_named(before, name) {
            assert(after[place].name == name);
        }
        if let Some(place) = last_named(after, name) {
            assert(before[place].name == name);
        }
    }
    assert(new_table =~= old_table);
}

/// A table of classes by logical name. No name occurs twice: to register a
/// class under a name that the table holds already replaces the class that
/// stood there.
#[derive(Debug)]
pub struct Registry {
    classes: Vec<DiscoveredClass>,
}

impl View for Registry {
    type V = Map<Seq<char>, Seq<u8>>;

    closed spec fn view(&self) -> Map<Seq<char>, Seq<u8>> {
        registered(Map::empty(), entries_of(self.classes@))
    }
}

impl Registry {
    /// Whether the table is well formed: no two of its classes have the same
    /// name. Every table that this module hands out is.
    pub closed spec fn wf(&self) -> bool {
        distinct_names(entries_of(self.classes@))
    }

    /// The empty table.
    pub fn new() -> (registry: Registry)
        ensures
            registry.wf(),
            registry@ == Map::<Seq<char>, Seq<u8>>::empty(),
    {
        Registry { classes: Vec::new() }
    }

    /// Where the class of the given name stands, if the table holds one.
    fn position(&self, name: &String) -> (found: Option<usize>)
        ensures
            match found {
                Some(at) => at < self.classes.len() && self.classes[at as int].name@ == name@,
                None => !names(entries_of(self.classes@), name@),
            },
    {
        let mut at: usize = 0;
        while at < self.classes.len()
            invariant
                at <= self.classes.len(),
                forall|i: int| 0 <= i < at ==> self.classes[i].name@ != name@,
            decreases self.classes.len() - at,
        {
            if self.classes[at].name == *name {
                return Some(at);
            }
            at = at + 1;
        }
        None
    }

    /// The number of classes in the table.
    pub fn len(&self) -> (count: usize)
        requires
            self.wf(),
        ensures
            self@.dom().finite(),
            count == self@.dom().len(),
    {
        proof {
            lemma_registered_distinct(entries_of(self.classes@));
        }
        self.classes.len()
    }

    /// Whether the table holds a class of the given name.
    pub fn contains(&self, name: &str) -> (held: bool)
        requires
            self.wf(),
        ensures
            held == self@.contains_key(name@),
    {
        let key = name.to_owned();
        let found = self.position(&key);
        proof {
            lemma_registered_distinct(entries_of(self.classes@));
            if let Some(at) = found {
                assert(entries_of(self.classes@)[at as int].name == name@);
            }
        }
        found.is_some()
    }

    /// The bytes of the class of the given name, if the table holds one.
    pub fn lookup(&self, name: &str) -> (found: Option<&Vec<u8>>)
        requires
            self.wf(),
        ensures
            match found {
                Some(bytes) => self@.contains_key(name@) && self@[name@] == bytes@,
                None => !self@.contains_key(name@),
            },
    {
        let key = name.to_owned();
        let found = self.position(&key);
        proof {
            lemma_registered_distinct(entries_of(self.classes@));
            if let Some(at) = found {
                assert(entries_of(self.classes@)[at as int].name == name@);
            }
        }
        match found {
            Some(at) => Some(&self.classes[at].bytes),
            None => None,
        }
    }

    /// Registers `class` under its name. A class that the table held under
    /// that name is replaced.
    pub fn register(&mut self, class: DiscoveredClass)
        requires
            old(self).wf(),
        ensures
            final(self).wf(),
            final(self)@ == old(self)@.insert(class.name@, class.bytes@),
    {
        let ghost before = entries_of(self.classes@);
        match self.position(&class.name) {
            Some(at) => {
                self.classes.set(at, class);
                proof {
                    assert(entries_of(self.classes@) =~= before.update(at as int, class@));
                    lemma_replaced(before, at as int, class@);
                }
            },
            None => {
                self.classes.push(class);
                proof {
                    let after = entries_of(self.classes@);
                    assert(after.drop_last() =~= before);
                    assert forall|i: int| 0 <= i < before.len() implies #[trigger] after[i]
                        == before[i] by {}
                }
            },
        }
    }

    /// Registers `classes`, first to last.
    pub fn register_all(&mut self, classes: Vec<DiscoveredClass>)
        requires
            old(self).wf(),
        ensures
            final(self).wf(),
            final(self)@ == registered(old(self)@, entries_of(classes@)),
    {
        let ghost start = self@;
        let ghost given = entries_of(classes@);
        for class in it: classes
            invariant
                self.wf(),
                given == entries_of(it.seq()),
                self@ == registered(start, given.take(it.index() as int)),
        {
            proof {
                assert(given.take(it.index() + 1).drop_last() =~= given.take(it.index() as int));
            }
            self.register(class);
        }
        proof {
            assert(given.take(given.len() as int) =~= given);
        }
    }
}

} // verus!
