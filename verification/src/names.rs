//! Names of class files: the suffix that marks them, the stem under which a
//! file found in a directory is registered, and the key of the entry method.

use vstd::prelude::*;
use vstd::string::*;

verus! {

/// The suffix that marks the name of a compiled class.
pub open spec fn class_suffix() -> Seq<char> {
    seq!['.', 'c', 'l', 'a', 's', 's']
}

/// Whether `name` ends with the class-file suffix.
pub open spec fn is_class_name(name: Seq<char>) -> bool {
    class_suffix().is_suffix_of(name)
}

/// The stem of a file's base name: the part before its last `.`. A name
/// without a `.`, a name whose only `.` is its first character, and the name
/// `..` are their own stems.
pub open spec fn stem_of(name: Seq<char>) -> Seq<char> {
    match name.index_of_last('.') {
        Some(dot) => if dot == 0 || name == seq!['.', '.'] {
            name
        } else {
            name.take(dot)
        },
        None => name,
    }
}

/// The name of the method at which execution starts.
pub open spec fn entry_method_name() -> Seq<char> {
    "main2"@
}

/// The descriptor of the entry method: one array of strings in, one integer
/// out.
pub open spec fn entry_method_descriptor() -> Seq<char> {
    "([Ljava/lang/String;)I"@
}

/// The key under which the entry method of `class` is looked up: the class,
/// a `.`, the method's name, a `:`, and the method's descriptor.
pub open spec fn entry_key_of(class: Seq<char>) -> Seq<char> {
    class + "."@ + entry_method_name() + ":"@ + entry_method_descriptor()
}

/// The view of a text that may be absent.
pub open spec fn text_view(text: Option<String>) -> Option<Seq<char>> {
    match text {
        Some(given) => Some(given@),
        None => None,
    }
}

/// Tells whether `name` ends with `.class`.
pub fn has_class_suffix(name: &str) -> (yes: bool)
    ensures
        yes == is_class_name(name@),
{
    let len = name.unicode_len();
    if len < 6 {
        return false;
    }
    let start: usize = len - 6;
    let yes = name.get_char(start) == '.' && name.get_char(start + 1) == 'c' && name.get_char(
        start + 2,
    ) == 'l' && name.get_char(start + 3) == 'a' && name.get_char(start + 4) == 's'
        && name.get_char(start + 5) == 's';
    proof {
        assert(yes <==> name@.subrange(start as int, len as int) =~= class_suffix());
    }
    yes
}

/// Where the last `.` of `name` stands, if it has one.
fn last_dot(name: &str) -> (found: Option<usize>)
    ensures
        match found {
            Some(dot) => name@.index_of_last('.') == Some(dot as int),
            None => name@.index_of_last('.') is None,
        },
{
    let len = name.unicode_len();
    let mut end: usize = len;
    while end > 0
        invariant
            end <= len,
            len == name@.len(),
            forall|j: int| end <= j < len ==> name@[j] != '.',
        decreases end,
    {
        if name.get_char(end - 1) == '.' {
            proof {
                name@.index_of_last_ensures('.');
            }
            return Some(end - 1);
        }
        end = end - 1;
    }
    proof {
        name@.index_of_last_ensures('.');
    }
    None
}

/// The stem of a file's base name: the name without its last `.` and what
/// follows it. It is the stem that `Path::file_stem` takes from a path whose
/// file name is `name`.
pub fn file_stem(name: &str) -> (stem: String)
    ensures
        stem@ == stem_of(name@),
{
    match last_dot(name) {
        None => name.to_owned(),
        Some(dot) => {
            let whole = dot == 0 || (dot == 1 && name.unicode_len() == 2 && name.get_char(0)
                == '.');
            proof {
                name@.index_of_last_ensures('.');
                if whole && dot == 1 {
                    assert(name@ =~= seq!['.', '.']);
                }
            }
            if whole {
                name.to_owned()
            } else {
                name.substring_char(0, dot).to_owned()
            }
        },
    }
}

/// The key under which the entry method of `class` is looked up.
pub fn entry_method_key(class: &str) -> (key: String)
    ensures
        key@ == entry_key_of(class@),
{
    class.to_owned().concat(".").concat("main2").concat(":").concat("([Ljava/lang/String;)I")
}

/// A class file's stem is its name without the suffix, unless the suffix is
/// the whole name.
pub proof fn lemma_stem_of_class_name(name: Seq<char>)
    requires
        is_class_name(name),
    ensures
        stem_of(name) == if name.len() == 6 {
            name
        } else {
            name.take(name.len() - 6)
        },
{
    let dot = name.len() - 6;
    let tail = name.subrange(dot, name.len() as int);
    assert forall|j: int| dot < j < name.len() implies name[j] != '.' by {
        assert(name[j] == tail[j - dot]);
    }
    name.index_of_last_ensures('.');
}

} // verus!
