//! Paths as text: the few lexical operations that discovery and
//! materialization need, on `/`-separated paths held in strings.

use vstd::prelude::*;
use vstd::string::*;

verus! {

/// Whether `path` starts at the root of the file system.
pub open spec fn is_absolute(path: Seq<char>) -> bool {
    path.len() > 0 && path[0] == '/'
}

/// The index of the last `/` in `path`, or -1 where it holds none.
pub open spec fn last_separator(path: Seq<char>) -> int
    decreases path.len(),
{
    if path.len() == 0 {
        -1
    } else if path.last() == '/' {
        path.len() - 1
    } else {
        last_separator(path.drop_last())
    }
}

/// The text behind the last `/` of `path` (all of it where there is none).
pub open spec fn last_component(path: Seq<char>) -> Seq<char> {
    path.subrange(last_separator(path) + 1, path.len() as int)
}

/// Whether `name` can be the name of a file: not empty, not `.`, not `..`.
pub open spec fn names_a_file(name: Seq<char>) -> bool {
    &&& name.len() > 0
    &&& name != seq!['.']
    &&& name != seq!['.', '.']
}

/// The base name of `path`: its last component, where that names a file.
pub open spec fn file_name(path: Seq<char>) -> Option<Seq<char>> {
    if names_a_file(last_component(path)) {
        Some(last_component(path))
    } else {
        None
    }
}

/// The directory that holds `path`: the text before its last `/`.
///
/// A path without `/` lies in the empty (current) directory, an entry of the
/// root lies in `/`; the empty path and `/` itself lie in no directory.
pub open spec fn parent(path: Seq<char>) -> Option<Seq<char>> {
    let cut = last_separator(path);
    if path.len() == 0 {
        None
    } else if cut < 0 {
        Some(Seq::empty())
    } else if cut > 0 {
        Some(path.subrange(0, cut))
    } else if path.len() == 1 {
        None
    } else {
        Some(seq!['/'])
    }
}

/// `tail` as seen from the directory `base`: `tail` itself where it is
/// absolute or `base` is empty, else `base`, one `/` between them, and `tail`.
pub open spec fn joined(base: Seq<char>, tail: Seq<char>) -> Seq<char> {
    if is_absolute(tail) || base.len() == 0 {
        tail
    } else if base.last() == '/' {
        base + tail
    } else {
        base + seq!['/'] + tail
    }
}

/// What `last_separator` returns is a position of `/` behind which no `/` follows.
pub proof fn lemma_last_separator(path: Seq<char>)
    ensures
        -1 <= last_separator(path) < path.len(),
        last_separator(path) >= 0 ==> path[last_separator(path)] == '/',
        forall|i: int| last_separator(path) < i < path.len() ==> path[i] != '/',
    decreases path.len(),
{
    if path.len() > 0 && path.last() != '/' {
        let front = path.drop_last();
        lemma_last_separator(front);
        assert forall|i: int| last_separator(path) < i < path.len() implies path[i] != '/' by {
            if i < front.len() {
                assert(front[i] == path[i]);
            }
        }
    }
}

/// A position of `/` behind which no `/` follows is what `last_separator` returns.
pub proof fn lemma_last_separator_unique(path: Seq<char>, cut: int)
    requires
        -1 <= cut < path.len(),
        cut >= 0 ==> path[cut] == '/',
        forall|i: int| cut < i < path.len() ==> path[i] != '/',
    ensures
        last_separator(path) == cut,
{
    lemma_last_separator(path);
}

/// The characters of `text`, in order.
pub fn chars_of(text: &str) -> (chars: Vec<char>)
    ensures
        chars@ == text@,
{
    broadcast use vstd::string::group_string_axioms;

    let mut chars: Vec<char> = Vec::new();
    for c in it: text.chars()
        invariant
            it.seq() == text@,
            chars@ == text@.take(it.index()),
    {
        chars.push(c);
    }
    chars
}

/// Tells whether `path` is absolute.
pub fn starts_at_root(path: &str) -> (absolute: bool)
    ensures
        absolute == is_absolute(path@),
{
    let chars = chars_of(path);
    chars.len() > 0 && chars[0] == '/'
}

/// Finds the last `/` among `chars`.
pub fn find_last_separator(chars: &Vec<char>) -> (found: Option<usize>)
    ensures
        match found {
            Some(i) => i as int == last_separator(chars@),
            None => last_separator(chars@) == -1,
        },
{
    let mut index: usize = chars.len();
    while index > 0
        invariant
            index <= chars.len(),
            forall|i: int| index <= i < chars.len() ==> chars@[i] != '/',
        decreases index,
    {
        index = index - 1;
        if chars[index] == '/' {
            proof {
                lemma_last_separator_unique(chars@, index as int);
            }
            return Some(index);
        }
    }
    proof {
        lemma_last_separator_unique(chars@, -1);
    }
    None
}

/// The base name of `path`, where it has one.
pub fn file_name_of(path: &str) -> (name: Option<String>)
    ensures
        name.is_some() == file_name(path@).is_some(),
        name matches Some(n) ==> file_name(path@) == Some(n@),
{
    let chars = chars_of(path);
    proof {
        lemma_last_separator(path@);
    }
    let total: usize = chars.len();
    let start: usize = match find_last_separator(&chars) {
        Some(i) => i + 1,
        None => 0,
    };
    let length: usize = total - start;
    proof {
        let name = last_component(path@);
        assert(name.len() == length);
        if length == 1 {
            assert(name =~= seq!['.'] <==> name[0] == '.');
        }
        if length == 2 {
            assert(name =~= seq!['.', '.'] <==> (name[0] == '.' && name[1] == '.'));
        }
    }
    if length == 0 {
        None
    } else if length == 1 && chars[start] == '.' {
        None
    } else if length == 2 && chars[start] == '.' && chars[start + 1] == '.' {
        None
    } else {
        Some(path.substring_char(start, total).to_owned())
    }
}

/// The directory that holds `path`, where there is one.
pub fn parent_of(path: &str) -> (found: Option<String>)
    ensures
        found.is_some() == parent(path@).is_some(),
        found matches Some(p) ==> parent(path@) == Some(p@),
{
    let chars = chars_of(path);
    if chars.len() == 0 {
        return None;
    }
    proof {
        lemma_last_separator(path@);
    }
    match find_last_separator(&chars) {
        None => Some(String::new()),
        Some(cut) => {
            if cut > 0 {
                Some(path.substring_char(0, cut).to_owned())
            } else if chars.len() == 1 {
                None
            } else {
                let root = path.substring_char(0, 1).to_owned();
                Some(root)
            }
        },
    }
}

/// `tail` as seen from the directory `base`.
pub fn join(base: &str, tail: &str) -> (path: String)
    ensures
        path@ == joined(base@, tail@),
{
    let base_chars = chars_of(base);
    if starts_at_root(tail) || base_chars.len() == 0 {
        return tail.to_owned();
    }
    let mut path = base.to_owned();
    if base_chars[base_chars.len() - 1] != '/' {
        let slash = "/";
        proof {
            reveal_strlit("/");
        }
        path.append(slash);
    }
    path.append(tail);
    path
}

} // verus!
