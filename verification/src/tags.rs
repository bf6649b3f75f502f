//! Tags: where a line of a file says that the file wants a link, and which
//! destination that names.

use crate::bindings::{
    absolutize_from, absolutized, capture_first_groups, expand_tilde, first_groups, is_normal,
    tilde_expanded,
};
use crate::notice::{Notice, NoticeView};
use crate::paths::{chars_of, is_absolute, join, joined, starts_at_root};
use vstd::prelude::*;
use vstd::string::*;

verus! {

/// The pattern of a tag: the marker `##!!`, then a path expression, which is
/// an optional stem of up to two characters followed by one or more `/`-led
/// stretches, or a lone `~`.
pub const TAG_PATTERN: &'static str = "##!!(((~|.|..)?(/.+)+)|~)";

/// What is told of a relative directory under a working directory that is
/// not absolute.
pub const UNANCHORED: &'static str = "the working directory is not an absolute path";

/// Whether the marker `##!!` stands in `line` at `at`.
pub open spec fn marker_at(line: Seq<char>, at: int) -> bool {
    &&& 0 <= at
    &&& at + 4 <= line.len()
    &&& line[at] == '#'
    &&& line[at + 1] == '#'
    &&& line[at + 2] == '!'
    &&& line[at + 3] == '!'
}

/// Whether the marker `##!!` stands anywhere in `line`.
pub open spec fn has_marker(line: Seq<char>) -> bool {
    exists|at: int| marker_at(line, at)
}

/// The groups that took part in their match, in order.
pub open spec fn present(groups: Seq<Option<Seq<char>>>) -> Seq<Seq<char>>
    decreases groups.len(),
{
    if groups.len() == 0 {
        Seq::empty()
    } else if groups.last().is_some() {
        present(groups.drop_last()).push(groups.last().unwrap())
    } else {
        present(groups.drop_last())
    }
}

/// What `pattern` captures in `text`: the first group of each match in which
/// it took part, from left to right. `None` where the matcher rejects the
/// pattern.
pub open spec fn captured(pattern: Seq<char>, text: Seq<char>) -> Option<Seq<Seq<char>>> {
    match first_groups(pattern, text) {
        Some(groups) => Some(present(groups)),
        None => None,
    }
}

/// The path expressions of the tags of `line`, from left to right: none where
/// the line holds no marker, else what the pattern of a tag captures. `None`
/// where the matcher rejects the pattern.
pub open spec fn captures(line: Seq<char>) -> Option<Seq<Seq<char>>> {
    if has_marker(line) {
        captured(TAG_PATTERN@, line)
    } else {
        Some(Seq::empty())
    }
}

/// Tells whether the marker stands anywhere among `chars`.
pub fn contains_marker(chars: &Vec<char>) -> (found: bool)
    ensures
        found == has_marker(chars@),
{
    if chars.len() < 4 {
        return false;
    }
    let last: usize = chars.len() - 4;
    let mut at: usize = 0;
    while at <= last
        invariant
            last + 4 == chars.len(),
            at <= last + 1,
            forall|before: int| before < at ==> !marker_at(chars@, before),
        decreases last + 1 - at,
    {
        if chars[at] == '#' && chars[at + 1] == '#' && chars[at + 2] == '!' && chars[at + 3]
            == '!' {
            assert(marker_at(chars@, at as int));
            return true;
        }
        at = at + 1;
    }
    false
}

/// Tells whether `wanted` stands anywhere among `chars`.
pub fn contains_char(chars: &Vec<char>, wanted: char) -> (found: bool)
    ensures
        found == chars@.contains(wanted),
{
    let mut at: usize = 0;
    while at < chars.len()
        invariant
            at <= chars.len(),
            forall|before: int| 0 <= before < at ==> chars@[before] != wanted,
        decreases chars.len() - at,
    {
        if chars[at] == wanted {
            return true;
        }
        at = at + 1;
    }
    false
}

/// The groups that took part in their match, in order.
pub fn those_present(groups: Vec<Option<String>>) -> (taken: Vec<String>)
    ensures
        taken.deep_view() == present(groups.deep_view()),
{
    let mut taken: Vec<String> = Vec::new();
    let mut at: usize = 0;
    while at < groups.len()
        invariant
            at <= groups.len(),
            taken.deep_view() == present(groups.deep_view().take(at as int)),
        decreases groups.len() - at,
    {
        assert(groups.deep_view().take(at + 1).drop_last() =~= groups.deep_view().take(at as int));
        if let Some(group) = &groups[at] {
            taken.push(group.clone());
        }
        at = at + 1;
    }
    assert(groups.deep_view().take(at as int) =~= groups.deep_view());
    taken
}

/// What `pattern` captures in `text`, where the matcher accepts it.
pub fn groups_in(pattern: &str, text: &str) -> (found: Option<Vec<String>>)
    ensures
        found.deep_view() == captured(pattern@, text@),
{
    match capture_first_groups(pattern, text) {
        Some(groups) => Some(those_present(groups)),
        None => None,
    }
}

/// The path expressions of the tags of `line`, from left to right.
pub fn tags_in(line: &str) -> (found: Option<Vec<String>>)
    ensures
        found.deep_view() == captures(line@),
{
    let chars = chars_of(line);
    if contains_marker(&chars) {
        groups_in(TAG_PATTERN, line)
    } else {
        Some(Vec::new())
    }
}

/// The directory `path` made absolute and free of `.` and `..`: itself where
/// it is normal as it stands; by its own components alone where it is
/// absolute; else as seen from `base`, which must then be absolute.
pub open spec fn normalized(path: Seq<char>, base: Seq<char>) -> Result<Seq<char>, Seq<char>> {
    if is_normal(path) {
        Ok(path)
    } else if is_absolute(path) {
        absolutized(path, Seq::empty())
    } else if is_absolute(base) {
        absolutized(path, base)
    } else {
        Err(UNANCHORED@)
    }
}

/// The directory that the path expression `capture` names in a file of
/// `directory`: a tilde gives way to `home`, and what is then relative is
/// taken from `directory`.
pub open spec fn context_of(
    capture: Seq<char>,
    directory: Seq<char>,
    home: Option<Seq<char>>,
) -> Seq<char> {
    joined(directory, tilde_expanded(capture, home))
}

/// The destination that the path expression `capture` names for the file
/// `name` of `directory`: the file's name in the normalized directory of the
/// tag. The error's text where that directory cannot be normalized.
pub open spec fn destination_of(
    capture: Seq<char>,
    directory: Seq<char>,
    name: Seq<char>,
    home: Option<Seq<char>>,
    base: Seq<char>,
) -> Result<Seq<char>, Seq<char>> {
    match normalized(context_of(capture, directory, home), base) {
        Ok(target) => Ok(joined(target, name)),
        Err(error) => Err(error),
    }
}

/// Normalizes the directory `path`, as seen from `base` where it is relative.
pub fn normalize(path: &str, base: &str) -> (found: Result<String, String>)
    ensures
        match found {
            Ok(p) => normalized(path@, base@) == Ok::<Seq<char>, Seq<char>>(p@),
            Err(e) => normalized(path@, base@) == Err::<Seq<char>, Seq<char>>(e@),
        },
        found matches Ok(p) ==> is_absolute(p@),
{
    if starts_at_root(path) || starts_at_root(base) {
        absolutize_from(path, base)
    } else {
        Err(UNANCHORED.to_owned())
    }
}

/// The path expressions of all tags of `lines`, line after line. `None` where
/// the matcher rejects the pattern.
pub open spec fn all_captures(lines: Seq<Seq<char>>) -> Option<Seq<Seq<char>>>
    decreases lines.len(),
{
    if lines.len() == 0 {
        Some(Seq::empty())
    } else {
        match (all_captures(lines.drop_last()), captures(lines.last())) {
            (Some(before), Some(last)) => Some(before + last),
            _ => None,
        }
    }
}

/// The destinations that the tag `capture` adds: one, or none where its
/// directory cannot be normalized.
pub open spec fn destinations_of_capture(
    capture: Seq<char>,
    directory: Seq<char>,
    name: Seq<char>,
    home: Option<Seq<char>>,
    base: Seq<char>,
) -> Seq<Seq<char>> {
    match destination_of(capture, directory, name, home, base) {
        Ok(destination) => seq![destination],
        Err(_) => Seq::empty(),
    }
}

/// What is told of the tag `capture` of the file `origin`.
pub open spec fn notices_of_capture(
    capture: Seq<char>,
    origin: Seq<char>,
    directory: Seq<char>,
    name: Seq<char>,
    home: Option<Seq<char>>,
    base: Seq<char>,
) -> Seq<NoticeView> {
    let matched = seq![NoticeView::Matched { capture }];
    let tilde = if capture.contains('~') {
        seq![NoticeView::Tilde]
    } else {
        Seq::empty()
    };
    let expanded = seq![
        NoticeView::Expanded { path: context_of(capture, directory, home) },
    ];
    let outcome = match destination_of(capture, directory, name, home, base) {
        Ok(destination) => seq![
            NoticeView::Origin { path: origin },
            NoticeView::Destination { path: destination },
        ],
        Err(error) => seq![
            NoticeView::Invalid { path: tilde_expanded(capture, home), error },
        ],
    };
    matched + tilde + expanded + outcome
}

/// The destinations that the tags `captures` name, in the order of the tags.
pub open spec fn destinations_of(
    captures: Seq<Seq<char>>,
    directory: Seq<char>,
    name: Seq<char>,
    home: Option<Seq<char>>,
    base: Seq<char>,
) -> Seq<Seq<char>>
    decreases captures.len(),
{
    if captures.len() == 0 {
        Seq::empty()
    } else {
        destinations_of(captures.drop_last(), directory, name, home, base)
            + destinations_of_capture(captures.last(), directory, name, home, base)
    }
}

/// What is told of the tags `captures` of the file `origin`, tag after tag.
pub open spec fn notices_of(
    captures: Seq<Seq<char>>,
    origin: Seq<char>,
    directory: Seq<char>,
    name: Seq<char>,
    home: Option<Seq<char>>,
    base: Seq<char>,
) -> Seq<NoticeView>
    decreases captures.len(),
{
    if captures.len() == 0 {
        Seq::empty()
    } else {
        notices_of(captures.drop_last(), origin, directory, name, home, base) + notices_of_capture(
            captures.last(),
            origin,
            directory,
            name,
            home,
            base,
        )
    }
}

/// The path expressions of all tags of `lines`, line after line.
pub fn collect_tags(lines: &Vec<String>) -> (found: Option<Vec<String>>)
    ensures
        found.deep_view() == all_captures(lines.deep_view()),
{
    let mut all: Vec<String> = Vec::new();
    let mut at: usize = 0;
    while at < lines.len()
        invariant
            at <= lines.len(),
            all_captures(lines.deep_view().take(at as int)) == Some(all.deep_view()),
        decreases lines.len() - at,
    {
        assert(lines.deep_view().take(at + 1).drop_last() =~= lines.deep_view().take(at as int));
        match tags_in(lines[at].as_str()) {
            None => {
                proof {
                    lemma_captures_end(lines.deep_view(), at + 1);
                }
                return None;
            },
            Some(mut tags) => {
                all.append(&mut tags);
            },
        }
        at = at + 1;
    }
    assert(lines.deep_view().take(at as int) =~= lines.deep_view());
    Some(all)
}

/// Where the pattern is rejected on the first lines, it is rejected on all.
proof fn lemma_captures_end(lines: Seq<Seq<char>>, upto: int)
    requires
        0 <= upto <= lines.len(),
        all_captures(lines.take(upto)).is_none(),
    ensures
        all_captures(lines).is_none(),
    decreases lines.len() - upto,
{
    if upto < lines.len() {
        assert(lines.take(upto + 1).drop_last() =~= lines.take(upto));
        lemma_captures_end(lines, upto + 1);
    } else {
        assert(lines.take(upto) =~= lines);
    }
}

/// The outcome of a tag: its destination, where it has one, and what is told
/// of it.
#[derive(Clone, PartialEq, Eq, Debug)]
pub struct Resolved {
    pub destination: Option<String>,
    pub notices: Vec<Notice>,
}

/// Resolves the tag `capture` of the file `origin`, which lies in `directory`
/// under the name `name`.
pub fn resolve(
    capture: &str,
    origin: &str,
    directory: &str,
    name: &str,
    home: &Option<String>,
    base: &str,
) -> (found: Resolved)
    ensures
        found.notices.deep_view() == notices_of_capture(
            capture@,
            origin@,
            directory@,
            name@,
            home.deep_view(),
            base@,
        ),
        match found.destination {
            Some(d) => destination_of(capture@, directory@, name@, home.deep_view(), base@)
                == Ok::<Seq<char>, Seq<char>>(d@) && is_absolute(d@),
            None => destination_of(capture@, directory@, name@, home.deep_view(), base@).is_err(),
        },
{
    let mut notices: Vec<Notice> = Vec::new();
    notices.push(Notice::Matched { capture: capture.to_owned() });
    let chars = chars_of(capture);
    if contains_char(&chars, '~') {
        notices.push(Notice::Tilde);
    }
    let expanded = expand_tilde(capture, home);
    let context = join(directory, expanded.as_str());
    notices.push(Notice::Expanded { path: context.clone() });
    match normalize(context.as_str(), base) {
        Ok(target) => {
            let destination = join(target.as_str(), name);
            notices.push(Notice::Origin { path: origin.to_owned() });
            notices.push(Notice::Destination { path: destination.clone() });
            Resolved { destination: Some(destination), notices }
        },
        Err(error) => {
            notices.push(Notice::Invalid { path: expanded, error });
            Resolved { destination: None, notices }
        },
    }
}

/// Tags below home: a tag that names the home directory, or a path below
/// it, resolves to just that, wherever the tagged file lies and whatever the
/// working directory is.
pub proof fn law_tilde_names_home(
    below: Seq<char>,
    home: Seq<char>,
    name: Seq<char>,
    directory: Seq<char>,
    base: Seq<char>,
    other_directory: Seq<char>,
    other_base: Seq<char>,
)
    requires
        is_absolute(home),
        below.len() == 0 || below[0] == '/',
    ensures
        context_of(seq!['~'] + below, directory, Some(home)) == home + below,
        destination_of(seq!['~'] + below, directory, name, Some(home), base) == destination_of(
            seq!['~'] + below,
            other_directory,
            name,
            Some(home),
            other_base,
        ),
        destination_of(seq!['~'] + below, directory, name, Some(home), base) == match normalized(
            home + below,
            Seq::empty(),
        ) {
            Ok(target) => Ok::<Seq<char>, Seq<char>>(joined(target, name)),
            Err(error) => Err(error),
        },
{
}

/// Tags below home, where nothing is left to normalize: the destination is
/// the name of the file in the directory that the tag names below home.
pub proof fn law_tilde_resolves_to_home(
    below: Seq<char>,
    home: Seq<char>,
    name: Seq<char>,
    directory: Seq<char>,
    base: Seq<char>,
)
    requires
        below.len() == 0 || below[0] == '/',
        is_normal(home + below),
    ensures
        destination_of(seq!['~'] + below, directory, name, Some(home), base) == Ok::<
            Seq<char>,
            Seq<char>,
        >(joined(home + below, name)),
{
    let capture = seq!['~'] + below;
    assert(capture.subrange(1, capture.len() as int) =~= below);
}

/// Relative tags: a tag that names a relative path resolves from the
/// directory of the tagged file; and where that directory is absolute, the
/// working directory has no part in it.
pub proof fn law_relative_from_directory(
    capture: Seq<char>,
    home: Option<Seq<char>>,
    name: Seq<char>,
    directory: Seq<char>,
    base: Seq<char>,
    other_base: Seq<char>,
)
    requires
        is_absolute(directory),
        capture.len() > 0,
        capture[0] != '/',
        capture[0] != '~',
    ensures
        context_of(capture, directory, home) == if directory.last() == '/' {
            directory + capture
        } else {
            directory + seq!['/'] + capture
        },
        destination_of(capture, directory, name, home, base) == destination_of(
            capture,
            directory,
            name,
            home,
            other_base,
        ),
{
}

} // verus!
