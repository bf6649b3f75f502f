//! The three engines that this library borrows: a regular-expression matcher,
//! tilde expansion and lexical path normalization. Each is reached through
//! one function whose contract is taken on trust.

use crate::paths::is_absolute;
use path_absolutize::Absolutize;
use vstd::prelude::*;

verus! {

/// What the `regex` crate finds for a pattern in a text: nothing where it
/// rejects the pattern; else, for each match from left to right, the text of
/// the first capture group, where that group took part in the match.
pub uninterp spec fn first_groups(pattern: Seq<char>, text: Seq<char>) -> Option<
    Seq<Option<Seq<char>>>,
>;

/// What `path_absolutize` makes of `path` as seen from the directory `base`,
/// on a Unix-like system: the normalized path, or the text of its error.
pub uninterp spec fn absolutized(path: Seq<char>, base: Seq<char>) -> Result<Seq<char>, Seq<char>>;

/// What tilde expansion makes of `input`: a leading `~` that stands alone or
/// before a `/` gives way to the home directory, where one is known; any
/// other input stays as it is.
pub open spec fn tilde_expanded(input: Seq<char>, home: Option<Seq<char>>) -> Seq<char> {
    if home.is_some() && input.len() > 0 && input[0] == '~' && (input.len() == 1 || input[1]
        == '/') {
        home.unwrap() + input.subrange(1, input.len() as int)
    } else {
        input
    }
}

/// Whether the component of `path` that starts at `at` is `.` or `..`.
pub open spec fn dots_at(path: Seq<char>, at: int) -> bool {
    ||| at < path.len() && path[at] == '.' && (at + 1 == path.len() || path[at + 1] == '/')
    ||| at + 1 < path.len() && path[at] == '.' && path[at + 1] == '.' && (at + 2 == path.len()
        || path[at + 2] == '/')
}

/// Whether `path` is normal as it stands: it is absolute, none of its
/// components is empty, `.` or `..`, and it ends in no `/` unless it is `/`.
pub open spec fn is_normal(path: Seq<char>) -> bool {
    &&& is_absolute(path)
    &&& forall|i: int|
        0 <= i < path.len() && #[trigger] path[i] == '/' ==> {
            &&& !dots_at(path, i + 1)
            &&& i + 1 < path.len() ==> path[i + 1] != '/'
            &&& i + 1 == path.len() ==> path.len() == 1
        }
}

/// Compiles `pattern` with `regex::Regex::new` and walks `text` with
/// `Regex::captures_iter`, keeping of each match what `Captures::get(1)`
/// gives. Nothing is claimed of the matches but that they are a function of
/// the pattern and the text. The pattern is compiled at every call: a
/// compiled matcher could not carry its pattern into a contract.
#[verifier::external_body]
pub(crate) fn capture_first_groups(pattern: &str, text: &str) -> (groups: Option<
    Vec<Option<String>>,
>)
    ensures
        groups.deep_view() == first_groups(pattern@, text@),
{
    match regex::Regex::new(pattern) {
        Ok(matcher) => Some(
            matcher.captures_iter(text).map(
                |found| found.get(1).map(|group| group.as_str().to_string()),
            ).collect(),
        ),
        Err(_) => None,
    }
}

/// Calls `shellexpand::tilde_with_context` with `home` as the home directory.
/// As its documentation says, only a leading `~` followed by `/` or by the end
/// of the input is replaced, and only where a home directory is known.
#[verifier::external_body]
pub(crate) fn expand_tilde(input: &str, home: &Option<String>) -> (expanded: String)
    ensures
        expanded@ == tilde_expanded(input@, home.deep_view()),
{
    shellexpand::tilde_with_context(input, || home.as_ref()).into_owned()
}

/// Calls `Absolutize::absolutize_from` of `path_absolutize` on `path`, with
/// `base` in the place of the working directory. The call reads no file
/// system. Its documentation promises an absolute path; its source shows, for
/// Unix-like systems, that what comes back is absolute whenever `path` or
/// `base` is, that an absolute `path` is normalized without a look at `base`,
/// and that a path which is normal as it stands comes back as it is. Left
/// out is a relative `path` under a relative `base`: there the call can run
/// out of components and panic.
#[verifier::external_body]
pub(crate) fn absolutize_from(path: &str, base: &str) -> (found: Result<String, String>)
    requires
        is_absolute(path@) || is_absolute(base@),
    ensures
        match found {
            Ok(p) => absolutized(path@, base@) == Ok::<Seq<char>, Seq<char>>(p@),
            Err(e) => absolutized(path@, base@) == Err::<Seq<char>, Seq<char>>(e@),
        },
        is_absolute(path@) ==> match found {
            Ok(p) => absolutized(path@, Seq::empty()) == Ok::<Seq<char>, Seq<char>>(p@),
            Err(e) => absolutized(path@, Seq::empty()) == Err::<Seq<char>, Seq<char>>(e@),
        },
        found matches Ok(p) ==> is_absolute(p@),
        is_normal(path@) ==> match found {
            Ok(p) => p@ == path@,
            Err(_) => false,
        },
{
    match std::path::Path::new(path).absolutize_from(std::path::Path::new(base)) {
        Ok(normal) => Ok(normal.to_string_lossy().into_owned()),
        Err(error) => Err(error.to_string()),
    }
}

} // verus!
