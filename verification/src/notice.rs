//! What a run has to tell its user, as data: the caller decides where the
//! lines go.

use vstd::prelude::*;
use vstd::string::*;

verus! {

/// One thing worth telling. Some are told always, some only to a user who
/// asked for verbose output; see `Autolink::report`.
#[derive(Clone, PartialEq, Eq, Debug)]
pub enum Notice {
    /// Discovery is over and materialization begins.
    Spacer,
    /// Every link under `root` is about to be removed.
    RemovingAll { root: String },
    /// Every link under `root` is about to be made.
    LinkingAll { root: String },
    /// The file at `path` is scanned for tags.
    Scanning { path: String },
    /// The file at `path` is about to be opened.
    Opening { path: String },
    /// A tag was found; `capture` is its path expression.
    Matched { capture: String },
    /// The path expression of the last tag holds a tilde.
    Tilde,
    /// The last tag names the directory `path`, not yet normalized.
    Expanded { path: String },
    /// The file that the next destination belongs to.
    Origin { path: String },
    /// A destination was found.
    Destination { path: String },
    /// The directory `path` of a tag could not be normalized; the tag is dropped.
    Invalid { path: String, error: String },
    /// The directory at `path` is listed.
    Checking { path: String },
    /// The entry at `path` is neither a file nor a directory and is passed over.
    Skipping { path: String },
    /// The entry at `destination` is about to be removed.
    Removing { destination: String },
    /// The entry at `destination` could not be removed; the run goes on.
    RemoveFailed { destination: String, error: String },
    /// Nothing is at `destination`, so nothing is removed.
    Absent { destination: String },
    /// The directories down to `parent` are about to be made.
    CreatingDirectories { parent: String },
    /// What is at the next destination is removed before the link is made.
    Overwriting,
    /// A link to `origin` now stands at `destination`.
    Linked { origin: String, destination: String },
    /// No link could be made at `destination`: its directories could not be
    /// made, what stood there could not be removed, or the link itself could
    /// not be made. The run goes on.
    LinkFailed { origin: String, destination: String, error: String },
}

/// A `Notice` with its texts as sequences of characters.
pub enum NoticeView {
    Spacer,
    RemovingAll { root: Seq<char> },
    LinkingAll { root: Seq<char> },
    Scanning { path: Seq<char> },
    Opening { path: Seq<char> },
    Matched { capture: Seq<char> },
    Tilde,
    Expanded { path: Seq<char> },
    Origin { path: Seq<char> },
    Destination { path: Seq<char> },
    Invalid { path: Seq<char>, error: Seq<char> },
    Checking { path: Seq<char> },
    Skipping { path: Seq<char> },
    Removing { destination: Seq<char> },
    RemoveFailed { destination: Seq<char>, error: Seq<char> },
    Absent { destination: Seq<char> },
    CreatingDirectories { parent: Seq<char> },
    Overwriting,
    Linked { origin: Seq<char>, destination: Seq<char> },
    LinkFailed { origin: Seq<char>, destination: Seq<char>, error: Seq<char> },
}

impl View for Notice {
    type V = NoticeView;

    open spec fn view(&self) -> NoticeView {
        match *self {
            Notice::Spacer => NoticeView::Spacer,
            Notice::RemovingAll { root } => NoticeView::RemovingAll { root: root@ },
            Notice::LinkingAll { root } => NoticeView::LinkingAll { root: root@ },
            Notice::Scanning { path } => NoticeView::Scanning { path: path@ },
            Notice::Opening { path } => NoticeView::Opening { path: path@ },
            Notice::Matched { capture } => NoticeView::Matched { capture: capture@ },
            Notice::Tilde => NoticeView::Tilde,
            Notice::Expanded { path } => NoticeView::Expanded { path: path@ },
            Notice::Origin { path } => NoticeView::Origin { path: path@ },
            Notice::Destination { path } => NoticeView::Destination { path: path@ },
            Notice::Invalid { path, error } => NoticeView::Invalid { path: path@, error: error@ },
            Notice::Checking { path } => NoticeView::Checking { path: path@ },
            Notice::Skipping { path } => NoticeView::Skipping { path: path@ },
            Notice::Removing { destination } => NoticeView::Removing { destination: destination@ },
            Notice::RemoveFailed { destination, error } => NoticeView::RemoveFailed {
                destination: destination@,
                error: error@,
            },
            Notice::Absent { destination } => NoticeView::Absent { destination: destination@ },
            Notice::CreatingDirectories { parent } => NoticeView::CreatingDirectories {
                parent: parent@,
            },
            Notice::Overwriting => NoticeView::Overwriting,
            Notice::Linked { origin, destination } => NoticeView::Linked {
                origin: origin@,
                destination: destination@,
            },
            Notice::LinkFailed { origin, destination, error } => NoticeView::LinkFailed {
                origin: origin@,
                destination: destination@,
                error: error@,
            },
        }
    }
}

impl DeepView for Notice {
    type V = NoticeView;

    open spec fn deep_view(&self) -> NoticeView {
        self@
    }
}

/// The sentence that tells `notice`. The spacer has none.
pub open spec fn text_of(notice: NoticeView) -> Seq<char> {
    match notice {
        NoticeView::Spacer => Seq::empty(),
        NoticeView::RemovingAll { root } => "Removing all symlinks from "@ + root,
        NoticeView::LinkingAll { root } => "Symlinking all files in "@ + root,
        NoticeView::Scanning { path } => "Getting links from "@ + path,
        NoticeView::Opening { path } => "Trying to open file "@ + path,
        NoticeView::Matched { capture } => "Matched: '##!!"@ + capture
            + "', extracted substring: "@ + capture,
        NoticeView::Tilde => "Found tilde, replacing"@,
        NoticeView::Expanded { path } => "Expanded path: "@ + path,
        NoticeView::Origin { path } => "Origin: "@ + path,
        NoticeView::Destination { path } => "Destination: "@ + path,
        NoticeView::Invalid { path, error } => "Path "@ + path + " is not valid: "@ + error,
        NoticeView::Checking { path } => "Checking directory "@ + path,
        NoticeView::Skipping { path } => "Skipping "@ + path,
        NoticeView::Removing { destination } => "Removing link "@ + destination,
        NoticeView::RemoveFailed { destination, error } => "Removing link "@ + destination
            + " failed: "@ + error,
        NoticeView::Absent { destination } => "No link at "@ + destination,
        NoticeView::CreatingDirectories { parent } => "Creating all directories for path "@
            + parent,
        NoticeView::Overwriting => "Deleting symlink to overwrite."@,
        NoticeView::Linked { origin, destination } => "Symlinked "@ + origin + " to "@
            + destination,
        NoticeView::LinkFailed { origin, destination, error } => "Symlinking "@ + origin + " to "@
            + destination + " failed: "@ + error,
    }
}

/// How far `notice` is indented: the details of a scan stand deeper than the
/// steps of the run.
pub open spec fn level_of(notice: NoticeView) -> nat {
    match notice {
        NoticeView::Opening { .. }
        | NoticeView::Matched { .. }
        | NoticeView::Tilde
        | NoticeView::Expanded { .. }
        | NoticeView::Origin { .. }
        | NoticeView::Destination { .. }
        | NoticeView::Invalid { .. } => 3,
        _ => 1,
    }
}

/// Whether `notice` is told only to a user who asked for verbose output.
pub open spec fn is_detail(notice: NoticeView) -> bool {
    match notice {
        NoticeView::Opening { .. }
        | NoticeView::Matched { .. }
        | NoticeView::Tilde
        | NoticeView::Expanded { .. }
        | NoticeView::Origin { .. }
        | NoticeView::Destination { .. }
        | NoticeView::Absent { .. } => true,
        _ => false,
    }
}

/// Nothing to tell.
pub fn no_notice() -> (notices: Vec<Notice>)
    ensures
        notices.deep_view() == Seq::<NoticeView>::empty(),
{
    Vec::new()
}

/// `notice`, and no more.
pub fn one_notice(notice: Notice) -> (notices: Vec<Notice>)
    ensures
        notices.deep_view() == seq![notice@],
{
    let mut notices: Vec<Notice> = Vec::new();
    notices.push(notice);
    notices
}

/// `first`, and then `second`.
pub fn two_notices(first: Notice, second: Notice) -> (notices: Vec<Notice>)
    ensures
        notices.deep_view() == seq![first@, second@],
{
    let mut notices: Vec<Notice> = Vec::new();
    notices.push(first);
    notices.push(second);
    notices
}

/// `start` and then `rest`.
pub fn phrase(start: &str, rest: &str) -> (text: String)
    ensures
        text@ == start@ + rest@,
{
    let mut text = start.to_owned();
    text.append(rest);
    text
}

impl Notice {
    /// The sentence that tells this notice.
    pub fn text(&self) -> (text: String)
        ensures
            text@ == text_of(self@),
    {
        match self {
            Notice::Spacer => String::new(),
            Notice::RemovingAll { root } => phrase("Removing all symlinks from ", root.as_str()),
            Notice::LinkingAll { root } => phrase("Symlinking all files in ", root.as_str()),
            Notice::Scanning { path } => phrase("Getting links from ", path.as_str()),
            Notice::Opening { path } => phrase("Trying to open file ", path.as_str()),
            Notice::Matched { capture } => {
                let mut text = phrase("Matched: '##!!", capture.as_str());
                text.append("', extracted substring: ");
                text.append(capture.as_str());
                text
            },
            Notice::Tilde => "Found tilde, replacing".to_owned(),
            Notice::Expanded { path } => phrase("Expanded path: ", path.as_str()),
            Notice::Origin { path } => phrase("Origin: ", path.as_str()),
            Notice::Destination { path } => phrase("Destination: ", path.as_str()),
            Notice::Invalid { path, error } => {
                let mut text = phrase("Path ", path.as_str());
                text.append(" is not valid: ");
                text.append(error.as_str());
                text
            },
            Notice::Checking { path } => phrase("Checking directory ", path.as_str()),
            Notice::Skipping { path } => phrase("Skipping ", path.as_str()),
            Notice::Removing { destination } => phrase("Removing link ", destination.as_str()),
            Notice::RemoveFailed { destination, error } => {
                let mut text = phrase("Removing link ", destination.as_str());
                text.append(" failed: ");
                text.append(error.as_str());
                text
            },
            Notice::Absent { destination } => phrase("No link at ", destination.as_str()),
            Notice::CreatingDirectories { parent } => phrase(
                "Creating all directories for path ",
                parent.as_str(),
            ),
            Notice::Overwriting => "Deleting symlink to overwrite.".to_owned(),
            Notice::Linked { origin, destination } => {
                let mut text = phrase("Symlinked ", origin.as_str());
                text.append(" to ");
                text.append(destination.as_str());
                text
            },
            Notice::LinkFailed { origin, destination, error } => {
                let mut text = phrase("Symlinking ", origin.as_str());
                text.append(" to ");
                text.append(destination.as_str());
                text.append(" failed: ");
                text.append(error.as_str());
                text
            },
        }
    }

    /// How far this notice is indented.
    pub fn level(&self) -> (level: usize)
        ensures
            level == level_of(self@),
    {
        match self {
            Notice::Opening { .. }
            | Notice::Matched { .. }
            | Notice::Tilde
            | Notice::Expanded { .. }
            | Notice::Origin { .. }
            | Notice::Destination { .. }
            | Notice::Invalid { .. } => 3,
            _ => 1,
        }
    }

    /// Whether this notice is told only to a user who asked for verbose output.
    pub fn is_detail(&self) -> (detail: bool)
        ensures
            detail == is_detail(self@),
    {
        match self {
            Notice::Opening { .. }
            | Notice::Matched { .. }
            | Notice::Tilde
            | Notice::Expanded { .. }
            | Notice::Origin { .. }
            | Notice::Destination { .. }
            | Notice::Absent { .. } => true,
            _ => false,
        }
    }
}

} // verus!
