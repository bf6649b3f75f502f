//! The library touches no file system. It says what it needs done, as a
//! `Request`, and is told how that went, as a `Reply`.

use vstd::prelude::*;

verus! {

/// What stands at a path.
#[derive(Clone, Copy, PartialEq, Eq, Structural, Debug)]
pub enum EntryKind {
    /// A regular file.
    File,
    /// A directory.
    Directory,
    /// Anything else, or nothing that could be looked at.
    Other,
}

/// Why a run came to an end before its work was done.
#[derive(Clone, Copy, PartialEq, Eq, Structural, Debug)]
pub enum Failure {
    /// A request of discovery failed: a file could not be read, or a
    /// directory could not be listed.
    Io,
    /// A file to scan lies in no directory.
    NoParent,
    /// A file to scan has no base name.
    NoFileName,
    /// The matcher rejected the tag pattern.
    Pattern,
    /// The reply does not answer the request that was pending.
    Protocol,
}

/// One thing for the caller to do on the file system.
#[derive(Clone, PartialEq, Eq, Debug)]
pub enum Request {
    /// Say what stands at `path`: answered by `Reply::Kind`.
    Classify { path: String },
    /// Read the lines of the file at `path`, then resolve `path` to its
    /// canonical form: answered by `Reply::File` or `Reply::Failed`.
    ReadFile { path: String },
    /// List the entries of the directory at `path`, each as a path that
    /// starts with `path`: answered by `Reply::Entries` or `Reply::Failed`.
    ListDirectory { path: String },
    /// Say whether anything stands at `path`: answered by `Reply::Exists`.
    Exists { path: String },
    /// Remove the file or link at `path`: answered by `Reply::Done` or
    /// `Reply::Failed`.
    RemoveFile { path: String },
    /// Make the directory `path` and every directory above it that is
    /// missing: answered by `Reply::Done` or `Reply::Failed`.
    CreateDirectories { path: String },
    /// Make a symbolic link at `destination` that points to `origin`:
    /// answered by `Reply::Done` or `Reply::Failed`.
    Symlink { origin: String, destination: String },
}

/// A `Request` with its paths as sequences of characters.
pub enum RequestView {
    Classify { path: Seq<char> },
    ReadFile { path: Seq<char> },
    ListDirectory { path: Seq<char> },
    Exists { path: Seq<char> },
    RemoveFile { path: Seq<char> },
    CreateDirectories { path: Seq<char> },
    Symlink { origin: Seq<char>, destination: Seq<char> },
}

impl View for Request {
    type V = RequestView;

    open spec fn view(&self) -> RequestView {
        match *self {
            Request::Classify { path } => RequestView::Classify { path: path@ },
            Request::ReadFile { path } => RequestView::ReadFile { path: path@ },
            Request::ListDirectory { path } => RequestView::ListDirectory { path: path@ },
            Request::Exists { path } => RequestView::Exists { path: path@ },
            Request::RemoveFile { path } => RequestView::RemoveFile { path: path@ },
            Request::CreateDirectories { path } => RequestView::CreateDirectories { path: path@ },
            Request::Symlink { origin, destination } => RequestView::Symlink {
                origin: origin@,
                destination: destination@,
            },
        }
    }
}

impl DeepView for Request {
    type V = RequestView;

    open spec fn deep_view(&self) -> RequestView {
        self@
    }
}

/// How the last request went.
#[derive(Clone, PartialEq, Eq, Debug)]
pub enum Reply {
    /// What stands at the path.
    Kind { kind: EntryKind },
    /// The canonical path of the file and its lines, without their line ends.
    File { canonical: String, lines: Vec<String> },
    /// The entries of the directory, in the order of the listing.
    Entries { paths: Vec<String> },
    /// Whether anything stands at the path.
    Exists { present: bool },
    /// It was done.
    Done,
    /// It could not be done. `missing` says that the path was not found;
    /// `error` is what the system said.
    Failed { missing: bool, error: String },
}

/// A `Reply` with its texts as sequences of characters.
pub enum ReplyView {
    Kind { kind: EntryKind },
    File { canonical: Seq<char>, lines: Seq<Seq<char>> },
    Entries { paths: Seq<Seq<char>> },
    Exists { present: bool },
    Done,
    Failed { missing: bool, error: Seq<char> },
}

impl View for Reply {
    type V = ReplyView;

    open spec fn view(&self) -> ReplyView {
        match *self {
            Reply::Kind { kind } => ReplyView::Kind { kind },
            Reply::File { canonical, lines } => ReplyView::File {
                canonical: canonical@,
                lines: lines.deep_view(),
            },
            Reply::Entries { paths } => ReplyView::Entries { paths: paths.deep_view() },
            Reply::Exists { present } => ReplyView::Exists { present },
            Reply::Done => ReplyView::Done,
            Reply::Failed { missing, error } => ReplyView::Failed { missing, error: error@ },
        }
    }
}

} // verus!
