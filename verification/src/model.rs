//! A file system to reason with: a map from paths to what stands there, and
//! how it answers the requests of a materialization. On it the laws of
//! materialization are stated and proved.
//!
//! The model knows files, directories and links, no permissions and no
//! links that stand for directories: a request fails on it only for what
//! stands, or does not stand, at the paths that it names.

use crate::link::{
    delete_from, delete_step, link_from, link_step, pending_request, LinkView, Progress, Stage,
    TurnView,
};
use crate::notice::NoticeView;
use crate::paths::parent;
use crate::request::{ReplyView, RequestView};
use vstd::prelude::*;

verus! {

/// What stands at a path.
pub enum Node {
    /// A regular file.
    File,
    /// A directory.
    Directory,
    /// A symbolic link to `target`.
    Symlink { target: Seq<char> },
}

/// A file system: what stands at each path at which something stands.
pub type Tree = Map<Seq<char>, Node>;

/// Whether `path` is a directory of `tree`. The working directory, which the
/// empty path names, and the root are directories of every tree.
pub open spec fn is_directory(tree: Tree, path: Seq<char>) -> bool {
    ||| path.len() == 0
    ||| path == seq!['/']
    ||| (tree.contains_key(path) && tree[path] is Directory)
}

/// Whether `above` is `path` or a directory that `path` lies under: a stretch
/// of `path` from its start up to its end or up to one of its `/`.
pub open spec fn is_above(above: Seq<char>, path: Seq<char>) -> bool {
    exists|cut: int|
        0 < cut <= path.len() && (cut == path.len() || path[cut] == '/') && above
            == #[trigger] path.subrange(0, cut)
}

/// Whether the directories down to `path` can be made in `tree`: nothing but
/// a directory stands at `path` or above it.
pub open spec fn can_make_directories(tree: Tree, path: Seq<char>) -> bool {
    forall|above: Seq<char>|
        is_above(above, path) && tree.contains_key(above) ==> tree[above] is Directory
}

/// `tree` with the directories down to `path` made: what stood there stands.
pub open spec fn with_directories(tree: Tree, path: Seq<char>) -> Tree {
    Map::new(
        |at: Seq<char>| tree.contains_key(at) || is_above(at, path),
        |at: Seq<char>|
            if tree.contains_key(at) {
                tree[at]
            } else {
                Node::Directory
            },
    )
}

/// Whether a link can be made at `destination` in `tree`: nothing stands
/// there, and it lies in a directory.
pub open spec fn can_link(tree: Tree, destination: Seq<char>) -> bool {
    &&& !tree.contains_key(destination)
    &&& parent(destination) matches Some(directory) && is_directory(tree, directory)
}

/// A file system after a request, and the reply to the request.
pub struct Answer {
    pub tree: Tree,
    pub reply: ReplyView,
}

/// What the model says where nothing stands at a path.
pub open spec fn not_found() -> ReplyView {
    ReplyView::Failed { missing: true, error: "No such file or directory"@ }
}

/// What the model says where the wrong thing stands at a path.
pub open spec fn refused() -> ReplyView {
    ReplyView::Failed { missing: false, error: "Operation not permitted"@ }
}

/// How `tree` answers `request`, and what it is afterwards.
///
/// Only a file or a link can be removed. A directory that is there need not
/// be made; one that is not is made, with those above it, where nothing but
/// directories stands in their way. A link is made where nothing stands, in a
/// directory that is there. The requests of discovery are not modelled:
/// they are refused.
pub open spec fn answer(tree: Tree, request: RequestView) -> Answer {
    match request {
        RequestView::Exists { path } => Answer {
            tree,
            reply: ReplyView::Exists { present: tree.contains_key(path) },
        },
        RequestView::RemoveFile { path } => if !tree.contains_key(path) {
            Answer { tree, reply: not_found() }
        } else if tree[path] is Directory {
            Answer { tree, reply: refused() }
        } else {
            Answer { tree: tree.remove(path), reply: ReplyView::Done }
        },
        RequestView::CreateDirectories { path } => if is_directory(tree, path) {
            Answer { tree, reply: ReplyView::Done }
        } else if can_make_directories(tree, path) {
            Answer { tree: with_directories(tree, path), reply: ReplyView::Done }
        } else {
            Answer { tree, reply: refused() }
        },
        RequestView::Symlink { origin, destination } => if can_link(tree, destination) {
            Answer {
                tree: tree.insert(destination, Node::Symlink { target: origin }),
                reply: ReplyView::Done,
            }
        } else if tree.contains_key(destination) {
            Answer { tree, reply: refused() }
        } else {
            Answer { tree, reply: not_found() }
        },
        _ => Answer { tree, reply: refused() },
    }
}

/// How a materialization ended on the model: the file system that it left,
/// where it stopped, and all that it told.
pub struct Outcome {
    pub tree: Tree,
    pub progress: Progress,
    pub notices: Seq<NoticeView>,
}

/// How many requests a run on `link` can still make from `progress`, at most.
pub open spec fn steps_left(link: LinkView, progress: Progress) -> nat {
    match progress {
        Progress::At { index, stage } => if index < link.destinations.len() {
            (4 * (link.destinations.len() - index) - match stage {
                Stage::Directories => 0int,
                Stage::Probe => 1int,
                Stage::Remove => 2int,
                Stage::Create => 3int,
            }) as nat
        } else {
            0
        },
        _ => 0,
    }
}

/// The removal of the links of `link` on `tree`, from `turn` to its end.
pub open spec fn delete_run(link: LinkView, turn: TurnView, tree: Tree) -> Outcome
    decreases steps_left(link, turn.progress),
    when link.destinations.len() <= usize::MAX
{
    match pending_request(link, turn.progress) {
        None => Outcome { tree, progress: turn.progress, notices: turn.notices },
        Some(request) => {
            let answer = answer(tree, request);
            let next = delete_step(link, turn.progress, answer.reply);
            delete_run(
                link,
                TurnView { progress: next.progress, notices: turn.notices + next.notices },
                answer.tree,
            )
        },
    }
}

/// The making of the links of `link` on `tree`, from `turn` to its end.
pub open spec fn link_run(
    link: LinkView,
    overwrite: bool,
    create_dirs: bool,
    turn: TurnView,
    tree: Tree,
) -> Outcome
    decreases steps_left(link, turn.progress),
    when link.destinations.len() <= usize::MAX
{
    match pending_request(link, turn.progress) {
        None => Outcome { tree, progress: turn.progress, notices: turn.notices },
        Some(request) => {
            let answer = answer(tree, request);
            let next = link_step(link, overwrite, create_dirs, turn.progress, answer.reply);
            link_run(
                link,
                overwrite,
                create_dirs,
                TurnView { progress: next.progress, notices: turn.notices + next.notices },
                answer.tree,
            )
        },
    }
}

/// The whole removal of the links of `link` on `tree`.
pub open spec fn deleted(link: LinkView, tree: Tree) -> Outcome {
    delete_run(link, TurnView { progress: delete_from(link, 0), notices: Seq::empty() }, tree)
}

/// The whole making of the links of `link` on `tree`.
pub open spec fn linked(link: LinkView, overwrite: bool, create_dirs: bool, tree: Tree) -> Outcome {
    link_run(link, overwrite, create_dirs, link_from(link, overwrite, create_dirs, 0), tree)
}

} // verus!
