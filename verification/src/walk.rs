//! Discovery: the walk over a file or a tree of directories that finds the
//! tagged files, one request at a time.

use crate::autolink::{scan_of, Autolink, Environment};
use crate::link::{Link, LinkView};
use crate::notice::{no_notice, one_notice, two_notices, Notice, NoticeView};
use crate::request::{EntryKind, Failure, Reply, ReplyView, Request, RequestView};
use vstd::prelude::*;
use vstd::string::*;

verus! {

/// What the path on top of the walk is waiting for.
#[derive(Clone, Copy, PartialEq, Eq, Structural, Debug)]
pub enum WalkStage {
    /// It is being classified.
    Classify,
    /// It is a file, and is being read.
    Read,
    /// It is a directory, and is being listed.
    List,
    /// Nothing is left to visit.
    Finished,
    /// The walk was given up.
    Failed { failure: Failure },
}

/// A walk under way.
///
/// A walk does not remember where it has been: where links make a circle of
/// directories, it goes round for as long as the paths can be resolved.
#[derive(Clone, PartialEq, Eq, Debug)]
pub struct Walk {
    /// The paths still to visit; the last one is visited next.
    pub pending: Vec<String>,
    /// The files scanned so far, in the order of the visit.
    pub found: Vec<Link>,
    /// What the next path is waiting for.
    pub stage: WalkStage,
}

/// A `Walk` with its paths as sequences of characters.
pub struct WalkView {
    pub pending: Seq<Seq<char>>,
    pub found: Seq<LinkView>,
    pub stage: WalkStage,
}

impl View for Walk {
    type V = WalkView;

    open spec fn view(&self) -> WalkView {
        WalkView {
            pending: self.pending.deep_view(),
            found: self.found.deep_view(),
            stage: self.stage,
        }
    }
}

/// One step of a walk: where it stands now, and what is to be told of the
/// step.
#[derive(Clone, PartialEq, Eq, Debug)]
pub struct Stride {
    pub walk: Walk,
    pub notices: Vec<Notice>,
}

/// A `Stride` with its texts as sequences of characters.
pub struct StrideView {
    pub walk: WalkView,
    pub notices: Seq<NoticeView>,
}

impl View for Stride {
    type V = StrideView;

    open spec fn view(&self) -> StrideView {
        StrideView { walk: self.walk@, notices: self.notices.deep_view() }
    }
}

/// The walk that is about to visit `root`.
pub open spec fn walk_from(root: Seq<char>) -> WalkView {
    WalkView { pending: seq![root], found: Seq::empty(), stage: WalkStage::Classify }
}

/// The walk goes on with `pending`: its last path is classified next, and
/// with nothing pending the walk is finished.
pub open spec fn walk_on(pending: Seq<Seq<char>>, found: Seq<LinkView>) -> WalkView {
    WalkView {
        pending,
        found,
        stage: if pending.len() == 0 {
            WalkStage::Finished
        } else {
            WalkStage::Classify
        },
    }
}

/// The walk is given up.
pub open spec fn walk_failed(walk: WalkView, failure: Failure) -> StrideView {
    StrideView {
        walk: WalkView { stage: WalkStage::Failed { failure }, ..walk },
        notices: Seq::empty(),
    }
}

/// The request that `walk` waits on: none once it is over.
pub open spec fn walk_request(walk: WalkView) -> Option<RequestView> {
    if walk.pending.len() == 0 {
        None
    } else {
        let path = walk.pending.last();
        match walk.stage {
            WalkStage::Classify => Some(RequestView::Classify { path }),
            WalkStage::Read => Some(RequestView::ReadFile { path }),
            WalkStage::List => Some(RequestView::ListDirectory { path }),
            _ => None,
        }
    }
}

/// One step of a walk, in the home directory `home` and the working
/// directory `base`.
///
/// A file is read and scanned, and what the scan gives joins what was found.
/// A directory is listed, and its entries are visited next, in the order of
/// the listing and before anything that was pending. Anything else is passed
/// over, and so is a directory that was not found when it came to be listed.
/// A file that cannot be read or scanned and a directory that cannot be
/// listed end the walk.
pub open spec fn walk_step(
    walk: WalkView,
    reply: ReplyView,
    home: Option<Seq<char>>,
    base: Seq<char>,
) -> StrideView {
    if walk.stage is Finished || walk.stage is Failed {
        StrideView { walk, notices: Seq::empty() }
    } else if walk.pending.len() == 0 {
        walk_failed(walk, Failure::Protocol)
    } else {
        let path = walk.pending.last();
        let rest = walk.pending.drop_last();
        match (walk.stage, reply) {
            (WalkStage::Classify, ReplyView::Kind { kind: EntryKind::File }) => StrideView {
                walk: WalkView { stage: WalkStage::Read, ..walk },
                notices: seq![NoticeView::Scanning { path }, NoticeView::Opening { path }],
            },
            (WalkStage::Classify, ReplyView::Kind { kind: EntryKind::Directory }) => StrideView {
                walk: WalkView { stage: WalkStage::List, ..walk },
                notices: seq![NoticeView::Checking { path }],
            },
            (WalkStage::Classify, ReplyView::Kind { kind: EntryKind::Other }) => StrideView {
                walk: walk_on(rest, walk.found),
                notices: seq![NoticeView::Skipping { path }],
            },
            (WalkStage::Read, ReplyView::File { canonical, lines }) => match scan_of(
                path,
                canonical,
                lines,
                home,
                base,
            ) {
                Ok(scan) => StrideView {
                    walk: walk_on(rest, walk.found.push(scan.link)),
                    notices: scan.notices,
                },
                Err(failure) => walk_failed(walk, failure),
            },
            (WalkStage::Read, ReplyView::Failed { .. }) => walk_failed(walk, Failure::Io),
            (WalkStage::List, ReplyView::Entries { paths }) => StrideView {
                walk: walk_on(rest + paths.reverse(), walk.found),
                notices: Seq::empty(),
            },
            (WalkStage::List, ReplyView::Failed { missing: true, .. }) => StrideView {
                walk: walk_on(rest, walk.found),
                notices: seq![NoticeView::Skipping { path }],
            },
            (WalkStage::List, ReplyView::Failed { missing: false, .. }) => walk_failed(
                walk,
                Failure::Io,
            ),
            _ => walk_failed(walk, Failure::Protocol),
        }
    }
}

/// Puts `paths` behind the last of `stack`, the last of them first.
pub fn push_reversed(stack: &mut Vec<String>, paths: Vec<String>)
    ensures
        final(stack).deep_view() == old(stack).deep_view() + paths.deep_view().reverse(),
{
    let mut left = paths;
    let ghost listed = left.deep_view();
    while left.len() > 0
        invariant
            left.len() <= listed.len(),
            left.deep_view() == listed.take(left.len() as int),
            stack.deep_view() == old(stack).deep_view() + listed.reverse().take(
                listed.len() - left.len(),
            ),
        decreases left.len(),
    {
        let ghost count = left.len();
        if let Some(path) = pop_path(&mut left) {
            push_path(stack, path);
            assert(left.deep_view() =~= listed.take(count - 1));
        }
    }
    assert(listed.reverse().take(listed.len() as int) =~= listed.reverse());
}

/// Puts `path` behind the last of `paths`.
pub fn push_path(paths: &mut Vec<String>, path: String)
    ensures
        final(paths).deep_view() == old(paths).deep_view().push(path@),
{
    paths.push(path);
}

/// Takes the last of `paths`, where there is one.
pub fn pop_path(paths: &mut Vec<String>) -> (path: Option<String>)
    ensures
        match path {
            Some(p) => {
                &&& old(paths).len() > 0
                &&& p@ == old(paths).deep_view().last()
                &&& final(paths).deep_view() == old(paths).deep_view().drop_last()
            },
            None => old(paths).len() == 0 && final(paths).deep_view() == old(paths).deep_view(),
        },
{
    paths.pop()
}

impl Walk {
    /// The walk that is about to visit `root`.
    pub fn new(root: String) -> (walk: Walk)
        ensures
            walk@ == walk_from(root@),
    {
        let mut pending: Vec<String> = Vec::new();
        push_path(&mut pending, root);
        let walk = Walk { pending, found: Vec::new(), stage: WalkStage::Classify };
        assert(walk@.pending =~= seq![root@]);
        assert(walk@.found =~= Seq::empty());
        walk
    }

    /// What the caller has to do now: the request that this walk waits on.
    pub fn request(&self) -> (request: Option<Request>)
        ensures
            request.deep_view() == walk_request(self@),
    {
        if self.pending.len() == 0 {
            return None;
        }
        let path = self.pending[self.pending.len() - 1].clone();
        match self.stage {
            WalkStage::Classify => Some(Request::Classify { path }),
            WalkStage::Read => Some(Request::ReadFile { path }),
            WalkStage::List => Some(Request::ListDirectory { path }),
            _ => None,
        }
    }

    /// The walk goes on with what is pending.
    fn go_on(pending: Vec<String>, found: Vec<Link>) -> (walk: Walk)
        ensures
            walk@ == walk_on(pending.deep_view(), found.deep_view()),
    {
        let stage = if pending.len() == 0 {
            WalkStage::Finished
        } else {
            WalkStage::Classify
        };
        Walk { pending, found, stage }
    }

    /// The walk is given up.
    fn fail(self, failure: Failure) -> (stride: Stride)
        ensures
            stride@ == walk_failed(self@, failure),
    {
        Stride {
            walk: Walk {
                pending: self.pending,
                found: self.found,
                stage: WalkStage::Failed { failure },
            },
            notices: no_notice(),
        }
    }

    /// The walk passes over `path`, which is the next that is pending, and
    /// goes on.
    fn pass_over(self, path: String) -> (stride: Stride)
        requires
            self.pending.len() > 0,
            path@ == self@.pending.last(),
        ensures
            stride@ == (StrideView {
                walk: walk_on(self@.pending.drop_last(), self@.found),
                notices: seq![NoticeView::Skipping { path: path@ }],
            }),
    {
        let mut pending = self.pending;
        let _ = pop_path(&mut pending);
        Stride {
            walk: Walk::go_on(pending, self.found),
            notices: one_notice(Notice::Skipping { path }),
        }
    }
}

impl Autolink {
    /// Find all links recursively in a given folder or in a file: one step of
    /// it. `walk` is where the walk stands and `reply` the answer to the
    /// request that it was waiting on.
    pub fn find_links(
        &self,
        environment: &Environment,
        walk: Walk,
        reply: Reply,
    ) -> (stride: Stride)
        ensures
            stride@ == walk_step(
                walk@,
                reply@,
                environment.home.deep_view(),
                environment.working_directory@,
            ),
    {
        match walk.stage {
            WalkStage::Finished | WalkStage::Failed { .. } => {
                return Stride { walk, notices: no_notice() };
            },
            _ => {},
        }
        if walk.pending.len() == 0 {
            return walk.fail(Failure::Protocol);
        }
        let path = walk.pending[walk.pending.len() - 1].clone();
        match walk.stage {
            WalkStage::Classify => match reply {
                Reply::Kind { kind } => match kind {
                    EntryKind::File => Stride {
                        walk: Walk {
                            pending: walk.pending,
                            found: walk.found,
                            stage: WalkStage::Read,
                        },
                        notices: two_notices(
                            Notice::Scanning { path: path.clone() },
                            Notice::Opening { path },
                        ),
                    },
                    EntryKind::Directory => Stride {
                        walk: Walk {
                            pending: walk.pending,
                            found: walk.found,
                            stage: WalkStage::List,
                        },
                        notices: one_notice(Notice::Checking { path }),
                    },
                    EntryKind::Other => walk.pass_over(path),
                },
                _ => walk.fail(Failure::Protocol),
            },
            WalkStage::Read => match reply {
                Reply::File { canonical, lines } => match self.get_link(
                    environment,
                    path.as_str(),
                    canonical,
                    &lines,
                ) {
                    Ok(scan) => {
                        let mut pending = walk.pending;
                        let mut found = walk.found;
                        let _ = pop_path(&mut pending);
                        found.push(scan.link);
                        assert(found.deep_view() =~= walk.found.deep_view().push(scan.link@));
                        Stride { walk: Walk::go_on(pending, found), notices: scan.notices }
                    },
                    Err(failure) => walk.fail(failure),
                },
                Reply::Failed { .. } => walk.fail(Failure::Io),
                _ => walk.fail(Failure::Protocol),
            },
            WalkStage::List => match reply {
                Reply::Entries { paths } => {
                    let mut pending = walk.pending;
                    let _ = pop_path(&mut pending);
                    push_reversed(&mut pending, paths);
                    Stride { walk: Walk::go_on(pending, walk.found), notices: no_notice() }
                },
                Reply::Failed { missing, .. } => {
                    if missing {
                        walk.pass_over(path)
                    } else {
                        walk.fail(Failure::Io)
                    }
                },
                _ => walk.fail(Failure::Protocol),
            },
            _ => walk.fail(Failure::Protocol),
        }
    }
}

} // verus!
