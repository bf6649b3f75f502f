//! A file and the places where links to it are wanted, and the two ways to
//! materialize them: make the links, or remove them.

use crate::notice::{no_notice, one_notice, Notice, NoticeView};
use crate::paths::{parent, parent_of};
use crate::request::{Failure, Reply, ReplyView, Request, RequestView};
use vstd::prelude::*;
use vstd::string::*;

verus! {

/// A tagged file and the destinations that its tags name.
#[derive(Clone, PartialEq, Eq, Debug)]
pub struct Link {
    /// The canonical path of the file that carried the tags.
    pub origin: String,
    /// Where links to the file are wanted, in the order of the tags.
    pub destinations: Vec<String>,
}

/// A `Link` with its paths as sequences of characters.
pub struct LinkView {
    pub origin: Seq<char>,
    pub destinations: Seq<Seq<char>>,
}

impl View for Link {
    type V = LinkView;

    open spec fn view(&self) -> LinkView {
        LinkView { origin: self.origin@, destinations: self.destinations.deep_view() }
    }
}

impl DeepView for Link {
    type V = LinkView;

    open spec fn deep_view(&self) -> LinkView {
        self@
    }
}

/// What a destination is waiting for.
#[derive(Clone, Copy, PartialEq, Eq, Structural, Debug)]
pub enum Stage {
    /// Its directories are being made.
    Directories,
    /// It is being looked at: does anything stand there?
    Probe,
    /// What stands there is being removed.
    Remove,
    /// The link is being made.
    Create,
}

/// How far the materialization of one `Link` has come.
#[derive(Clone, Copy, PartialEq, Eq, Structural, Debug)]
pub enum Progress {
    /// The destination at `index` waits for the reply to its `stage`.
    At { index: usize, stage: Stage },
    /// Every destination was dealt with.
    Finished,
    /// The run was given up: a reply did not answer the request that was
    /// pending.
    Failed { failure: Failure },
}

/// One step of a materialization: where it stands now, and what is to be
/// told of the step.
#[derive(Clone, PartialEq, Eq, Debug)]
pub struct Turn {
    pub progress: Progress,
    pub notices: Vec<Notice>,
}

/// A `Turn` with its notices as `NoticeView`s.
pub struct TurnView {
    pub progress: Progress,
    pub notices: Seq<NoticeView>,
}

impl View for Turn {
    type V = TurnView;

    open spec fn view(&self) -> TurnView {
        TurnView { progress: self.progress, notices: self.notices.deep_view() }
    }
}

/// The request that `progress` waits on: none once the run is over, and none
/// where `progress` is no state of a run on `link`.
pub open spec fn pending_request(link: LinkView, progress: Progress) -> Option<RequestView> {
    match progress {
        Progress::At { index, stage } => {
            if index < link.destinations.len() {
                let destination = link.destinations[index as int];
                match stage {
                    Stage::Directories => match parent(destination) {
                        Some(path) => Some(RequestView::CreateDirectories { path }),
                        None => None,
                    },
                    Stage::Probe => Some(RequestView::Exists { path: destination }),
                    Stage::Remove => Some(RequestView::RemoveFile { path: destination }),
                    Stage::Create => Some(
                        RequestView::Symlink { origin: link.origin, destination },
                    ),
                }
            } else {
                None
            }
        },
        _ => None,
    }
}

/// Removal turns to the destination at `index`: it is looked at, or, past the
/// last one, the run is finished.
pub open spec fn delete_from(link: LinkView, index: int) -> Progress {
    if 0 <= index < link.destinations.len() {
        Progress::At { index: index as usize, stage: Stage::Probe }
    } else {
        Progress::Finished
    }
}

/// One step of removal. A destination that is there is removed and one that
/// is not is passed over; a removal that fails is told of, and the run goes
/// on with the next destination.
pub open spec fn delete_step(link: LinkView, progress: Progress, reply: ReplyView) -> TurnView {
    match progress {
        Progress::At { index, stage } => {
            if index < link.destinations.len() {
                let destination = link.destinations[index as int];
                match (stage, reply) {
                    (Stage::Probe, ReplyView::Exists { present: true }) => TurnView {
                        progress: Progress::At { index, stage: Stage::Remove },
                        notices: seq![NoticeView::Removing { destination }],
                    },
                    (Stage::Probe, ReplyView::Exists { present: false }) => TurnView {
                        progress: delete_from(link, index + 1),
                        notices: seq![NoticeView::Absent { destination }],
                    },
                    (Stage::Remove, ReplyView::Done) => TurnView {
                        progress: delete_from(link, index + 1),
                        notices: Seq::empty(),
                    },
                    (Stage::Remove, ReplyView::Failed { error, .. }) => TurnView {
                        progress: delete_from(link, index + 1),
                        notices: seq![NoticeView::RemoveFailed { destination, error }],
                    },
                    _ => TurnView {
                        progress: Progress::Failed { failure: Failure::Protocol },
                        notices: Seq::empty(),
                    },
                }
            } else {
                TurnView {
                    progress: Progress::Failed { failure: Failure::Protocol },
                    notices: Seq::empty(),
                }
            }
        },
        _ => TurnView { progress, notices: Seq::empty() },
    }
}

/// Creation is past the directories of the destination at `index`: what is
/// there is removed first where `overwrite` is set, else the link is made.
pub open spec fn overwrite_from(overwrite: bool, index: usize) -> TurnView {
    if overwrite {
        TurnView {
            progress: Progress::At { index, stage: Stage::Probe },
            notices: seq![NoticeView::Overwriting],
        }
    } else {
        TurnView { progress: Progress::At { index, stage: Stage::Create }, notices: Seq::empty() }
    }
}

/// Creation turns to the destination at `index`: its directories are made
/// first where `create_dirs` is set and it lies in a directory; past the
/// last one the run is finished.
pub open spec fn link_from(
    link: LinkView,
    overwrite: bool,
    create_dirs: bool,
    index: int,
) -> TurnView {
    if !(0 <= index < link.destinations.len()) {
        TurnView { progress: Progress::Finished, notices: Seq::empty() }
    } else if create_dirs && parent(link.destinations[index]).is_some() {
        TurnView {
            progress: Progress::At { index: index as usize, stage: Stage::Directories },
            notices: seq![
                NoticeView::CreatingDirectories {
                    parent: parent(link.destinations[index]).unwrap(),
                },
            ],
        }
    } else {
        overwrite_from(overwrite, index as usize)
    }
}

/// `first`, and then what `then` tells and where `then` stands.
pub open spec fn followed_by(first: Seq<NoticeView>, then: TurnView) -> TurnView {
    TurnView { progress: then.progress, notices: first + then.notices }
}

/// One step of creation. Whatever fails for a destination, be it the making
/// of its directories, the removal of what stands there or the making of the
/// link, is told of as a failure of that destination, and the run goes on
/// with the next destination.
pub open spec fn link_step(
    link: LinkView,
    overwrite: bool,
    create_dirs: bool,
    progress: Progress,
    reply: ReplyView,
) -> TurnView {
    match progress {
        Progress::At { index, stage } => {
            if index < link.destinations.len() {
                let destination = link.destinations[index as int];
                match (stage, reply) {
                    (Stage::Directories, ReplyView::Done) => overwrite_from(overwrite, index),
                    (Stage::Directories, ReplyView::Failed { error, .. }) => followed_by(
                        seq![NoticeView::LinkFailed { origin: link.origin, destination, error }],
                        link_from(link, overwrite, create_dirs, index + 1),
                    ),
                    (Stage::Probe, ReplyView::Exists { present: true }) => TurnView {
                        progress: Progress::At { index, stage: Stage::Remove },
                        notices: seq![NoticeView::Removing { destination }],
                    },
                    (Stage::Probe, ReplyView::Exists { present: false }) => TurnView {
                        progress: Progress::At { index, stage: Stage::Create },
                        notices: seq![NoticeView::Absent { destination }],
                    },
                    (Stage::Remove, ReplyView::Done) => TurnView {
                        progress: Progress::At { index, stage: Stage::Create },
                        notices: Seq::empty(),
                    },
                    (Stage::Remove, ReplyView::Failed { error, .. }) => followed_by(
                        seq![NoticeView::LinkFailed { origin: link.origin, destination, error }],
                        link_from(link, overwrite, create_dirs, index + 1),
                    ),
                    (Stage::Create, ReplyView::Done) => followed_by(
                        seq![NoticeView::Linked { origin: link.origin, destination }],
                        link_from(link, overwrite, create_dirs, index + 1),
                    ),
                    (Stage::Create, ReplyView::Failed { error, .. }) => followed_by(
                        seq![NoticeView::LinkFailed { origin: link.origin, destination, error }],
                        link_from(link, overwrite, create_dirs, index + 1),
                    ),
                    _ => TurnView {
                        progress: Progress::Failed { failure: Failure::Protocol },
                        notices: Seq::empty(),
                    },
                }
            } else {
                TurnView {
                    progress: Progress::Failed { failure: Failure::Protocol },
                    notices: Seq::empty(),
                }
            }
        },
        _ => TurnView { progress, notices: Seq::empty() },
    }
}

impl Turn {
    /// A step of which nothing is told.
    pub fn quiet(progress: Progress) -> (turn: Turn)
        ensures
            turn@ == (TurnView { progress, notices: Seq::empty() }),
    {
        Turn { progress, notices: no_notice() }
    }

    /// A step of which `notice` is told.
    pub fn telling(progress: Progress, notice: Notice) -> (turn: Turn)
        ensures
            turn@ == (TurnView { progress, notices: seq![notice@] }),
    {
        Turn { progress, notices: one_notice(notice) }
    }
}

impl Link {
    /// What the caller has to do now: the request that `progress` waits on.
    pub fn request(&self, progress: Progress) -> (request: Option<Request>)
        ensures
            request.deep_view() == pending_request(self@, progress),
    {
        match progress {
            Progress::At { index, stage } => {
                if index < self.destinations.len() {
                    let destination = &self.destinations[index];
                    match stage {
                        Stage::Directories => match parent_of(destination.as_str()) {
                            Some(path) => Some(Request::CreateDirectories { path }),
                            None => None,
                        },
                        Stage::Probe => Some(Request::Exists { path: destination.clone() }),
                        Stage::Remove => Some(Request::RemoveFile { path: destination.clone() }),
                        Stage::Create => Some(
                            Request::Symlink {
                                origin: self.origin.clone(),
                                destination: destination.clone(),
                            },
                        ),
                    }
                } else {
                    None
                }
            },
            _ => None,
        }
    }

    /// Removal turns to the destination at `index`.
    fn delete_at(&self, index: usize) -> (progress: Progress)
        ensures
            progress == delete_from(self@, index as int),
    {
        if index < self.destinations.len() {
            Progress::At { index, stage: Stage::Probe }
        } else {
            Progress::Finished
        }
    }

    /// Starts the removal of the links: the first step of the run.
    pub fn begin_delete(&self) -> (turn: Turn)
        ensures
            turn@ == (TurnView { progress: delete_from(self@, 0), notices: Seq::empty() }),
    {
        Turn::quiet(self.delete_at(0))
    }

    /// Delete the link: one step of it. `progress` is where the run stands
    /// and `reply` the answer to the request that it was waiting on.
    pub fn delete(&self, progress: Progress, reply: Reply) -> (turn: Turn)
        ensures
            turn@ == delete_step(self@, progress, reply@),
    {
        let protocol = Progress::Failed { failure: Failure::Protocol };
        match progress {
            Progress::At { index, stage } => {
                if index < self.destinations.len() {
                    let destination = self.destinations[index].clone();
                    match stage {
                        Stage::Probe => match reply {
                            Reply::Exists { present } => {
                                if present {
                                    Turn::telling(
                                        Progress::At { index, stage: Stage::Remove },
                                        Notice::Removing { destination },
                                    )
                                } else {
                                    Turn::telling(
                                        self.delete_at(index + 1),
                                        Notice::Absent { destination },
                                    )
                                }
                            },
                            _ => Turn::quiet(protocol),
                        },
                        Stage::Remove => match reply {
                            Reply::Done => Turn::quiet(self.delete_at(index + 1)),
                            Reply::Failed { error, .. } => Turn::telling(
                                self.delete_at(index + 1),
                                Notice::RemoveFailed { destination, error },
                            ),
                            _ => Turn::quiet(protocol),
                        },
                        _ => Turn::quiet(protocol),
                    }
                } else {
                    Turn::quiet(protocol)
                }
            },
            _ => Turn::quiet(progress),
        }
    }

    /// Creation is past the directories of the destination at `index`.
    fn overwrite_at(overwrite: bool, index: usize) -> (turn: Turn)
        ensures
            turn@ == overwrite_from(overwrite, index),
    {
        if overwrite {
            Turn::telling(Progress::At { index, stage: Stage::Probe }, Notice::Overwriting)
        } else {
            Turn::quiet(Progress::At { index, stage: Stage::Create })
        }
    }

    /// Creation turns to the destination at `index`.
    fn link_at(&self, overwrite: bool, create_dirs: bool, index: usize) -> (turn: Turn)
        ensures
            turn@ == link_from(self@, overwrite, create_dirs, index as int),
    {
        if index >= self.destinations.len() {
            Turn::quiet(Progress::Finished)
        } else if create_dirs {
            match parent_of(self.destinations[index].as_str()) {
                Some(directory) => Turn::telling(
                    Progress::At { index, stage: Stage::Directories },
                    Notice::CreatingDirectories { parent: directory },
                ),
                None => Link::overwrite_at(overwrite, index),
            }
        } else {
            Link::overwrite_at(overwrite, index)
        }
    }

    /// Starts the making of the links: the first step of the run.
    pub fn begin_link(&self, overwrite: bool, create_dirs: bool) -> (turn: Turn)
        ensures
            turn@ == link_from(self@, overwrite, create_dirs, 0),
    {
        self.link_at(overwrite, create_dirs, 0)
    }

    /// Tells `first`, then turns to the destination behind the one at `index`.
    fn link_behind(
        &self,
        overwrite: bool,
        create_dirs: bool,
        index: usize,
        first: Notice,
    ) -> (turn: Turn)
        requires
            index < self.destinations.len(),
        ensures
            turn@ == followed_by(
                seq![first@],
                link_from(self@, overwrite, create_dirs, index + 1),
            ),
    {
        let mut notices = one_notice(first);
        let mut then = self.link_at(overwrite, create_dirs, index + 1);
        let ghost more = then.notices.deep_view();
        notices.append(&mut then.notices);
        assert(notices.deep_view() =~= seq![first@] + more);
        Turn { progress: then.progress, notices }
    }

    /// Symlink the link: one step of it. `progress` is where the run stands
    /// and `reply` the answer to the request that it was waiting on.
    pub fn link(
        &self,
        overwrite: bool,
        create_dirs: bool,
        progress: Progress,
        reply: Reply,
    ) -> (turn: Turn)
        ensures
            turn@ == link_step(self@, overwrite, create_dirs, progress, reply@),
    {
        let protocol = Progress::Failed { failure: Failure::Protocol };
        match progress {
            Progress::At { index, stage } => {
                if index < self.destinations.len() {
                    let destination = self.destinations[index].clone();
                    match stage {
                        Stage::Directories => match reply {
                            Reply::Done => Link::overwrite_at(overwrite, index),
                            Reply::Failed { error, .. } => self.link_behind(
                                overwrite,
                                create_dirs,
                                index,
                                Notice::LinkFailed {
                                    origin: self.origin.clone(),
                                    destination,
                                    error,
                                },
                            ),
                            _ => Turn::quiet(protocol),
                        },
                        Stage::Probe => match reply {
                            Reply::Exists { present } => {
                                if present {
                                    Turn::telling(
                                        Progress::At { index, stage: Stage::Remove },
                                        Notice::Removing { destination },
                                    )
                                } else {
                                    Turn::telling(
                                        Progress::At { index, stage: Stage::Create },
                                        Notice::Absent { destination },
                                    )
                                }
                            },
                            _ => Turn::quiet(protocol),
                        },
                        Stage::Remove => match reply {
                            Reply::Done => Turn::quiet(
                                Progress::At { index, stage: Stage::Create },
                            ),
                            Reply::Failed { error, .. } => self.link_behind(
                                overwrite,
                                create_dirs,
                                index,
                                Notice::LinkFailed {
                                    origin: self.origin.clone(),
                                    destination,
                                    error,
                                },
                            ),
                            _ => Turn::quiet(protocol),
                        },
                        Stage::Create => match reply {
                            Reply::Done => self.link_behind(
                                overwrite,
                                create_dirs,
                                index,
                                Notice::Linked { origin: self.origin.clone(), destination },
                            ),
                            Reply::Failed { error, .. } => self.link_behind(
                                overwrite,
                                create_dirs,
                                index,
                                Notice::LinkFailed {
                                    origin: self.origin.clone(),
                                    destination,
                                    error,
                                },
                            ),
                            _ => Turn::quiet(protocol),
                        },
                    }
                } else {
                    Turn::quiet(protocol)
                }
            },
            _ => Turn::quiet(progress),
        }
    }
}

} // verus!
