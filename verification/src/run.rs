//! A whole run: the discovery of the tagged files, then the materialization
//! of each of them, in the order in which they were found.

use crate::autolink::{Autolink, AutolinkView, Environment};
use crate::link::{
    delete_from, delete_step, link_from, link_step, pending_request, Link, LinkView, Progress,
    Turn, TurnView,
};
use crate::notice::{no_notice, Notice, NoticeView};
use crate::request::{Failure, Reply, ReplyView, Request, RequestView};
use crate::walk::{walk_from, walk_request, walk_step, Walk, WalkStage, WalkView};
use vstd::prelude::*;
use vstd::string::*;

verus! {

/// The part of a run that is under way.
#[derive(Clone, Copy, PartialEq, Eq, Structural, Debug)]
pub enum Phase {
    /// The tagged files are being found.
    Discovering,
    /// The files that were found are being materialized.
    Materializing,
    /// All is done.
    Finished,
    /// The run was given up: discovery failed, or a reply did not answer the
    /// request that was pending.
    Failed { failure: Failure },
}

/// A run under way.
#[derive(Clone, PartialEq, Eq, Debug)]
pub struct Run {
    /// The part of the run that is under way.
    pub phase: Phase,
    /// The walk that finds the tagged files.
    pub walk: Walk,
    /// Which of the files that were found is being materialized.
    pub index: usize,
    /// How far the materialization of that file has come.
    pub progress: Progress,
}

/// A `Run` with its paths as sequences of characters.
pub struct RunView {
    pub phase: Phase,
    pub walk: WalkView,
    pub index: usize,
    pub progress: Progress,
}

impl View for Run {
    type V = RunView;

    open spec fn view(&self) -> RunView {
        RunView {
            phase: self.phase,
            walk: self.walk@,
            index: self.index,
            progress: self.progress,
        }
    }
}

/// One step of a run: where it stands now, and what is to be told of the
/// step.
#[derive(Clone, PartialEq, Eq, Debug)]
pub struct Step {
    pub run: Run,
    pub notices: Vec<Notice>,
}

/// A `Step` with its texts as sequences of characters.
pub struct StepView {
    pub run: RunView,
    pub notices: Seq<NoticeView>,
}

impl View for Step {
    type V = StepView;

    open spec fn view(&self) -> StepView {
        StepView { run: self.run@, notices: self.notices.deep_view() }
    }
}

/// The run that `config` asks for, before its first step.
pub open spec fn run_from(config: AutolinkView) -> RunView {
    RunView {
        phase: Phase::Discovering,
        walk: walk_from(config.path),
        index: 0,
        progress: Progress::Finished,
    }
}

/// The request that `run` waits on: none once it is over.
pub open spec fn run_request(run: RunView) -> Option<RequestView> {
    match run.phase {
        Phase::Discovering => walk_request(run.walk),
        Phase::Materializing => if run.index < run.walk.found.len() {
            pending_request(run.walk.found[run.index as int], run.progress)
        } else {
            None
        },
        _ => None,
    }
}

/// The first step of the materialization of `link`: of its removal where
/// `config` asks for that, else of its making.
pub open spec fn first_turn(config: AutolinkView, link: LinkView) -> TurnView {
    if config.delete {
        TurnView { progress: delete_from(link, 0), notices: Seq::empty() }
    } else {
        link_from(link, config.overwrite, config.create_dirs, 0)
    }
}

/// A further step of the materialization of `link`.
pub open spec fn next_turn(
    config: AutolinkView,
    link: LinkView,
    progress: Progress,
    reply: ReplyView,
) -> TurnView {
    if config.delete {
        delete_step(link, progress, reply)
    } else {
        link_step(link, config.overwrite, config.create_dirs, progress, reply)
    }
}

/// `first`, and then what `then` tells and where `then` stands.
pub open spec fn told_before(first: Seq<NoticeView>, then: StepView) -> StepView {
    StepView { run: then.run, notices: first + then.notices }
}

/// The run that has dealt with every file.
pub open spec fn run_finished(walk: WalkView) -> RunView {
    RunView {
        phase: Phase::Finished,
        walk,
        index: walk.found.len() as usize,
        progress: Progress::Finished,
    }
}

/// Where the run stands once the materialization of the file at `index` has
/// come to `turn`. A file that waits for a reply holds the run; a file that
/// is finished hands over to the next one, and the last one to the end of
/// the run. Only a reply that did not answer its request ends the run here.
/// No destination does: what fails for one is told of in `turn`.
pub open spec fn settled(
    config: AutolinkView,
    walk: WalkView,
    index: int,
    turn: TurnView,
) -> StepView
    decreases walk.found.len() - index,
{
    match turn.progress {
        Progress::At { .. } => StepView {
            run: RunView {
                phase: Phase::Materializing,
                walk,
                index: index as usize,
                progress: turn.progress,
            },
            notices: turn.notices,
        },
        Progress::Failed { failure } => StepView {
            run: RunView {
                phase: Phase::Failed { failure },
                walk,
                index: index as usize,
                progress: turn.progress,
            },
            notices: turn.notices,
        },
        Progress::Finished => if 0 <= index && index + 1 < walk.found.len() {
            told_before(
                turn.notices,
                settled(config, walk, index + 1, first_turn(config, walk.found[index + 1])),
            )
        } else {
            StepView { run: run_finished(walk), notices: turn.notices }
        },
    }
}

/// What is told when discovery is over: a spacer, and what is about to be
/// done to the links.
pub open spec fn opening(config: AutolinkView) -> Seq<NoticeView> {
    seq![
        NoticeView::Spacer,
        if config.delete {
            NoticeView::RemovingAll { root: config.path }
        } else {
            NoticeView::LinkingAll { root: config.path }
        },
    ]
}

/// Where the run stands once the walk `walk` is over: at the first request of
/// the first file that has one, or at its end.
pub open spec fn materialized(config: AutolinkView, walk: WalkView) -> StepView {
    if walk.found.len() == 0 {
        StepView { run: run_finished(walk), notices: opening(config) }
    } else {
        told_before(opening(config), settled(config, walk, 0, first_turn(config, walk.found[0])))
    }
}

/// One step of a run, in the home directory `home` and the working directory
/// `base`: a step of the walk while that lasts, then of the materialization
/// of one file after the other. A walk that fails ends the run; nothing
/// that fails for a destination does.
pub open spec fn run_step(
    config: AutolinkView,
    run: RunView,
    reply: ReplyView,
    home: Option<Seq<char>>,
    base: Seq<char>,
) -> StepView {
    match run.phase {
        Phase::Discovering => {
            let stride = walk_step(run.walk, reply, home, base);
            match stride.walk.stage {
                WalkStage::Finished => told_before(
                    stride.notices,
                    materialized(config, stride.walk),
                ),
                WalkStage::Failed { failure } => StepView {
                    run: RunView { phase: Phase::Failed { failure }, walk: stride.walk, ..run },
                    notices: stride.notices,
                },
                _ => StepView {
                    run: RunView { walk: stride.walk, ..run },
                    notices: stride.notices,
                },
            }
        },
        Phase::Materializing => if run.index < run.walk.found.len() {
            settled(
                config,
                run.walk,
                run.index as int,
                next_turn(config, run.walk.found[run.index as int], run.progress, reply),
            )
        } else {
            StepView {
                run: RunView { phase: Phase::Failed { failure: Failure::Protocol }, ..run },
                notices: Seq::empty(),
            }
        },
        _ => StepView { run, notices: Seq::empty() },
    }
}

impl Run {
    /// What the caller has to do now: the request that this run waits on.
    pub fn request(&self) -> (request: Option<Request>)
        ensures
            request.deep_view() == run_request(self@),
    {
        match self.phase {
            Phase::Discovering => self.walk.request(),
            Phase::Materializing => if self.index < self.walk.found.len() {
                self.walk.found[self.index].request(self.progress)
            } else {
                None
            },
            _ => None,
        }
    }

    /// Whether the run is over, and how: `None` while it is under way.
    pub fn outcome(&self) -> (outcome: Option<Result<(), Failure>>)
        ensures
            outcome == match self.phase {
                Phase::Finished => Some(Ok::<(), Failure>(())),
                Phase::Failed { failure } => Some(Err::<(), Failure>(failure)),
                _ => None,
            },
    {
        match self.phase {
            Phase::Finished => Some(Ok(())),
            Phase::Failed { failure } => Some(Err(failure)),
            _ => None,
        }
    }
}

impl Autolink {
    /// The run that this configuration asks for, before its first step.
    pub fn begin(&self) -> (run: Run)
        ensures
            run@ == run_from(self@),
    {
        Run {
            phase: Phase::Discovering,
            walk: Walk::new(self.path.clone()),
            index: 0,
            progress: Progress::Finished,
        }
    }

    /// The first step of the materialization of `link`.
    fn first_turn(&self, link: &Link) -> (turn: Turn)
        ensures
            turn@ == first_turn(self@, link@),
    {
        if self.delete {
            link.begin_delete()
        } else {
            link.begin_link(self.overwrite, self.create_dirs)
        }
    }

    /// A further step of the materialization of `link`.
    fn next_turn(&self, link: &Link, progress: Progress, reply: Reply) -> (turn: Turn)
        ensures
            turn@ == next_turn(self@, link@, progress, reply@),
    {
        if self.delete {
            link.delete(progress, reply)
        } else {
            link.link(self.overwrite, self.create_dirs, progress, reply)
        }
    }

    /// Settles the run after `told` was told and the materialization of the
    /// file at `index` has come to `turn`.
    fn settle(&self, walk: Walk, index: usize, turn: Turn, told: Vec<Notice>) -> (step: Step)
        requires
            index < walk.found.len(),
        ensures
            step@ == told_before(told.deep_view(), settled(self@, walk@, index as int, turn@)),
    {
        let ghost goal = told_before(
            told.deep_view(),
            settled(self@, walk@, index as int, turn@),
        );
        let mut notices = told;
        let mut at = index;
        let mut current = turn;
        loop
            invariant
                at < walk.found.len(),
                told_before(notices.deep_view(), settled(self@, walk@, at as int, current@))
                    == goal,
                goal == told_before(
                    told.deep_view(),
                    settled(self@, walk@, index as int, turn@),
                ),
            decreases walk.found.len() - at,
        {
            let ghost before = notices.deep_view();
            let ghost here = current@;
            let progress = current.progress;
            notices.append(&mut current.notices);
            assert(notices.deep_view() =~= before + here.notices);
            match progress {
                Progress::At { .. } => {
                    return Step {
                        run: Run { phase: Phase::Materializing, walk, index: at, progress },
                        notices,
                    };
                },
                Progress::Failed { failure } => {
                    return Step {
                        run: Run { phase: Phase::Failed { failure }, walk, index: at, progress },
                        notices,
                    };
                },
                Progress::Finished => {
                    if at + 1 < walk.found.len() {
                        at = at + 1;
                        current = self.first_turn(&walk.found[at]);
                        assert(told_before(
                            notices.deep_view(),
                            settled(self@, walk@, at as int, current@),
                        ).notices =~= goal.notices);
                    } else {
                        let total = walk.found.len();
                        return Step {
                            run: Run {
                                phase: Phase::Finished,
                                walk,
                                index: total,
                                progress: Progress::Finished,
                            },
                            notices,
                        };
                    }
                },
            }
        }
    }

    /// Turns from discovery to materialization, after `told` was told.
    fn materialize(&self, walk: Walk, told: Vec<Notice>) -> (step: Step)
        ensures
            step@ == told_before(told.deep_view(), materialized(self@, walk@)),
    {
        let mut notices = told;
        let ghost before = notices.deep_view();
        notices.push(Notice::Spacer);
        if self.delete {
            notices.push(Notice::RemovingAll { root: self.path.clone() });
        } else {
            notices.push(Notice::LinkingAll { root: self.path.clone() });
        }
        assert(notices.deep_view() =~= before + opening(self@));
        if walk.found.len() == 0 {
            Step {
                run: Run { phase: Phase::Finished, walk, index: 0, progress: Progress::Finished },
                notices,
            }
        } else {
            let turn = self.first_turn(&walk.found[0]);
            let step = self.settle(walk, 0, turn, notices);
            assert(step@.notices =~= told_before(
                told.deep_view(),
                materialized(self@, walk@),
            ).notices);
            step
        }
    }

    /// Start the specified operation: one step of it. `run` is where the run
    /// stands and `reply` the answer to the request that it was waiting on.
    pub fn do_op(&self, environment: &Environment, run: Run, reply: Reply) -> (step: Step)
        ensures
            step@ == run_step(
                self@,
                run@,
                reply@,
                environment.home.deep_view(),
                environment.working_directory@,
            ),
    {
        match run.phase {
            Phase::Discovering => {
                let stride = self.find_links(environment, run.walk, reply);
                match stride.walk.stage {
                    WalkStage::Finished => self.materialize(stride.walk, stride.notices),
                    WalkStage::Failed { failure } => Step {
                        run: Run {
                            phase: Phase::Failed { failure },
                            walk: stride.walk,
                            index: run.index,
                            progress: run.progress,
                        },
                        notices: stride.notices,
                    },
                    _ => Step {
                        run: Run {
                            phase: run.phase,
                            walk: stride.walk,
                            index: run.index,
                            progress: run.progress,
                        },
                        notices: stride.notices,
                    },
                }
            },
            Phase::Materializing => {
                if run.index < run.walk.found.len() {
                    let turn = self.next_turn(&run.walk.found[run.index], run.progress, reply);
                    self.settle(run.walk, run.index, turn, no_notice())
                } else {
                    Step {
                        run: Run {
                            phase: Phase::Failed { failure: Failure::Protocol },
                            walk: run.walk,
                            index: run.index,
                            progress: run.progress,
                        },
                        notices: no_notice(),
                    }
                }
            },
            _ => Step { run, notices: no_notice() },
        }
    }
}

} // verus!
