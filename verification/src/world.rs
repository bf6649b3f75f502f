//! A whole run on the model: discovery over a tree of places, then
//! materialization on a file system, and the proof that a run does what its
//! two halves do, one after the other.

use crate::autolink::AutolinkView;
use crate::descent::{
    and_then_found, answer_of, discovered, discovered_on, lemma_walk_goes_on,
    lemma_walk_is_descent, lemma_walk_takes_a_step, paths_of, rank, stack_after, walks_over,
    weight_among, Place,
};
use crate::laws::{
    all_absent, countable, law_delete_of_nothing, law_materialization_ends,
};
use crate::link::{pending_request, LinkView, Progress, TurnView};
use crate::model::{answer, delete_run, link_run, steps_left, Outcome, Tree};
use crate::notice::NoticeView;
use crate::request::{ReplyView, RequestView};
use crate::run::{
    first_turn, next_turn, run_from, run_request, run_step, settled, Phase, RunView,
};
use crate::walk::{walk_request, walk_step, WalkView};
use vstd::prelude::*;

verus! {

/// What a run works on: the places that its walk has yet to visit, the next
/// one last, and the file system that its materialization changes.
pub struct World {
    pub places: Seq<Place>,
    pub tree: Tree,
}

/// How `world` answers the request that `run` waits on: by the place that
/// the walk is at while the run discovers, by the file system after that.
pub open spec fn world_reply(run: RunView, world: World, request: RequestView) -> ReplyView {
    if run.phase is Discovering {
        answer_of(world.places.last().entry, request)
    } else {
        answer(world.tree, request).reply
    }
}

/// What `world` is once it has answered the request that `run` waits on.
pub open spec fn world_after(run: RunView, world: World, request: RequestView) -> World {
    if run.phase is Discovering {
        World { places: stack_after(world.places, request), tree: world.tree }
    } else {
        World { places: world.places, tree: answer(world.tree, request).tree }
    }
}

/// Whether the files that `walk` has found can be the views of `Link`s, and
/// can be counted.
pub open spec fn all_countable(found: Seq<LinkView>) -> bool {
    &&& found.len() <= usize::MAX
    &&& forall|i: int| 0 <= i < found.len() ==> countable(#[trigger] found[i])
}

/// How many files a run has yet to materialize, the one at hand included.
pub open spec fn links_left(run: RunView) -> nat {
    if run.phase is Materializing && run.index < run.walk.found.len() {
        (run.walk.found.len() - run.index) as nat
    } else {
        0
    }
}

/// How many requests the file at hand can still make, at most.
pub open spec fn turns_left(run: RunView) -> nat {
    if run.phase is Materializing && run.index < run.walk.found.len() {
        steps_left(run.walk.found[run.index as int], run.progress)
    } else {
        0
    }
}

/// How a run ended on the model: where it stopped, and the file system that
/// it left.
pub struct End {
    pub run: RunView,
    pub tree: Tree,
}

/// The run that `config` asks for on `world`, from `run` to its end.
pub open spec fn run_on(
    config: AutolinkView,
    run: RunView,
    world: World,
    home: Option<Seq<char>>,
    base: Seq<char>,
) -> End
    decreases
        (if run.phase is Discovering {
            1nat
        } else {
            0nat
        }),
        weight_among(world.places),
        rank(run.walk.stage),
        links_left(run),
        turns_left(run),
    when run.phase is Materializing ==> all_countable(run.walk.found)
    via run_on_ends
{
    match run_request(run) {
        None => End { run, tree: world.tree },
        Some(request) => if run.phase is Discovering && world.places.len() == 0 {
            End { run, tree: world.tree }
        } else {
            run_on(
                config,
                run_step(config, run, world_reply(run, world, request), home, base).run,
                world_after(run, world, request),
                home,
                base,
            )
        },
    }
}

/// A step of a materialization brings its file nearer to its end.
proof fn lemma_turn_takes_a_step(
    config: AutolinkView,
    link: LinkView,
    progress: Progress,
    reply: ReplyView,
)
    requires
        countable(link),
        pending_request(link, progress).is_some(),
    ensures
        steps_left(link, next_turn(config, link, progress, reply).progress) < steps_left(
            link,
            progress,
        ),
{
}

/// Once the file at `index` has come to `turn`, the run waits on that file,
/// or on one behind it, or is over.
proof fn lemma_settled_moves(config: AutolinkView, walk: WalkView, index: int, turn: TurnView)
    requires
        0 <= index < walk.found.len() <= usize::MAX,
    ensures
        settled(config, walk, index, turn).run.walk == walk,
        match settled(config, walk, index, turn).run.phase {
            Phase::Discovering => false,
            Phase::Materializing => {
                let run = settled(config, walk, index, turn).run;
                ||| (run.index == index && run.progress == turn.progress && turn.progress is At)
                ||| index < run.index < walk.found.len()
            },
            _ => true,
        },
    decreases walk.found.len() - index,
{
    if turn.progress is Finished && index + 1 < walk.found.len() {
        lemma_settled_moves(config, walk, index + 1, first_turn(config, walk.found[index + 1]));
    }
}

#[via_fn]
proof fn run_on_ends(
    config: AutolinkView,
    run: RunView,
    world: World,
    home: Option<Seq<char>>,
    base: Seq<char>,
) {
    if run_request(run).is_some() && !(run.phase is Discovering && world.places.len() == 0) {
        if run.phase is Discovering {
            lemma_walk_takes_a_step(run.walk, world.places, home, base);
        } else {
            let link = run.walk.found[run.index as int];
            let reply = world_reply(run, world, run_request(run).unwrap());
            lemma_turn_takes_a_step(config, link, run.progress, reply);
            lemma_settled_moves(
                config,
                run.walk,
                run.index as int,
                next_turn(config, link, run.progress, reply),
            );
        }
    }
}

/// How the materialization of a batch of files ended: whether it finished
/// or failed, and the file system that it left.
pub struct Close {
    pub phase: Phase,
    pub tree: Tree,
}

/// The materialization of `link` on `tree`, from `turn` to its end: its
/// removal where `config` asks for that, else its making.
pub open spec fn rest_of(
    config: AutolinkView,
    link: LinkView,
    turn: TurnView,
    tree: Tree,
) -> Outcome {
    if config.delete {
        delete_run(link, turn, tree)
    } else {
        link_run(link, config.overwrite, config.create_dirs, turn, tree)
    }
}

/// What materialization makes of the files `found`, from the one at `index`
/// on: each is materialized on the file system that the one before it left,
/// and one that does not finish ends the batch. (By `law_batch_finishes`
/// each of them finishes.)
pub open spec fn materialized_from(
    config: AutolinkView,
    found: Seq<LinkView>,
    index: int,
    tree: Tree,
) -> Close
    decreases found.len() - index,
{
    if !(0 <= index < found.len()) {
        Close { phase: Phase::Finished, tree }
    } else {
        let outcome = rest_of(config, found[index], first_turn(config, found[index]), tree);
        match outcome.progress {
            Progress::Finished => materialized_from(config, found, index + 1, outcome.tree),
            Progress::Failed { failure } => Close {
                phase: Phase::Failed { failure },
                tree: outcome.tree,
            },
            Progress::At { .. } => Close { phase: Phase::Materializing, tree: outcome.tree },
        }
    }
}

/// Where a materialization ends and what it leaves does not hang on what was
/// told before.
proof fn lemma_rest_whatever_told(
    config: AutolinkView,
    link: LinkView,
    progress: Progress,
    told: Seq<NoticeView>,
    other: Seq<NoticeView>,
    tree: Tree,
)
    requires
        countable(link),
    ensures
        rest_of(config, link, TurnView { progress, notices: told }, tree).progress == rest_of(
            config,
            link,
            TurnView { progress, notices: other },
            tree,
        ).progress,
        rest_of(config, link, TurnView { progress, notices: told }, tree).tree == rest_of(
            config,
            link,
            TurnView { progress, notices: other },
            tree,
        ).tree,
    decreases steps_left(link, progress),
{
    match pending_request(link, progress) {
        None => {},
        Some(request) => {
            let reply = answer(tree, request);
            let next = next_turn(config, link, progress, reply.reply);
            lemma_rest_whatever_told(
                config,
                link,
                next.progress,
                told + next.notices,
                other + next.notices,
                reply.tree,
            );
        },
    }
}

/// Once the file at `index` has come to `turn`, the run does with it what
/// its materialization does from there, and then with the files behind it
/// what materialization makes of them.
proof fn lemma_materializing(
    config: AutolinkView,
    walk: WalkView,
    index: int,
    turn: TurnView,
    world: World,
    home: Option<Seq<char>>,
    base: Seq<char>,
)
    requires
        all_countable(walk.found),
        0 <= index < walk.found.len(),
    ensures
        ({
            let end = run_on(config, settled(config, walk, index, turn).run, world, home, base);
            let outcome = rest_of(config, walk.found[index], turn, world.tree);
            &&& end.run.walk == walk
            &&& match outcome.progress {
                Progress::Finished => (Close { phase: end.run.phase, tree: end.tree })
                    == materialized_from(config, walk.found, index + 1, outcome.tree),
                Progress::Failed { failure } => end.run.phase == (Phase::Failed { failure })
                    && end.tree == outcome.tree,
                Progress::At { .. } => end.run.phase is Materializing && end.tree == outcome.tree,
            }
        }),
    decreases walk.found.len() - index, steps_left(walk.found[index], turn.progress),
{
    let link = walk.found[index];
    match turn.progress {
        Progress::At { .. } => {
            if let Some(request) = pending_request(link, turn.progress) {
                let reply = answer(world.tree, request);
                let next = next_turn(config, link, turn.progress, reply.reply);
                let after = World { places: world.places, tree: reply.tree };
                lemma_turn_takes_a_step(config, link, turn.progress, reply.reply);
                lemma_settled_moves(config, walk, index, next);
                lemma_materializing(config, walk, index, next, after, home, base);
                lemma_rest_whatever_told(
                    config,
                    link,
                    next.progress,
                    next.notices,
                    turn.notices + next.notices,
                    reply.tree,
                );
            }
        },
        Progress::Finished => {
            if index + 1 < walk.found.len() {
                let then = first_turn(config, walk.found[index + 1]);
                lemma_materializing(config, walk, index + 1, then, world, home, base);
            }
        },
        Progress::Failed { .. } => {},
    }
}

/// While it discovers, a run does what its walk does, and then with the
/// files that the walk has found what materialization makes of them.
proof fn lemma_discovering(
    config: AutolinkView,
    run: RunView,
    world: World,
    home: Option<Seq<char>>,
    base: Seq<char>,
)
    requires
        run.phase is Discovering,
        world.places.len() > 0,
        walks_over(run.walk, world.places),
        discovered_on(world.places, home, base) matches Ok(more) ==> all_countable(
            run.walk.found + more,
        ),
    ensures
        match discovered_on(world.places, home, base) {
            Ok(more) => {
                let end = run_on(config, run, world, home, base);
                &&& end.run.walk.found == run.walk.found + more
                &&& (Close { phase: end.run.phase, tree: end.tree }) == materialized_from(
                    config,
                    run.walk.found + more,
                    0,
                    world.tree,
                )
            },
            Err(failure) => {
                let end = run_on(config, run, world, home, base);
                end.run.phase == (Phase::Failed { failure }) && end.tree == world.tree
            },
        },
    decreases weight_among(world.places), rank(run.walk.stage),
{
    let stack = world.places;
    let request = walk_request(run.walk).unwrap();
    let walk = walk_step(run.walk, answer_of(stack.last().entry, request), home, base).walk;
    let after = World { places: stack_after(stack, request), tree: world.tree };
    lemma_walk_goes_on(run.walk, stack, home, base);
    lemma_walk_is_descent(run.walk, stack, home, base);
    lemma_walk_takes_a_step(run.walk, stack, home, base);
    if walk.stage is Finished {
        if walk.found.len() > 0 {
            let first = first_turn(config, walk.found[0]);
            lemma_settled_moves(config, walk, 0, first);
            lemma_materializing(config, walk, 0, first, after, home, base);
        }
    } else if !(walk.stage is Failed) {
        let next = run_step(config, run, world_reply(run, world, request), home, base).run;
        lemma_walk_is_descent(walk, after.places, home, base);
        lemma_discovering(config, next, after, home, base);
    }
}

/// A whole run: a run finds what a descent from its path finds, and then
/// materializes what it has found, file after file in the order in which it
/// found them. Where the descent fails, the run fails for the same reason
/// and leaves the file system as it was.
pub proof fn law_run(
    config: AutolinkView,
    root: Place,
    tree: Tree,
    home: Option<Seq<char>>,
    base: Seq<char>,
)
    requires
        root.path == config.path,
        discovered(root, home, base) matches Ok(found) ==> all_countable(found),
    ensures
        match discovered(root, home, base) {
            Ok(found) => {
                let end = run_on(
                    config,
                    run_from(config),
                    World { places: seq![root], tree },
                    home,
                    base,
                );
                &&& end.run.walk.found == found
                &&& (Close { phase: end.run.phase, tree: end.tree }) == materialized_from(
                    config,
                    found,
                    0,
                    tree,
                )
            },
            Err(failure) => {
                let end = run_on(
                    config,
                    run_from(config),
                    World { places: seq![root], tree },
                    home,
                    base,
                );
                end.run.phase == (Phase::Failed { failure }) && end.tree == tree
            },
        },
{
    let stack = seq![root];
    assert(run_from(config).walk.pending =~= paths_of(stack));
    assert(discovered_on(stack, home, base) == and_then_found(
        discovered(root, home, base),
        discovered_on(stack.drop_last(), home, base),
    ));
    lemma_discovering(config, run_from(config), World { places: stack, tree }, home, base);
}

/// Every file of a batch is materialized to its end, and the batch
/// finishes, whatever becomes of single destinations.
proof fn lemma_batch_finishes(config: AutolinkView, found: Seq<LinkView>, index: int, tree: Tree)
    requires
        all_countable(found),
        0 <= index,
    ensures
        materialized_from(config, found, index, tree).phase is Finished,
    decreases found.len() - index,
{
    if index < found.len() {
        let link = found[index];
        law_materialization_ends(link, config.overwrite, config.create_dirs, tree);
        lemma_batch_finishes(
            config,
            found,
            index + 1,
            rest_of(config, link, first_turn(config, link), tree).tree,
        );
    }
}

/// Only discovery can make a run fail: a run whose discovery succeeds
/// finishes, whatever becomes of single destinations; and a run whose
/// discovery fails, fails for the same reason and leaves the file system as
/// it was.
pub proof fn law_only_discovery_fails(
    config: AutolinkView,
    root: Place,
    tree: Tree,
    home: Option<Seq<char>>,
    base: Seq<char>,
)
    requires
        root.path == config.path,
        discovered(root, home, base) matches Ok(found) ==> all_countable(found),
    ensures
        match discovered(root, home, base) {
            Ok(found) => run_on(
                config,
                run_from(config),
                World { places: seq![root], tree },
                home,
                base,
            ).run.phase is Finished,
            Err(failure) => {
                let end = run_on(
                    config,
                    run_from(config),
                    World { places: seq![root], tree },
                    home,
                    base,
                );
                end.run.phase == (Phase::Failed { failure }) && end.tree == tree
            },
        },
{
    law_run(config, root, tree, home, base);
    if let Ok(found) = discovered(root, home, base) {
        lemma_batch_finishes(config, found, 0, tree);
    }
}

/// The removal of links of which none is there leaves the file system as it
/// was, file after file.
proof fn lemma_batch_of_nothing(config: AutolinkView, found: Seq<LinkView>, index: int, tree: Tree)
    requires
        config.delete,
        all_countable(found),
        0 <= index,
        forall|k: int| 0 <= k < found.len() ==> all_absent(#[trigger] found[k], tree),
    ensures
        materialized_from(config, found, index, tree) == (Close { phase: Phase::Finished, tree }),
    decreases found.len() - index,
{
    if index < found.len() {
        law_delete_of_nothing(found[index], tree);
        lemma_batch_of_nothing(config, found, index + 1, tree);
    }
}

/// Removal is idempotent, for a whole run: a run that removes links, over
/// files of whose destinations none is there, finishes and leaves the file
/// system as it was.
pub proof fn law_delete_run_of_nothing(
    config: AutolinkView,
    root: Place,
    tree: Tree,
    home: Option<Seq<char>>,
    base: Seq<char>,
)
    requires
        config.delete,
        root.path == config.path,
        discovered(root, home, base) matches Ok(found) && all_countable(found) && forall|k: int|
            0 <= k < found.len() ==> all_absent(#[trigger] found[k], tree),
    ensures
        run_on(
            config,
            run_from(config),
            World { places: seq![root], tree },
            home,
            base,
        ).run.phase is Finished,
        run_on(config, run_from(config), World { places: seq![root], tree }, home, base).tree
            == tree,
{
    law_run(config, root, tree, home, base);
    lemma_batch_of_nothing(config, discovered(root, home, base)->Ok_0, 0, tree);
}

} // verus!
