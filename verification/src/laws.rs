//! The laws of materialization, proved of every run on the model file
//! system.

use crate::link::{
    delete_from, delete_step, link_from, link_step, pending_request, LinkView, Progress, Stage,
    TurnView,
};
use crate::model::{
    answer, can_make_directories, delete_run, deleted, is_above, is_directory, link_run, linked,
    steps_left, Node, Tree,
};
use crate::notice::NoticeView;
use crate::paths::parent;
use vstd::prelude::*;

verus! {

/// Whether `link` can be the view of a `Link`: its destinations can be counted.
pub open spec fn countable(link: LinkView) -> bool {
    link.destinations.len() <= usize::MAX
}

/// Whether nothing stands in `tree` at any destination of `link`.
pub open spec fn all_absent(link: LinkView, tree: Tree) -> bool {
    forall|i: int|
        0 <= i < link.destinations.len() ==> !tree.contains_key(#[trigger] link.destinations[i])
}

/// Whether every one of `notices` says that nothing stood at a destination.
pub open spec fn only_absences(notices: Seq<NoticeView>) -> bool {
    forall|k: int| 0 <= k < notices.len() ==> #[trigger] notices[k] is Absent
}

/// What a run tells, it tells behind what was told before.
proof fn lemma_link_run_tells_on(
    link: LinkView,
    overwrite: bool,
    create_dirs: bool,
    turn: TurnView,
    tree: Tree,
)
    requires
        countable(link),
    ensures
        turn.notices.is_prefix_of(link_run(link, overwrite, create_dirs, turn, tree).notices),
    decreases steps_left(link, turn.progress),
{
    match pending_request(link, turn.progress) {
        None => {},
        Some(request) => {
            let reply = answer(tree, request);
            let next = link_step(link, overwrite, create_dirs, turn.progress, reply.reply);
            let then = TurnView {
                progress: next.progress,
                notices: turn.notices + next.notices,
            };
            lemma_link_run_tells_on(link, overwrite, create_dirs, then, reply.tree);
        },
    }
}

/// Whether `progress` is where a run on `link` can stand: at a destination
/// of the link, which lies in a directory where directories are to be made.
pub open spec fn on_its_way(link: LinkView, progress: Progress) -> bool {
    progress matches Progress::At { index, stage } ==> index < link.destinations.len() && (stage
        == Stage::Directories ==> parent(link.destinations[index as int]).is_some())
}

/// Whether a link to `origin` stands in `tree` at `destination`.
pub open spec fn holds_link(tree: Tree, origin: Seq<char>, destination: Seq<char>) -> bool {
    tree.contains_key(destination) && tree[destination] == (Node::Symlink { target: origin })
}

/// Whether no directory stands in `tree` at any destination of `link`.
pub open spec fn no_directory(link: LinkView, tree: Tree) -> bool {
    forall|i: int|
        0 <= i < link.destinations.len() && tree.contains_key(#[trigger] link.destinations[i])
            ==> !(tree[link.destinations[i]] is Directory)
}

/// Whether `path` is named at least twice among `paths`.
pub open spec fn occurs_twice(paths: Seq<Seq<char>>, path: Seq<char>) -> bool {
    exists|a: int, b: int| 0 <= a < b < paths.len() && paths[a] == path && paths[b] == path
}

/// Whether `path` is named among the first `upto` of `paths`.
pub open spec fn occurs_before(paths: Seq<Seq<char>>, path: Seq<char>, upto: int) -> bool {
    exists|j: int| 0 <= j < upto && j < paths.len() && paths[j] == path
}

/// Whether one of `notices` says that a link to `origin` was made at
/// `destination`.
pub open spec fn tells_linked(
    notices: Seq<NoticeView>,
    origin: Seq<char>,
    destination: Seq<char>,
) -> bool {
    notices.contains(NoticeView::Linked { origin, destination })
}

/// Whether one of `notices` says that no link could be made at `destination`.
pub open spec fn tells_failure(notices: Seq<NoticeView>, destination: Seq<char>) -> bool {
    exists|k: int|
        0 <= k < notices.len() && (#[trigger] notices[k]) is LinkFailed
            && notices[k]->LinkFailed_destination == destination
}

/// Whether none of `notices` says that a link could not be made.
pub open spec fn no_failure(notices: Seq<NoticeView>) -> bool {
    forall|k: int| 0 <= k < notices.len() ==> !((#[trigger] notices[k]) is LinkFailed)
}

/// Whether none of `notices` says that a link was made.
pub open spec fn nothing_linked(notices: Seq<NoticeView>) -> bool {
    forall|k: int| 0 <= k < notices.len() ==> !((#[trigger] notices[k]) is Linked)
}

/// Whether `destination` lies in a directory of `tree`.
pub open spec fn in_directory(tree: Tree, destination: Seq<char>) -> bool {
    parent(destination) matches Some(directory) && is_directory(tree, directory)
}

/// A removal goes on until it is finished.
proof fn lemma_delete_run_ends(link: LinkView, turn: TurnView, tree: Tree)
    requires
        countable(link),
        match turn.progress {
            Progress::At { index, stage } => index < link.destinations.len() && (stage
                == Stage::Probe || stage == Stage::Remove),
            Progress::Finished => true,
            Progress::Failed { .. } => false,
        },
    ensures
        delete_run(link, turn, tree).progress is Finished,
    decreases steps_left(link, turn.progress),
{
    match pending_request(link, turn.progress) {
        None => {},
        Some(request) => {
            let reply = answer(tree, request);
            let next = delete_step(link, turn.progress, reply.reply);
            let then = TurnView {
                progress: next.progress,
                notices: turn.notices + next.notices,
            };
            lemma_delete_run_ends(link, then, reply.tree);
        },
    }
}

/// The making of links goes on until it is finished.
proof fn lemma_link_run_ends(
    link: LinkView,
    overwrite: bool,
    create_dirs: bool,
    turn: TurnView,
    tree: Tree,
)
    requires
        countable(link),
        on_its_way(link, turn.progress),
        !(turn.progress is Failed),
    ensures
        link_run(link, overwrite, create_dirs, turn, tree).progress is Finished,
    decreases steps_left(link, turn.progress),
{
    match pending_request(link, turn.progress) {
        None => {},
        Some(request) => {
            let reply = answer(tree, request);
            let next = link_step(link, overwrite, create_dirs, turn.progress, reply.reply);
            let then = TurnView {
                progress: next.progress,
                notices: turn.notices + next.notices,
            };
            lemma_link_run_ends(link, overwrite, create_dirs, then, reply.tree);
        },
    }
}

/// No failure ends a materialization: whatever becomes of single
/// destinations, the removal of links and the making of links go on to the
/// last destination and finish.
pub proof fn law_materialization_ends(
    link: LinkView,
    overwrite: bool,
    create_dirs: bool,
    tree: Tree,
)
    requires
        countable(link),
    ensures
        deleted(link, tree).progress is Finished,
        linked(link, overwrite, create_dirs, tree).progress is Finished,
{
    lemma_delete_run_ends(
        link,
        TurnView { progress: delete_from(link, 0), notices: Seq::empty() },
        tree,
    );
    lemma_link_run_ends(
        link,
        overwrite,
        create_dirs,
        link_from(link, overwrite, create_dirs, 0),
        tree,
    );
}

/// A removal that finds nothing from `turn` on finishes, and leaves the file
/// system as it was.
proof fn lemma_delete_of_nothing(link: LinkView, turn: TurnView, tree: Tree)
    requires
        countable(link),
        all_absent(link, tree),
        only_absences(turn.notices),
        turn.progress is Finished || (turn.progress matches Progress::At { index, stage }
            && stage == Stage::Probe && index < link.destinations.len()),
    ensures
        delete_run(link, turn, tree).progress is Finished,
        delete_run(link, turn, tree).tree == tree,
        only_absences(delete_run(link, turn, tree).notices),
    decreases steps_left(link, turn.progress),
{
    if let Progress::At { index, stage } = turn.progress {
        let destination = link.destinations[index as int];
        let then = TurnView {
            progress: delete_from(link, index + 1),
            notices: turn.notices + seq![NoticeView::Absent { destination }],
        };
        lemma_delete_of_nothing(link, then, tree);
    }
}

/// Removal is idempotent: the removal of links of which none is there finishes
/// without a failure, removes nothing and leaves the file system as it was.
pub proof fn law_delete_of_nothing(link: LinkView, tree: Tree)
    requires
        countable(link),
        all_absent(link, tree),
    ensures
        deleted(link, tree).progress is Finished,
        deleted(link, tree).tree == tree,
        only_absences(deleted(link, tree).notices),
{
    lemma_delete_of_nothing(
        link,
        TurnView { progress: delete_from(link, 0), notices: Seq::empty() },
        tree,
    );
}

/// What a removal has brought about when it stands before the destination at
/// `upto`, on a file system that was `before` and is `tree`: nothing was
/// added or changed, nothing but files and links at destinations was
/// removed, and nothing but a directory is left at a destination that was
/// passed.
pub open spec fn removed_so_far(link: LinkView, before: Tree, tree: Tree, upto: int) -> bool {
    &&& forall|path: Seq<char>| #[trigger]
        tree.contains_key(path) ==> before.contains_key(path) && tree[path] == before[path]
    &&& forall|path: Seq<char>| #[trigger]
        before.contains_key(path) && !tree.contains_key(path) ==> occurs_before(
            link.destinations,
            path,
            upto,
        ) && !(before[path] is Directory)
    &&& forall|j: int|
        0 <= j < upto && j < link.destinations.len() && tree.contains_key(
            #[trigger] link.destinations[j],
        ) ==> tree[link.destinations[j]] is Directory
}

/// A removal changes nothing but destinations.
proof fn lemma_removal(link: LinkView, before: Tree, turn: TurnView, tree: Tree)
    requires
        countable(link),
        match turn.progress {
            Progress::At { index, stage } => index < link.destinations.len() && (stage
                == Stage::Probe || (stage == Stage::Remove && tree.contains_key(
                link.destinations[index as int],
            ))) && removed_so_far(link, before, tree, index as int),
            Progress::Finished => removed_so_far(
                link,
                before,
                tree,
                link.destinations.len() as int,
            ),
            Progress::Failed { .. } => false,
        },
    ensures
        removed_so_far(
            link,
            before,
            delete_run(link, turn, tree).tree,
            link.destinations.len() as int,
        ),
    decreases steps_left(link, turn.progress),
{
    match pending_request(link, turn.progress) {
        None => {},
        Some(request) => {
            let reply = answer(tree, request);
            let next = delete_step(link, turn.progress, reply.reply);
            let then = TurnView {
                progress: next.progress,
                notices: turn.notices + next.notices,
            };
            lemma_removal(link, before, then, reply.tree);
        },
    }
}

/// Removal changes nothing but destinations: it adds nothing and changes
/// nothing; what it removes is a file or a link at a destination; and it
/// leaves nothing at a destination but a directory that stood there.
pub proof fn law_delete_changes_destinations(link: LinkView, tree: Tree)
    requires
        countable(link),
    ensures
        forall|path: Seq<char>| #[trigger]
            deleted(link, tree).tree.contains_key(path) ==> tree.contains_key(path) && deleted(
                link,
                tree,
            ).tree[path] == tree[path],
        forall|path: Seq<char>| #[trigger]
            tree.contains_key(path) && !deleted(link, tree).tree.contains_key(path)
                ==> link.destinations.contains(path) && !(tree[path] is Directory),
        forall|i: int|
            0 <= i < link.destinations.len() && deleted(link, tree).tree.contains_key(
                #[trigger] link.destinations[i],
            ) ==> deleted(link, tree).tree[link.destinations[i]] is Directory,
{
    lemma_removal(
        link,
        tree,
        TurnView { progress: delete_from(link, 0), notices: Seq::empty() },
        tree,
    );
}

/// The round trip: after the links were made, however that went, their
/// removal finishes and leaves no link at any destination: nothing stands
/// there but, at most, a directory.
pub proof fn law_link_then_delete(link: LinkView, overwrite: bool, create_dirs: bool, tree: Tree)
    requires
        countable(link),
    ensures
        deleted(link, linked(link, overwrite, create_dirs, tree).tree).progress is Finished,
        forall|i: int|
            0 <= i < link.destinations.len() && deleted(
                link,
                linked(link, overwrite, create_dirs, tree).tree,
            ).tree.contains_key(#[trigger] link.destinations[i]) ==> deleted(
                link,
                linked(link, overwrite, create_dirs, tree).tree,
            ).tree[link.destinations[i]] is Directory,
{
    let made = linked(link, overwrite, create_dirs, tree).tree;
    law_materialization_ends(link, overwrite, create_dirs, made);
    law_delete_changes_destinations(link, made);
}

/// Whether a link can come to stand at `destination` on `tree`: it lies in a
/// directory that is there, or that can be made where directories are made;
/// and nothing stands there, or nothing but what overwriting can remove.
pub open spec fn may_link(
    tree: Tree,
    destination: Seq<char>,
    overwrite: bool,
    create_dirs: bool,
) -> bool {
    &&& parent(destination) matches Some(directory) && (is_directory(tree, directory)
        || (create_dirs && can_make_directories(tree, directory)))
    &&& if overwrite {
        !(tree.contains_key(destination) && tree[destination] is Directory)
    } else {
        !tree.contains_key(destination)
    }
}

/// Whether no destination of `link` is, or lies above, a directory that has
/// yet to be made for a destination: then the directories that are made
/// come to stand at no destination, and no link stands in their way.
pub open spec fn apart(link: LinkView, tree: Tree) -> bool {
    forall|i: int, j: int|
        0 <= i < link.destinations.len() && 0 <= j < link.destinations.len() && parent(
            #[trigger] link.destinations[j],
        ).is_some() && !is_directory(tree, parent(link.destinations[j]).unwrap()) ==> !is_above(
            #[trigger] link.destinations[i],
            parent(link.destinations[j]).unwrap(),
        )
}

/// How `tree` has come from `before` when a making of links stands before
/// the destination at `upto`: every directory still stands; what stands is
/// old, a link at a destination that was passed, or a new directory at no
/// destination; and what was not to be overwritten stands as it stood.
pub open spec fn grown_from(
    link: LinkView,
    overwrite: bool,
    create_dirs: bool,
    before: Tree,
    tree: Tree,
    upto: int,
) -> bool {
    &&& forall|path: Seq<char>| #[trigger]
        before.contains_key(path) && before[path] is Directory ==> tree.contains_key(path)
            && tree[path] is Directory
    &&& forall|path: Seq<char>| #[trigger]
        tree.contains_key(path) ==> {
            ||| before.contains_key(path) && tree[path] == before[path]
            ||| occurs_before(link.destinations, path, upto) && tree[path] == (Node::Symlink {
                target: link.origin,
            })
            ||| create_dirs && tree[path] is Directory && !before.contains_key(path)
                && !link.destinations.contains(path)
        }
    &&& forall|path: Seq<char>| #[trigger]
        before.contains_key(path) && (!overwrite || !link.destinations.contains(path))
            ==> tree.contains_key(path) && tree[path] == before[path]
}

/// What `told` says when a making of links stands before the destination at
/// `upto`: a failure is told only of a destination at which no link could
/// come to stand, or which was named before and not overwritten.
pub open spec fn failures_so_far(
    link: LinkView,
    overwrite: bool,
    create_dirs: bool,
    before: Tree,
    told: Seq<NoticeView>,
) -> bool {
    forall|k: int|
        0 <= k < told.len() && (#[trigger] told[k]) is LinkFailed ==> {
            &&& link.destinations.contains(told[k]->LinkFailed_destination)
            &&& !may_link(before, told[k]->LinkFailed_destination, overwrite, create_dirs) || (
            !overwrite && occurs_twice(link.destinations, told[k]->LinkFailed_destination))
        }
}

/// What a making of links has brought about when it stands at `progress`, on
/// a file system that was `before` and is `tree`.
pub open spec fn made_so_far(
    link: LinkView,
    overwrite: bool,
    create_dirs: bool,
    before: Tree,
    tree: Tree,
    told: Seq<NoticeView>,
    progress: Progress,
) -> bool {
    &&& failures_so_far(link, overwrite, create_dirs, before, told)
    &&& match progress {
        Progress::At { index, stage } => {
            let destination = link.destinations[index as int];
            &&& index < link.destinations.len()
            &&& grown_from(link, overwrite, create_dirs, before, tree, index as int)
            &&& stage == Stage::Directories ==> create_dirs && parent(destination).is_some()
            &&& stage == Stage::Probe || stage == Stage::Remove ==> overwrite
            &&& stage != Stage::Directories && create_dirs && parent(destination).is_some()
                ==> is_directory(tree, parent(destination).unwrap())
            &&& stage == Stage::Remove ==> tree.contains_key(destination)
            &&& stage == Stage::Create && overwrite ==> !tree.contains_key(destination)
            &&& forall|j: int|
                0 <= j < index && may_link(
                    before,
                    #[trigger] link.destinations[j],
                    overwrite,
                    create_dirs,
                ) ==> {
                    &&& tells_linked(told, link.origin, link.destinations[j])
                    &&& (stage == Stage::Create && overwrite && link.destinations[j]
                        == destination) || holds_link(tree, link.origin, link.destinations[j])
                }
        },
        Progress::Finished => {
            &&& grown_from(
                link,
                overwrite,
                create_dirs,
                before,
                tree,
                link.destinations.len() as int,
            )
            &&& forall|j: int|
                0 <= j < link.destinations.len() && may_link(
                    before,
                    #[trigger] link.destinations[j],
                    overwrite,
                    create_dirs,
                ) ==> tells_linked(told, link.origin, link.destinations[j]) && holds_link(
                    tree,
                    link.origin,
                    link.destinations[j],
                )
        },
        Progress::Failed { .. } => false,
    }
}

/// Every step of a making of links keeps what `made_so_far` says.
proof fn lemma_making(
    link: LinkView,
    overwrite: bool,
    create_dirs: bool,
    before: Tree,
    turn: TurnView,
    tree: Tree,
)
    requires
        countable(link),
        create_dirs ==> apart(link, before),
        made_so_far(link, overwrite, create_dirs, before, tree, turn.notices, turn.progress),
    ensures
        link_run(link, overwrite, create_dirs, turn, tree).progress is Finished,
        made_so_far(
            link,
            overwrite,
            create_dirs,
            before,
            link_run(link, overwrite, create_dirs, turn, tree).tree,
            link_run(link, overwrite, create_dirs, turn, tree).notices,
            Progress::Finished,
        ),
    decreases steps_left(link, turn.progress),
{
    if let Progress::At { index, stage } = turn.progress {
        let destination = link.destinations[index as int];
        let reply = answer(tree, pending_request(link, turn.progress).unwrap());
        let next = link_step(link, overwrite, create_dirs, turn.progress, reply.reply);
        let then = TurnView { progress: next.progress, notices: turn.notices + next.notices };
        lemma_told_stays(turn.notices, next.notices);
        if next.notices.len() > 0 {
            assert(then.notices[turn.notices.len() as int] == next.notices[0]);
        }
        if stage == Stage::Directories {
            let directory = parent(destination).unwrap();
            assert(directory.subrange(0, directory.len() as int) =~= directory);
            assert(directory.len() > 0 ==> is_above(directory, directory));
        }
        assert(made_so_far(
            link,
            overwrite,
            create_dirs,
            before,
            reply.tree,
            then.notices,
            then.progress,
        ));
        lemma_making(link, overwrite, create_dirs, before, then, reply.tree);
    }
}

/// Failures are isolated: whatever the flags, the making of links finishes,
/// and each destination fares as it would alone. A link is made, and told
/// of, at every destination at which one can come to stand; and a failure is
/// told only of a destination at which none can, or which is named twice and
/// not overwritten. Where directories are made, the destinations must lie
/// apart.
pub proof fn law_isolation(link: LinkView, overwrite: bool, create_dirs: bool, tree: Tree)
    requires
        countable(link),
        create_dirs ==> apart(link, tree),
    ensures
        linked(link, overwrite, create_dirs, tree).progress is Finished,
        forall|i: int|
            0 <= i < link.destinations.len() && may_link(
                tree,
                #[trigger] link.destinations[i],
                overwrite,
                create_dirs,
            ) ==> holds_link(
                linked(link, overwrite, create_dirs, tree).tree,
                link.origin,
                link.destinations[i],
            ) && tells_linked(
                linked(link, overwrite, create_dirs, tree).notices,
                link.origin,
                link.destinations[i],
            ),
        forall|path: Seq<char>| #[trigger]
            tells_failure(linked(link, overwrite, create_dirs, tree).notices, path) ==> {
                &&& link.destinations.contains(path)
                &&& !may_link(tree, path, overwrite, create_dirs) || (!overwrite && occurs_twice(
                    link.destinations,
                    path,
                ))
            },
{
    lemma_making(
        link,
        overwrite,
        create_dirs,
        tree,
        link_from(link, overwrite, create_dirs, 0),
        tree,
    );
}

/// What the making of links changes: what stood and was not to be
/// overwritten stands as it stood; and what stands afterwards is what stood
/// before, a link to the origin at a destination, or, where directories are
/// made, a new directory at no destination. Where directories are made, the
/// destinations must lie apart.
pub proof fn law_link_changes(link: LinkView, overwrite: bool, create_dirs: bool, tree: Tree)
    requires
        countable(link),
        create_dirs ==> apart(link, tree),
    ensures
        forall|path: Seq<char>| #[trigger]
            tree.contains_key(path) && (!overwrite || !link.destinations.contains(path)) ==> linked(
                link,
                overwrite,
                create_dirs,
                tree,
            ).tree.contains_key(path) && linked(link, overwrite, create_dirs, tree).tree[path]
                == tree[path],
        forall|path: Seq<char>| #[trigger]
            linked(link, overwrite, create_dirs, tree).tree.contains_key(path) ==> {
                let made = linked(link, overwrite, create_dirs, tree).tree;
                ||| tree.contains_key(path) && made[path] == tree[path]
                ||| link.destinations.contains(path) && made[path] == (Node::Symlink {
                    target: link.origin,
                })
                ||| create_dirs && made[path] is Directory && !tree.contains_key(path)
                    && !link.destinations.contains(path)
            },
{
    lemma_making(
        link,
        overwrite,
        create_dirs,
        tree,
        link_from(link, overwrite, create_dirs, 0),
        tree,
    );
}

/// A run without flags removes nothing and makes no directory: all that
/// stood stands as it stood, and all that is new is a link to the origin at
/// a destination.
pub proof fn law_plain_run_adds_links(link: LinkView, tree: Tree)
    requires
        countable(link),
    ensures
        forall|path: Seq<char>| #[trigger]
            tree.contains_key(path) ==> linked(link, false, false, tree).tree.contains_key(path)
                && linked(link, false, false, tree).tree[path] == tree[path],
        forall|path: Seq<char>| #[trigger]
            linked(link, false, false, tree).tree.contains_key(path) && !tree.contains_key(path)
                ==> link.destinations.contains(path) && linked(link, false, false, tree).tree[path]
                == (Node::Symlink { target: link.origin }),
{
    law_link_changes(link, false, false, tree);
}

/// The first attempt: on destinations that are free, distinct and in
/// directories that are there, the making of links finishes without a
/// failure, whatever the flags, and a link to the origin stands at every
/// destination.
pub proof fn law_first_attempt_succeeds(
    link: LinkView,
    overwrite: bool,
    create_dirs: bool,
    tree: Tree,
)
    requires
        countable(link),
        all_absent(link, tree),
        forall|i: int|
            0 <= i < link.destinations.len() ==> in_directory(
                tree,
                #[trigger] link.destinations[i],
            ),
        forall|a: int, b: int|
            0 <= a < b < link.destinations.len() ==> link.destinations[a] != link.destinations[b],
    ensures
        linked(link, overwrite, create_dirs, tree).progress is Finished,
        no_failure(linked(link, overwrite, create_dirs, tree).notices),
        all_linked(link, linked(link, overwrite, create_dirs, tree).tree),
{
    let end = linked(link, overwrite, create_dirs, tree);
    lemma_making(
        link,
        overwrite,
        create_dirs,
        tree,
        link_from(link, overwrite, create_dirs, 0),
        tree,
    );
    assert forall|i: int| 0 <= i < link.destinations.len() implies holds_link(
        end.tree,
        link.origin,
        #[trigger] link.destinations[i],
    ) && in_directory(end.tree, link.destinations[i]) by {
        assert(may_link(tree, link.destinations[i], overwrite, create_dirs));
    }
    assert forall|k: int| 0 <= k < end.notices.len() implies !((
    #[trigger] end.notices[k]) is LinkFailed) by {
        if end.notices[k] is LinkFailed {
            let path = end.notices[k]->LinkFailed_destination;
            let i = choose|i: int| 0 <= i < link.destinations.len() && link.destinations[i] == path;
            assert(may_link(tree, link.destinations[i], overwrite, create_dirs));
        }
    }
}

/// What stands at a path that is no destination, no making of links touches.
proof fn lemma_link_run_keeps(
    link: LinkView,
    overwrite: bool,
    create_dirs: bool,
    turn: TurnView,
    tree: Tree,
    path: Seq<char>,
)
    requires
        countable(link),
        tree.contains_key(path),
        !link.destinations.contains(path),
    ensures
        link_run(link, overwrite, create_dirs, turn, tree).tree.contains_key(path),
        link_run(link, overwrite, create_dirs, turn, tree).tree[path] == tree[path],
    decreases steps_left(link, turn.progress),
{
    match pending_request(link, turn.progress) {
        None => {},
        Some(request) => {
            let reply = answer(tree, request);
            let next = link_step(link, overwrite, create_dirs, turn.progress, reply.reply);
            let then = TurnView {
                progress: next.progress,
                notices: turn.notices + next.notices,
            };
            lemma_link_run_keeps(link, overwrite, create_dirs, then, reply.tree, path);
        },
    }
}

/// The round trip spares the rest: what stands at a path that is no
/// destination stands as it stood after the links were made and after they
/// were removed.
pub proof fn law_rest_untouched(
    link: LinkView,
    overwrite: bool,
    create_dirs: bool,
    tree: Tree,
    path: Seq<char>,
)
    requires
        countable(link),
        tree.contains_key(path),
        !link.destinations.contains(path),
    ensures
        linked(link, overwrite, create_dirs, tree).tree.contains_key(path),
        linked(link, overwrite, create_dirs, tree).tree[path] == tree[path],
        deleted(link, linked(link, overwrite, create_dirs, tree).tree).tree.contains_key(path),
        deleted(link, linked(link, overwrite, create_dirs, tree).tree).tree[path] == tree[path],
{
    let made = linked(link, overwrite, create_dirs, tree).tree;
    lemma_link_run_keeps(
        link,
        overwrite,
        create_dirs,
        link_from(link, overwrite, create_dirs, 0),
        tree,
        path,
    );
    law_delete_changes_destinations(link, made);
}

/// The round trip spares the origin: the file that the links point to is not
/// touched, neither when the links are made nor when they are removed,
/// unless it is itself among the destinations.
pub proof fn law_origin_untouched(link: LinkView, overwrite: bool, create_dirs: bool, tree: Tree)
    requires
        countable(link),
        tree.contains_key(link.origin),
        !link.destinations.contains(link.origin),
    ensures
        linked(link, overwrite, create_dirs, tree).tree.contains_key(link.origin),
        linked(link, overwrite, create_dirs, tree).tree[link.origin] == tree[link.origin],
        deleted(link, linked(link, overwrite, create_dirs, tree).tree).tree.contains_key(
            link.origin,
        ),
        deleted(link, linked(link, overwrite, create_dirs, tree).tree).tree[link.origin]
            == tree[link.origin],
{
    law_rest_untouched(link, overwrite, create_dirs, tree, link.origin);
}

/// The round trip, where no directory stands at a destination and none is
/// made there: after the links were made, however that went, their removal
/// leaves nothing at any destination.
pub proof fn law_round_trip(link: LinkView, overwrite: bool, create_dirs: bool, tree: Tree)
    requires
        countable(link),
        no_directory(link, tree),
        create_dirs ==> apart(link, tree),
    ensures
        deleted(link, linked(link, overwrite, create_dirs, tree).tree).progress is Finished,
        all_absent(link, deleted(link, linked(link, overwrite, create_dirs, tree).tree).tree),
{
    let made = linked(link, overwrite, create_dirs, tree).tree;
    law_link_changes(link, overwrite, create_dirs, tree);
    law_link_then_delete(link, overwrite, create_dirs, tree);
    law_delete_changes_destinations(link, made);
}

/// Whether a link to the origin stands at every destination of `link`, each
/// in a directory that is there.
pub open spec fn all_linked(link: LinkView, tree: Tree) -> bool {
    forall|i: int|
        0 <= i < link.destinations.len() ==> holds_link(
            tree,
            link.origin,
            #[trigger] link.destinations[i],
        ) && in_directory(tree, link.destinations[i])
}

/// Whether a link to the origin stands at each of the first `upto`
/// destinations of `link`, each in a directory that is there; but for
/// `hole`, where nothing needs to stand.
pub open spec fn linked_before(
    link: LinkView,
    tree: Tree,
    upto: int,
    hole: Option<Seq<char>>,
) -> bool {
    forall|j: int|
        0 <= j < upto && j < link.destinations.len() ==> in_directory(
            tree,
            #[trigger] link.destinations[j],
        ) && (hole == Some(link.destinations[j]) || holds_link(
            tree,
            link.origin,
            link.destinations[j],
        ))
}

/// Whether `notices` say of each of the first `upto` destinations of `link`
/// that no link could be made there.
pub open spec fn failures_before(link: LinkView, notices: Seq<NoticeView>, upto: int) -> bool {
    forall|j: int|
        0 <= j < upto && j < link.destinations.len() ==> tells_failure(
            notices,
            #[trigger] link.destinations[j],
        )
}

/// Whether `notices` say of each of the first `upto` destinations of `link`
/// that a link was made there.
pub open spec fn links_before(link: LinkView, notices: Seq<NoticeView>, upto: int) -> bool {
    forall|j: int|
        0 <= j < upto && j < link.destinations.len() ==> tells_linked(
            notices,
            link.origin,
            #[trigger] link.destinations[j],
        )
}

/// What was told is still told when more is told.
proof fn lemma_told_stays(told: Seq<NoticeView>, more: Seq<NoticeView>)
    ensures
        forall|origin: Seq<char>, destination: Seq<char>| #[trigger]
            tells_linked(told, origin, destination) ==> tells_linked(
                told + more,
                origin,
                destination,
            ),
        forall|destination: Seq<char>| #[trigger]
            tells_failure(told, destination) ==> tells_failure(told + more, destination),
{
    assert forall|origin: Seq<char>, destination: Seq<char>| #[trigger]
        tells_linked(told, origin, destination) implies tells_linked(
        told + more,
        origin,
        destination,
    ) by {
        let k = choose|k: int|
            0 <= k < told.len() && told[k] == (NoticeView::Linked { origin, destination });
        assert((told + more)[k] == told[k]);
    }
    assert forall|destination: Seq<char>| #[trigger]
        tells_failure(told, destination) implies tells_failure(told + more, destination) by {
        let k = choose|k: int|
            0 <= k < told.len() && (#[trigger] told[k]) is LinkFailed
                && told[k]->LinkFailed_destination == destination;
        assert((told + more)[k] == told[k]);
    }
}

/// A second attempt without overwriting fails at every destination, goes on
/// all the same, and leaves the links as they are.
proof fn lemma_second_attempt(link: LinkView, create_dirs: bool, turn: TurnView, tree: Tree)
    requires
        countable(link),
        all_linked(link, tree),
        nothing_linked(turn.notices),
        match turn.progress {
            Progress::At { index, stage } => index < link.destinations.len() && (stage
                == Stage::Create || (create_dirs && stage == Stage::Directories))
                && failures_before(link, turn.notices, index as int),
            Progress::Finished => failures_before(
                link,
                turn.notices,
                link.destinations.len() as int,
            ),
            Progress::Failed { .. } => false,
        },
    ensures
        link_run(link, false, create_dirs, turn, tree).progress is Finished,
        link_run(link, false, create_dirs, turn, tree).tree == tree,
        nothing_linked(link_run(link, false, create_dirs, turn, tree).notices),
        failures_before(
            link,
            link_run(link, false, create_dirs, turn, tree).notices,
            link.destinations.len() as int,
        ),
    decreases steps_left(link, turn.progress),
{
    if let Progress::At { index, stage } = turn.progress {
        let reply = answer(tree, pending_request(link, turn.progress).unwrap());
        let next = link_step(link, false, create_dirs, turn.progress, reply.reply);
        let then = TurnView { progress: next.progress, notices: turn.notices + next.notices };
        lemma_told_stays(turn.notices, next.notices);
        if stage == Stage::Create {
            assert(then.notices[turn.notices.len() as int] == next.notices[0]);
        }
        lemma_second_attempt(link, create_dirs, then, tree);
    }
}

/// A second attempt that overwrites makes every link anew, and leaves the
/// file system as it was.
proof fn lemma_overwriting_attempt(
    link: LinkView,
    create_dirs: bool,
    turn: TurnView,
    before: Tree,
    tree: Tree,
)
    requires
        countable(link),
        all_linked(link, before),
        no_failure(turn.notices),
        match turn.progress {
            Progress::At { index, stage } => index < link.destinations.len() && links_before(
                link,
                turn.notices,
                index as int,
            ) && (if stage == Stage::Create {
                tree == before.remove(link.destinations[index as int])
            } else {
                tree == before && (stage == Stage::Directories ==> create_dirs)
            }),
            Progress::Finished => tree == before && links_before(
                link,
                turn.notices,
                link.destinations.len() as int,
            ),
            Progress::Failed { .. } => false,
        },
    ensures
        link_run(link, true, create_dirs, turn, tree).progress is Finished,
        link_run(link, true, create_dirs, turn, tree).tree == before,
        no_failure(link_run(link, true, create_dirs, turn, tree).notices),
        links_before(
            link,
            link_run(link, true, create_dirs, turn, tree).notices,
            link.destinations.len() as int,
        ),
    decreases steps_left(link, turn.progress),
{
    if let Progress::At { index, stage } = turn.progress {
        let reply = answer(tree, pending_request(link, turn.progress).unwrap());
        let next = link_step(link, true, create_dirs, turn.progress, reply.reply);
        let then = TurnView { progress: next.progress, notices: turn.notices + next.notices };
        lemma_told_stays(turn.notices, next.notices);
        if stage == Stage::Create {
            assert(reply.tree =~= before);
            assert(then.notices[turn.notices.len() as int] == next.notices[0]);
        }
        lemma_overwriting_attempt(link, create_dirs, then, before, reply.tree);
    }
}

/// The second attempt: where a link to the origin
/// stands at every destination, making the links again without overwriting
/// fails at each destination, which is told and does not end the run, and
/// leaves every link as it is; making them again with overwriting succeeds at
/// each destination, and every link stands as before.
pub proof fn law_second_attempt(link: LinkView, create_dirs: bool, tree: Tree)
    requires
        countable(link),
        all_linked(link, tree),
    ensures
        linked(link, false, create_dirs, tree).progress is Finished,
        linked(link, false, create_dirs, tree).tree == tree,
        nothing_linked(linked(link, false, create_dirs, tree).notices),
        failures_before(
            link,
            linked(link, false, create_dirs, tree).notices,
            link.destinations.len() as int,
        ),
        linked(link, true, create_dirs, tree).progress is Finished,
        linked(link, true, create_dirs, tree).tree == tree,
        no_failure(linked(link, true, create_dirs, tree).notices),
        links_before(
            link,
            linked(link, true, create_dirs, tree).notices,
            link.destinations.len() as int,
        ),
{
    lemma_second_attempt(link, create_dirs, link_from(link, false, create_dirs, 0), tree);
    lemma_overwriting_attempt(link, create_dirs, link_from(link, true, create_dirs, 0), tree, tree);
}

/// What a making of links without failure has brought about when it stands
/// at `progress`: the destinations that it has passed hold their links. While the link at a
/// destination is being made, nothing needs to stand at that destination.
pub open spec fn linked_so_far(link: LinkView, progress: Progress, tree: Tree) -> bool {
    match progress {
        Progress::At { index, stage } => index < link.destinations.len() && linked_before(
            link,
            tree,
            index as int,
            if stage == Stage::Create {
                Some(link.destinations[index as int])
            } else {
                None
            },
        ),
        Progress::Finished => all_linked(link, tree),
        Progress::Failed { .. } => true,
    }
}

/// A making of links that finishes and tells of no failure leaves a link at
/// every destination.
proof fn lemma_first_attempt(
    link: LinkView,
    overwrite: bool,
    create_dirs: bool,
    turn: TurnView,
    tree: Tree,
)
    requires
        countable(link),
        linked_so_far(link, turn.progress, tree),
    ensures
        link_run(link, overwrite, create_dirs, turn, tree).progress is Finished && no_failure(
            link_run(link, overwrite, create_dirs, turn, tree).notices,
        ) ==> all_linked(link, link_run(link, overwrite, create_dirs, turn, tree).tree),
    decreases steps_left(link, turn.progress),
{
    match pending_request(link, turn.progress) {
        None => {},
        Some(request) => {
            let reply = answer(tree, request);
            let next = link_step(link, overwrite, create_dirs, turn.progress, reply.reply);
            let then = TurnView { progress: next.progress, notices: turn.notices + next.notices };
            if next.notices.len() > 0 && next.notices[0] is LinkFailed {
                let end = link_run(link, overwrite, create_dirs, turn, tree);
                lemma_link_run_tells_on(link, overwrite, create_dirs, then, reply.tree);
                let at = turn.notices.len() as int;
                assert(end.notices[at] == then.notices[at]);
            } else {
                lemma_first_attempt(link, overwrite, create_dirs, then, reply.tree);
            }
        },
    }
}

/// A making of links that tells of no failure leaves a link to the origin at
/// every destination.
pub proof fn law_first_attempt(link: LinkView, overwrite: bool, create_dirs: bool, tree: Tree)
    requires
        countable(link),
        no_failure(linked(link, overwrite, create_dirs, tree).notices),
    ensures
        all_linked(link, linked(link, overwrite, create_dirs, tree).tree),
{
    law_materialization_ends(link, overwrite, create_dirs, tree);
    lemma_first_attempt(
        link,
        overwrite,
        create_dirs,
        link_from(link, overwrite, create_dirs, 0),
        tree,
    );
}

/// Overwriting: after a first making of the links that told of no failure,
/// a second one without overwriting fails at each destination, which is told
/// and does not end the run, and leaves the first links as they are; a
/// second one with overwriting succeeds at each destination, and a link to
/// the origin stands there as before.
pub proof fn law_overwrite(
    link: LinkView,
    first_overwrite: bool,
    first_create_dirs: bool,
    create_dirs: bool,
    tree: Tree,
)
    requires
        countable(link),
        no_failure(linked(link, first_overwrite, first_create_dirs, tree).notices),
    ensures
        ({
            let first = linked(link, first_overwrite, first_create_dirs, tree).tree;
            let kept = linked(link, false, create_dirs, first);
            let again = linked(link, true, create_dirs, first);
            &&& all_linked(link, first)
            &&& kept.progress is Finished
            &&& kept.tree == first
            &&& nothing_linked(kept.notices)
            &&& failures_before(link, kept.notices, link.destinations.len() as int)
            &&& again.progress is Finished
            &&& again.tree == first
            &&& no_failure(again.notices)
            &&& links_before(link, again.notices, link.destinations.len() as int)
        }),
{
    law_first_attempt(link, first_overwrite, first_create_dirs, tree);
    law_second_attempt(
        link,
        create_dirs,
        linked(link, first_overwrite, first_create_dirs, tree).tree,
    );
}

/// Linking twice: on destinations that are free, distinct and in
/// directories that are there, a first making of the links succeeds at each
/// destination; a second one without overwriting then fails at each
/// destination, which is told and ends nothing, and leaves the first links as
/// they are; and a second one with overwriting succeeds at each destination,
/// and a link to the origin stands there as before.
pub proof fn law_linking_twice(
    link: LinkView,
    first_overwrite: bool,
    first_create_dirs: bool,
    create_dirs: bool,
    tree: Tree,
)
    requires
        countable(link),
        all_absent(link, tree),
        forall|i: int|
            0 <= i < link.destinations.len() ==> in_directory(
                tree,
                #[trigger] link.destinations[i],
            ),
        forall|a: int, b: int|
            0 <= a < b < link.destinations.len() ==> link.destinations[a] != link.destinations[b],
    ensures
        ({
            let first = linked(link, first_overwrite, first_create_dirs, tree);
            let kept = linked(link, false, create_dirs, first.tree);
            let again = linked(link, true, create_dirs, first.tree);
            &&& first.progress is Finished
            &&& no_failure(first.notices)
            &&& all_linked(link, first.tree)
            &&& kept.progress is Finished
            &&& kept.tree == first.tree
            &&& nothing_linked(kept.notices)
            &&& failures_before(link, kept.notices, link.destinations.len() as int)
            &&& again.progress is Finished
            &&& again.tree == first.tree
            &&& no_failure(again.notices)
            &&& links_before(link, again.notices, link.destinations.len() as int)
        }),
{
    law_first_attempt_succeeds(link, first_overwrite, first_create_dirs, tree);
    law_overwrite(link, first_overwrite, first_create_dirs, create_dirs, tree);
}

} // verus!
