//! Discovery as a descent: what a walk over a tree of files and directories
//! is meant to find, and the proof that it finds just that.
//!
//! The tree is the file system below the path at which the walk starts: a
//! file with its lines, or a directory with its entries in the order of its
//! listing.

use crate::autolink::scan_of;
use crate::link::LinkView;
use crate::model::{not_found, refused};
use crate::request::{EntryKind, Failure, ReplyView, RequestView};
use crate::walk::{walk_from, walk_request, walk_step, WalkStage, WalkView};
use vstd::prelude::*;

verus! {

/// What a walk meets at a path.
pub enum Entry {
    /// A file that can be read.
    File { canonical: Seq<char>, lines: Seq<Seq<char>> },
    /// A file that cannot be read.
    Unreadable,
    /// A directory, with its entries in the order of its listing.
    Directory { entries: Seq<Place> },
    /// A directory that cannot be listed: it is gone, or it is barred.
    Unlistable { missing: bool },
    /// Neither a file nor a directory.
    Other,
}

/// A path, and what a walk meets there.
pub struct Place {
    pub path: Seq<char>,
    pub entry: Entry,
}

/// What one finds, or why one fails, when one takes `first` and then `then`.
pub open spec fn and_then_found(
    first: Result<Seq<LinkView>, Failure>,
    then: Result<Seq<LinkView>, Failure>,
) -> Result<Seq<LinkView>, Failure> {
    match (first, then) {
        (Ok(found), Ok(more)) => Ok(found + more),
        (Ok(_), Err(failure)) => Err(failure),
        (Err(failure), _) => Err(failure),
    }
}

/// What a descent from `place` finds: the scan of a file; of a directory,
/// what the descents from its entries find, one after the other in the order
/// of the listing; nothing of anything else, nor of a directory that is gone.
/// A file that cannot be read or scanned and a directory that is barred make
/// the whole descent fail.
pub open spec fn discovered(place: Place, home: Option<Seq<char>>, base: Seq<char>) -> Result<
    Seq<LinkView>,
    Failure,
>
    decreases place,
{
    match place.entry {
        Entry::File { canonical, lines } => match scan_of(
            place.path,
            canonical,
            lines,
            home,
            base,
        ) {
            Ok(scan) => Ok(seq![scan.link]),
            Err(failure) => Err(failure),
        },
        Entry::Unreadable => Err(Failure::Io),
        Entry::Directory { entries } => discovered_among(entries, home, base),
        Entry::Unlistable { missing } => if missing {
            Ok(Seq::empty())
        } else {
            Err(Failure::Io)
        },
        Entry::Other => Ok(Seq::empty()),
    }
}

/// What the descents from `places` find, one after the other.
pub open spec fn discovered_among(
    places: Seq<Place>,
    home: Option<Seq<char>>,
    base: Seq<char>,
) -> Result<Seq<LinkView>, Failure>
    decreases places,
{
    if places.len() == 0 {
        Ok(Seq::empty())
    } else {
        and_then_found(
            discovered(places.first(), home, base),
            discovered_among(places.drop_first(), home, base),
        )
    }
}

/// What `entry` is taken for when it is classified.
pub open spec fn kind_of(entry: Entry) -> EntryKind {
    match entry {
        Entry::File { .. } | Entry::Unreadable => EntryKind::File,
        Entry::Directory { .. } | Entry::Unlistable { .. } => EntryKind::Directory,
        Entry::Other => EntryKind::Other,
    }
}

/// The paths of `places`.
pub open spec fn paths_of(places: Seq<Place>) -> Seq<Seq<char>> {
    Seq::new(places.len(), |i: int| places[i].path)
}

/// How `entry` answers a request of a walk.
pub open spec fn answer_of(entry: Entry, request: RequestView) -> ReplyView {
    match (request, entry) {
        (RequestView::Classify { .. }, _) => ReplyView::Kind { kind: kind_of(entry) },
        (RequestView::ReadFile { .. }, Entry::File { canonical, lines }) => ReplyView::File {
            canonical,
            lines,
        },
        (RequestView::ListDirectory { .. }, Entry::Directory { entries }) => ReplyView::Entries {
            paths: paths_of(entries),
        },
        (RequestView::ListDirectory { .. }, Entry::Unlistable { missing: true }) => not_found(),
        _ => refused(),
    }
}

/// The places that a walk has yet to visit, the next one last, once the last
/// of `stack` has answered `request`: a file or a directory that was
/// classified stays to be read or listed; a directory that was listed gives
/// way to its entries; anything else is done with.
pub open spec fn stack_after(stack: Seq<Place>, request: RequestView) -> Seq<Place> {
    match (request, stack.last().entry) {
        (RequestView::Classify { .. }, Entry::Other) => stack.drop_last(),
        (RequestView::Classify { .. }, _) => stack,
        (RequestView::ListDirectory { .. }, Entry::Directory { entries }) => stack.drop_last()
            + entries.reverse(),
        _ => stack.drop_last(),
    }
}

/// How many entries stand at `place` and below it.
pub open spec fn weight(place: Place) -> nat
    decreases place,
{
    match place.entry {
        Entry::Directory { entries } => 1 + weight_among(entries),
        _ => 1,
    }
}

/// How many entries stand at `places` and below them.
pub open spec fn weight_among(places: Seq<Place>) -> nat
    decreases places,
{
    if places.len() == 0 {
        0
    } else {
        weight_among(places.drop_last()) + weight(places.last())
    }
}

/// The weight of two stretches of places is the sum of their weights.
proof fn lemma_weight_of_both(front: Seq<Place>, back: Seq<Place>)
    ensures
        weight_among(front + back) == weight_among(front) + weight_among(back),
    decreases back.len(),
{
    if back.len() > 0 {
        assert((front + back).drop_last() =~= front + back.drop_last());
        lemma_weight_of_both(front, back.drop_last());
    }
}

/// The weight of places does not depend on their order.
proof fn lemma_weight_reversed(places: Seq<Place>)
    ensures
        weight_among(places.reverse()) == weight_among(places),
    decreases places.len(),
{
    if places.len() > 0 {
        let front = places.drop_last();
        let last = seq![places.last()];
        assert(places.reverse() =~= last + front.reverse());
        lemma_weight_of_both(last, front.reverse());
        lemma_weight_reversed(front);
        assert(weight_among(last.drop_last()) == 0);
    }
}

/// How many steps the place on top of a walk still takes at `stage`, beyond
/// its weight.
pub open spec fn rank(stage: WalkStage) -> nat {
    if stage is Classify {
        1
    } else {
        0
    }
}

/// The walk over the places of `stack`, the next one last, from `walk` to its
/// end: each request is answered by the place that it is about.
pub open spec fn walk_run(
    walk: WalkView,
    stack: Seq<Place>,
    home: Option<Seq<char>>,
    base: Seq<char>,
) -> WalkView
    decreases weight_among(stack), rank(walk.stage),
    via walk_run_ends
{
    match walk_request(walk) {
        None => walk,
        Some(request) => if stack.len() == 0 {
            walk
        } else {
            walk_run(
                walk_step(walk, answer_of(stack.last().entry, request), home, base).walk,
                stack_after(stack, request),
                home,
                base,
            )
        },
    }
}

/// A step of a walk brings it nearer to its end: it is done with a place, or
/// it has classified the place on top.
pub proof fn lemma_walk_takes_a_step(
    walk: WalkView,
    stack: Seq<Place>,
    home: Option<Seq<char>>,
    base: Seq<char>,
)
    requires
        walk_request(walk).is_some(),
        stack.len() > 0,
    ensures
        ({
            let request = walk_request(walk).unwrap();
            let next = walk_step(walk, answer_of(stack.last().entry, request), home, base).walk;
            let after = stack_after(stack, request);
            ||| weight_among(after) < weight_among(stack)
            ||| (after == stack && rank(next.stage) < rank(walk.stage))
        }),
{
    assert(weight(stack.last()) >= 1);
    if let Entry::Directory { entries } = stack.last().entry {
        lemma_weight_of_both(stack.drop_last(), entries.reverse());
        lemma_weight_reversed(entries);
    }
}

#[via_fn]
proof fn walk_run_ends(
    walk: WalkView,
    stack: Seq<Place>,
    home: Option<Seq<char>>,
    base: Seq<char>,
) {
    if walk_request(walk).is_some() && stack.len() > 0 {
        lemma_walk_takes_a_step(walk, stack, home, base);
    }
}

/// What the descents from the places of `stack` find, one after the other
/// from the last place to the first.
pub open spec fn discovered_on(
    stack: Seq<Place>,
    home: Option<Seq<char>>,
    base: Seq<char>,
) -> Result<Seq<LinkView>, Failure>
    decreases stack.len(),
{
    if stack.len() == 0 {
        Ok(Seq::empty())
    } else {
        and_then_found(
            discovered(stack.last(), home, base),
            discovered_on(stack.drop_last(), home, base),
        )
    }
}

/// To take three findings one after the other is the same however they are
/// paired.
proof fn lemma_and_then_found(
    first: Result<Seq<LinkView>, Failure>,
    second: Result<Seq<LinkView>, Failure>,
    third: Result<Seq<LinkView>, Failure>,
)
    ensures
        and_then_found(and_then_found(first, second), third) == and_then_found(
            first,
            and_then_found(second, third),
        ),
        and_then_found(Ok(Seq::empty()), first) == first,
{
    if let (Ok(a), Ok(b), Ok(c)) = (first, second, third) {
        assert((a + b) + c =~= a + (b + c));
    }
}

/// With the entries of a directory on top of it, the next one last, a stack
/// gives what the entries give in the order of the listing, and then what
/// the stack gives.
proof fn lemma_entries_on_top(
    rest: Seq<Place>,
    entries: Seq<Place>,
    home: Option<Seq<char>>,
    base: Seq<char>,
)
    ensures
        discovered_on(rest + entries.reverse(), home, base) == and_then_found(
            discovered_among(entries, home, base),
            discovered_on(rest, home, base),
        ),
    decreases entries.len(),
{
    if entries.len() == 0 {
        lemma_and_then_found(discovered_on(rest, home, base), Ok(Seq::empty()), Ok(Seq::empty()));
    } else {
        let others = entries.drop_first();
        assert((rest + entries.reverse()).drop_last() =~= rest + others.reverse());
        lemma_entries_on_top(rest, others, home, base);
        lemma_and_then_found(
            discovered(entries.first(), home, base),
            discovered_among(others, home, base),
            discovered_on(rest, home, base),
        );
    }
}

/// Whether `walk` is a walk over the places of `stack`: they are what is
/// pending, and the last of them is what the stage of the walk takes it for.
pub open spec fn walks_over(walk: WalkView, stack: Seq<Place>) -> bool {
    &&& walk.pending == paths_of(stack)
    &&& match walk.stage {
        WalkStage::Classify => stack.len() > 0,
        WalkStage::Read => stack.len() > 0 && kind_of(stack.last().entry) is File,
        WalkStage::List => stack.len() > 0 && kind_of(stack.last().entry) is Directory,
        WalkStage::Finished => stack.len() == 0,
        WalkStage::Failed { .. } => false,
    }
}

/// A step of a walk over the places of a stack leaves a walk over the places
/// that are then on the stack, unless it makes the walk fail.
pub proof fn lemma_walk_goes_on(
    walk: WalkView,
    stack: Seq<Place>,
    home: Option<Seq<char>>,
    base: Seq<char>,
)
    requires
        walks_over(walk, stack),
        stack.len() > 0,
    ensures
        walk_request(walk).is_some(),
        ({
            let request = walk_request(walk).unwrap();
            let next = walk_step(walk, answer_of(stack.last().entry, request), home, base).walk;
            let after = stack_after(stack, request);
            &&& next.stage is Failed || walks_over(next, after)
            &&& walk_run(walk, stack, home, base) == walk_run(next, after, home, base)
        }),
{
    let rest = stack.drop_last();
    assert(walk.pending.drop_last() =~= paths_of(rest));
    if let Entry::Directory { entries } = stack.last().entry {
        assert(paths_of(rest + entries.reverse()) =~= paths_of(rest) + paths_of(entries).reverse());
    }
}

/// A walk finds what the descents from its places find.
pub proof fn lemma_walk_is_descent(
    walk: WalkView,
    stack: Seq<Place>,
    home: Option<Seq<char>>,
    base: Seq<char>,
)
    requires
        walks_over(walk, stack),
    ensures
        match discovered_on(stack, home, base) {
            Ok(more) => {
                &&& walk_run(walk, stack, home, base).stage is Finished
                &&& walk_run(walk, stack, home, base).pending.len() == 0
                &&& walk_run(walk, stack, home, base).found == walk.found + more
            },
            Err(failure) => walk_run(walk, stack, home, base).stage == (WalkStage::Failed {
                failure,
            }),
        },
    decreases weight_among(stack), rank(walk.stage),
{
    if stack.len() > 0 {
        let top = stack.last();
        let rest = stack.drop_last();
        let request = walk_request(walk).unwrap();
        let next = walk_step(walk, answer_of(top.entry, request), home, base).walk;
        let after = stack_after(stack, request);
        lemma_walk_goes_on(walk, stack, home, base);
        lemma_walk_takes_a_step(walk, stack, home, base);
        lemma_and_then_found(discovered_on(rest, home, base), Ok(Seq::empty()), Ok(Seq::empty()));
        if let Entry::Directory { entries } = top.entry {
            lemma_entries_on_top(rest, entries, home, base);
        }
        if !(next.stage is Failed) {
            lemma_walk_is_descent(next, after, home, base);
        }
    }
}

/// Discovery goes by the listings: the walk from a place finds what
/// the descent from that place finds, and in the same order; and it fails
/// where the descent fails, and for the same reason.
pub proof fn law_walk_is_descent(root: Place, home: Option<Seq<char>>, base: Seq<char>)
    ensures
        match discovered(root, home, base) {
            Ok(found) => {
                &&& walk_run(walk_from(root.path), seq![root], home, base).stage is Finished
                &&& walk_run(walk_from(root.path), seq![root], home, base).pending.len() == 0
                &&& walk_run(walk_from(root.path), seq![root], home, base).found == found
            },
            Err(failure) => walk_run(walk_from(root.path), seq![root], home, base).stage
                == (WalkStage::Failed { failure }),
        },
{
    let stack = seq![root];
    assert(walk_from(root.path).pending =~= paths_of(stack));
    lemma_walk_is_descent(walk_from(root.path), stack, home, base);
    lemma_and_then_found(discovered(root, home, base), Ok(Seq::empty()), Ok(Seq::empty()));
    assert(discovered_on(stack.drop_last(), home, base) == Ok::<Seq<LinkView>, Failure>(
        Seq::empty(),
    ));
}

} // verus!
