//! Resolution of directory segments: a walk down a directory tree, one named
//! child at a time, from a starting directory to the directory that the
//! segments lead to.
//!
//! The tree lives in a storage service that only the caller can reach. The
//! walk therefore does not look anything up itself: it says which child it
//! needs next, takes the answer, and says how it goes on. `H` is the
//! service's handle for a directory; the walk never looks inside one.

use crate::path::texts;
use vstd::prelude::*;

verus! {

/// A segment under which the tree held no directory.
#[derive(Debug, PartialEq, Eq)]
pub struct NotFound {
    pub segment: String,
}

/// A walk that waits for one lookup: the child named by the segment at its
/// position, in the directory it has reached.
#[derive(Debug)]
pub struct Walk<H> {
    segments: Vec<String>,
    next: usize,
    current: H,
}

/// A waiting walk as plain values.
pub ghost struct WalkView<H> {
    /// All segments of the walk, in order.
    pub segments: Seq<Seq<char>>,
    /// How many of them are resolved; the place of the one looked up next.
    pub position: int,
    /// The directory reached by the resolved segments.
    pub directory: H,
}

/// Where a resolution stands.
#[derive(Debug)]
pub enum Resolution<H> {
    /// One more child has to be looked up.
    Lookup(Walk<H>),
    /// All segments are resolved; this is the directory they lead to.
    Resolved(H),
    /// A segment named no directory; nothing after it was looked up.
    Failed(NotFound),
}

/// Where a resolution stands, as plain values.
pub ghost enum ResolutionView<H> {
    Lookup(WalkView<H>),
    Resolved(H),
    Failed(Seq<char>),
}

impl<H> View for Walk<H> {
    type V = WalkView<H>;

    closed spec fn view(&self) -> WalkView<H> {
        WalkView {
            segments: texts(self.segments@),
            position: self.next as int,
            directory: self.current,
        }
    }
}

impl<H> View for Resolution<H> {
    type V = ResolutionView<H>;

    open spec fn view(&self) -> ResolutionView<H> {
        match *self {
            Resolution::Lookup(walk) => ResolutionView::Lookup(walk@),
            Resolution::Resolved(directory) => ResolutionView::Resolved(directory),
            Resolution::Failed(missing) => ResolutionView::Failed(missing.segment@),
        }
    }
}

/// Where a resolution stands once `position` of `segments` are resolved and
/// have led to `directory`: at the end, or before the next lookup.
pub open spec fn standing<H>(
    segments: Seq<Seq<char>>,
    position: int,
    directory: H,
) -> ResolutionView<H> {
    if position < segments.len() {
        ResolutionView::Lookup(WalkView { segments, position, directory })
    } else {
        ResolutionView::Resolved(directory)
    }
}

/// How a waiting walk goes on after the answer to its lookup: one segment
/// further in the child that was found, or failed at the segment that named
/// none.
pub open spec fn stepped<H>(walk: WalkView<H>, child: Option<H>) -> ResolutionView<H> {
    match child {
        Some(directory) => standing(walk.segments, walk.position + 1, directory),
        None => ResolutionView::Failed(walk.segments[walk.position]),
    }
}

/// The directory that `segments` lead to from `start`, where `tree` gives
/// the child of a directory by its name: each segment names a child of the
/// directory reached before it. The first segment that names none is the
/// error.
pub open spec fn resolved<H>(
    tree: spec_fn(H, Seq<char>) -> Option<H>,
    start: H,
    segments: Seq<Seq<char>>,
) -> Result<H, Seq<char>>
    decreases segments.len(),
{
    if segments.len() == 0 {
        Ok(start)
    } else {
        match tree(start, segments[0]) {
            Some(child) => resolved(tree, child, segments.drop_first()),
            None => Err(segments[0]),
        }
    }
}

/// Whether `state` waits for a lookup that it can name.
pub open spec fn waiting<H>(state: ResolutionView<H>) -> bool {
    state matches ResolutionView::Lookup(walk) && 0 <= walk.position < walk.segments.len()
}

/// The number of segments that `state` has not resolved yet.
pub open spec fn remaining<H>(state: ResolutionView<H>) -> nat {
    match state {
        ResolutionView::Lookup(walk) => if 0 <= walk.position < walk.segments.len() {
            (walk.segments.len() - walk.position) as nat
        } else {
            0
        },
        _ => 0,
    }
}

/// The state after `state` when its lookup is answered from `tree`.
pub open spec fn answered<H>(
    tree: spec_fn(H, Seq<char>) -> Option<H>,
    state: ResolutionView<H>,
) -> ResolutionView<H> {
    match state {
        ResolutionView::Lookup(walk) => stepped(
            walk,
            tree(walk.directory, walk.segments[walk.position]),
        ),
        _ => state,
    }
}

/// How a resolution that stands at `state` ends when every lookup it asks
/// for is answered from `tree`. A waiting walk always names its lookup; for
/// a view that names none the value is of no account.
pub open spec fn driven<H>(
    tree: spec_fn(H, Seq<char>) -> Option<H>,
    state: ResolutionView<H>,
) -> Result<H, Seq<char>>
    decreases remaining(state),
{
    match state {
        ResolutionView::Resolved(directory) => Ok(directory),
        ResolutionView::Failed(segment) => Err(segment),
        ResolutionView::Lookup(walk) => if waiting(state) {
            driven(tree, answered(tree, state))
        } else {
            Ok(walk.directory)
        },
    }
}

/// The lookups that a resolution asks for from `state` on, in order, each as
/// the directory and the name it asks in, when every one is answered from
/// `tree`.
pub open spec fn lookups<H>(
    tree: spec_fn(H, Seq<char>) -> Option<H>,
    state: ResolutionView<H>,
) -> Seq<(H, Seq<char>)>
    decreases remaining(state),
{
    match state {
        ResolutionView::Lookup(walk) => if waiting(state) {
            seq![(walk.directory, walk.segments[walk.position])] + lookups(
                tree,
                answered(tree, state),
            )
        } else {
            Seq::empty()
        },
        _ => Seq::empty(),
    }
}

/// A resolution that has `position` segments behind it ends as the
/// resolution of the segments still ahead does, from the directory reached.
pub proof fn lemma_driven_from<H>(
    tree: spec_fn(H, Seq<char>) -> Option<H>,
    segments: Seq<Seq<char>>,
    position: int,
    directory: H,
)
    requires
        0 <= position <= segments.len(),
    ensures
        driven(tree, standing(segments, position, directory)) == resolved(
            tree,
            directory,
            segments.skip(position),
        ),
    decreases segments.len() - position,
{
    reveal_with_fuel(driven, 2);
    let ahead = segments.skip(position);
    if position < segments.len() {
        assert(ahead[0] == segments[position]);
        assert(ahead.drop_first() =~= segments.skip(position + 1));
        match tree(directory, segments[position]) {
            Some(child) => {
                lemma_driven_from(tree, segments, position + 1, child);
            },
            None => {},
        }
    }
}

/// Driving a resolution step by step, each lookup answered from the tree,
/// ends in the directory that the segments lead to in that tree, or in the
/// first segment that names no child.
pub proof fn lemma_driven_is_resolved<H>(
    tree: spec_fn(H, Seq<char>) -> Option<H>,
    start: H,
    segments: Seq<Seq<char>>,
)
    ensures
        driven(tree, standing(segments, 0, start)) == resolved(tree, start, segments),
{
    lemma_driven_from(tree, segments, 0, start);
    assert(segments.skip(0) =~= segments);
}

/// A resolution asks for its segments from left to right, each once and
/// none skipped.
pub proof fn lemma_lookups_in_order<H>(
    tree: spec_fn(H, Seq<char>) -> Option<H>,
    segments: Seq<Seq<char>>,
    position: int,
    directory: H,
    k: int,
)
    requires
        0 <= position <= segments.len(),
        0 <= k < lookups(tree, standing(segments, position, directory)).len(),
    ensures
        position + k < segments.len(),
        lookups(tree, standing(segments, position, directory))[k].1 == segments[position + k],
    decreases segments.len() - position,
{
    reveal_with_fuel(lookups, 2);
    if position < segments.len() && k > 0 {
        match tree(directory, segments[position]) {
            Some(child) => {
                lemma_lookups_in_order(tree, segments, position + 1, child, k - 1);
            },
            None => {},
        }
    }
}

/// Where the segments before `missing` lead to a directory that has no
/// child named by the segment at `missing`, the resolution fails with that
/// segment, and the lookup of it is the last one made.
pub proof fn lemma_stops_at_first_missing<H>(
    tree: spec_fn(H, Seq<char>) -> Option<H>,
    segments: Seq<Seq<char>>,
    position: int,
    directory: H,
    missing: int,
)
    requires
        0 <= position <= missing < segments.len(),
        resolved(tree, directory, segments.subrange(position, missing)) matches Ok(parent)
            && tree(parent, segments[missing]) is None,
    ensures
        driven(tree, standing(segments, position, directory)) == Err::<H, Seq<char>>(
            segments[missing],
        ),
        lookups(tree, standing(segments, position, directory)).len() == missing - position + 1,
    decreases missing - position,
{
    reveal_with_fuel(driven, 2);
    reveal_with_fuel(lookups, 2);
    let before = segments.subrange(position, missing);
    if position < missing {
        assert(before[0] == segments[position]);
        assert(before.drop_first() =~= segments.subrange(position + 1, missing));
        match tree(directory, segments[position]) {
            Some(child) => {
                lemma_stops_at_first_missing(tree, segments, position + 1, child, missing);
            },
            None => {},
        }
    }
}

/// Where every segment names a child, the resolution makes one lookup for
/// each segment and ends in the directory they lead to.
pub proof fn lemma_lookups_of_success<H>(
    tree: spec_fn(H, Seq<char>) -> Option<H>,
    segments: Seq<Seq<char>>,
    position: int,
    directory: H,
)
    requires
        0 <= position <= segments.len(),
        resolved(tree, directory, segments.skip(position)) is Ok,
    ensures
        lookups(tree, standing(segments, position, directory)).len() == segments.len()
            - position,
    decreases segments.len() - position,
{
    reveal_with_fuel(lookups, 2);
    let ahead = segments.skip(position);
    if position < segments.len() {
        assert(ahead[0] == segments[position]);
        assert(ahead.drop_first() =~= segments.skip(position + 1));
        match tree(directory, segments[position]) {
            Some(child) => {
                lemma_lookups_of_success(tree, segments, position + 1, child);
            },
            None => {},
        }
    }
}

/// Starts to resolve `segments` from the directory `start`. Without segments
/// the start is the result.
pub fn resolve<H>(start: H, segments: Vec<String>) -> (r: Resolution<H>)
    ensures
        r@ == standing(texts(segments@), 0, start),
{
    if segments.len() > 0 {
        Resolution::Lookup(Walk { segments, next: 0, current: start })
    } else {
        Resolution::Resolved(start)
    }
}

impl<H> Walk<H> {
    #[verifier::type_invariant]
    spec fn pending(self) -> bool {
        self.next < self.segments.len()
    }

    /// The directory in which the next child is looked up.
    pub fn directory(&self) -> (r: &H)
        ensures
            0 <= self@.position < self@.segments.len(),
            *r == self@.directory,
    {
        proof {
            use_type_invariant(self);
        }
        &self.current
    }

    /// The name of the child that is looked up next.
    pub fn name(&self) -> (r: &str)
        ensures
            0 <= self@.position < self@.segments.len(),
            r@ == self@.segments[self@.position],
    {
        proof {
            use_type_invariant(self);
        }
        self.segments[self.next].as_str()
    }

    /// Takes the answer to the lookup: `child` is the directory of that name,
    /// or `None` where there is none. A missing child ends the resolution
    /// with the segment that named it.
    pub fn advance(self, child: Option<H>) -> (r: Resolution<H>)
        ensures
            0 <= self@.position < self@.segments.len(),
            r@ == stepped(self@, child),
    {
        proof {
            use_type_invariant(&self);
        }
        match child {
            Some(directory) => {
                if self.next + 1 < self.segments.len() {
                    Resolution::Lookup(
                        Walk { segments: self.segments, next: self.next + 1, current: directory },
                    )
                } else {
                    Resolution::Resolved(directory)
                }
            },
            None => Resolution::Failed(NotFound { segment: self.segments[self.next].clone() }),
        }
    }
}

} // verus!
