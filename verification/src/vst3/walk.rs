//! The recursive search for VST3 candidates.

use std::path::{Path, PathBuf};
use vstd::prelude::*;
use vstd::seq_lib::lemma_seq_concat_contains_all_elements;

use super::{is_candidate, is_vst3_candidate};
use crate::paths::{
    all_bytes, all_entries, buffer_bytes, entry_view, law_outcome_is_in_path_order, path_bytes,
    path_precedes, sort_paths, sorted_outcome, DirListing, Listing, SearchAction, SearchRequest,
};

verus! {

/// A recursive search for VST3 candidates, one directory at a time.
pub struct CandidateWalk {
    /// What is left to visit, the next one last.
    pending: Vec<Result<PathBuf, String>>,
    found: Vec<PathBuf>,
    waiting: bool,
}

/// The contents of a [`CandidateWalk`].
pub struct Walk {
    /// What is left to visit, the next one first.
    pub pending: Seq<Result<Seq<u8>, Seq<char>>>,
    /// The candidates so far.
    pub found: Seq<Seq<u8>>,
    /// Whether a listing is awaited.
    pub waiting: bool,
}

impl View for CandidateWalk {
    type V = Walk;

    closed spec fn view(&self) -> Walk {
        Walk {
            pending: all_entries(self.pending@).reverse(),
            found: all_bytes(self.found@),
            waiting: self.waiting,
        }
    }
}

/// Where a walk stops to ask, or ends.
pub enum Stop {
    /// It asks for the listing of a path.
    Ask {
        path: Seq<u8>,
        pending: Seq<Result<Seq<u8>, Seq<char>>>,
        found: Seq<Seq<u8>>,
    },
    /// It has found this, not sorted yet.
    End(Result<Seq<Seq<u8>>, Seq<char>>),
}

/// Visits what is pending up to the first path that is not a candidate, or the first error. A
/// candidate is taken without a look inside.
pub open spec fn visit(
    pending: Seq<Result<Seq<u8>, Seq<char>>>,
    found: Seq<Seq<u8>>,
) -> Stop
    decreases pending.len(),
{
    if pending.len() == 0 {
        Stop::End(Ok(found))
    } else {
        match pending[0] {
            Err(error) => Stop::End(Err(error)),
            Ok(path) => if is_candidate(path) {
                visit(pending.drop_first(), found.push(path))
            } else {
                Stop::Ask { path, pending: pending.drop_first(), found }
            },
        }
    }
}

/// Where a walk stops next after a listing.
pub open spec fn after_listing(
    pending: Seq<Result<Seq<u8>, Seq<char>>>,
    found: Seq<Seq<u8>>,
    listing: Listing,
) -> Stop {
    match listing {
        Listing::NotADirectory => visit(pending, found),
        Listing::Unreadable(error) => Stop::End(Err(error)),
        Listing::Entries(entries) => visit(entries + pending, found),
    }
}

/// Whether a walk stands at a stop and asks for what that stop says.
pub open spec fn stands_at(walk: Walk, request: SearchRequest, stop: Stop) -> bool {
    match stop {
        Stop::Ask { path, pending, found } => {
            &&& request == SearchRequest::List(path)
            &&& walk == (Walk { pending, found, waiting: true })
        },
        Stop::End(outcome) => {
            &&& request matches SearchRequest::Finish(sorted)
            &&& sorted_outcome(outcome, sorted)
            &&& !walk.waiting
        },
    }
}

/// Starts to look for VST3 candidates under `root`.
pub fn candidate_paths(root: &Path) -> (started: (CandidateWalk, SearchAction))
    ensures
        stands_at(
            started.0@,
            started.1@,
            visit(seq![Ok::<Seq<u8>, Seq<char>>(path_bytes(root))], seq![]),
        ),
{
    let mut walk = CandidateWalk { pending: Vec::new(), found: Vec::new(), waiting: false };
    walk.pending.push(Ok(root.to_path_buf()));
    proof {
        assert(walk@.pending =~= seq![Ok::<Seq<u8>, Seq<char>>(path_bytes(root))]);
        assert(walk@.found =~= seq![]);
    }
    let action = walk.collect_candidate_paths();
    (walk, action)
}

impl CandidateWalk {
    /// Visits what is pending until a listing is needed.
    fn collect_candidate_paths(&mut self) -> (action: SearchAction)
        ensures
            stands_at(final(self)@, action@, visit(old(self)@.pending, old(self)@.found)),
    {
        let ghost goal = visit(self@.pending, self@.found);
        self.waiting = false;
        loop
            invariant
                goal == visit(old(self)@.pending, old(self)@.found),
                visit(self@.pending, self@.found) == goal,
                !self@.waiting,
            decreases self.pending@.len(),
        {
            let ghost before = self.pending@;
            let ghost pending = self@.pending;
            match self.pending.pop() {
                None => {
                    let mut found: Vec<PathBuf> = Vec::new();
                    std::mem::swap(&mut found, &mut self.found);
                    sort_paths(&mut found);
                    return SearchAction::Finish(Ok(found));
                },
                Some(next) => {
                    assert(pending[0] == entry_view(next));
                    assert(self@.pending =~= pending.drop_first());
                    match next {
                        Err(error) => {
                            return SearchAction::Finish(Err(error));
                        },
                        Ok(path) => {
                            if is_vst3_candidate(path.as_path()) {
                                let ghost earlier = self@.found;
                                self.found.push(path);
                                assert(self@.found =~= earlier.push(buffer_bytes(path)));
                                assert(self@.pending =~= pending.drop_first());
                            } else {
                                self.waiting = true;
                                assert(self@.pending =~= pending.drop_first());
                                return SearchAction::List(path);
                            }
                        },
                    }
                },
            }
        }
    }

    /// Takes the listing of the directory that was asked for last.
    pub fn resume(&mut self, listing: DirListing) -> (action: SearchAction)
        ensures
            !old(self)@.waiting ==> final(self)@ == old(self)@ && action@ == SearchRequest::Wait,
            old(self)@.waiting ==> stands_at(
                final(self)@,
                action@,
                after_listing(old(self)@.pending, old(self)@.found, listing@),
            ),
    {
        if !self.waiting {
            return SearchAction::Wait;
        }
        match listing {
            DirListing::NotADirectory => self.collect_candidate_paths(),
            DirListing::Unreadable(error) => {
                self.waiting = false;
                SearchAction::Finish(Err(error))
            },
            DirListing::Entries(entries) => {
                let mut entries = entries;
                let ghost all = all_entries(entries@);
                let ghost rest = self@.pending;
                let ghost found = self@.found;
                let mut left: usize = entries.len();
                while left > 0
                    invariant
                        left == entries@.len(),
                        left <= all.len(),
                        all_entries(entries@) == all.take(left as int),
                        self@.pending == all.skip(left as int) + rest,
                        self@.found == found,
                    decreases left,
                {
                    let ghost before = entries@;
                    let ghost pending = self@.pending;
                    if let Some(entry) = entries.pop() {
                        assert(all_entries(entries@) =~= all.take(left - 1));
                        assert(entry_view(entry) == all_entries(before)[left - 1]);
                        self.pending.push(entry);
                        assert(self@.pending =~= seq![entry_view(entry)] + pending);
                        assert(self@.pending =~= all.skip(left - 1) + rest);
                    }
                    left = left - 1;
                }
                assert(all.skip(0) =~= all);
                self.collect_candidate_paths()
            },
        }
    }
}

/// A directory tree as a walk may find it.
pub struct DirTree {
    pub path: Seq<u8>,
    pub content: DirContent,
}

/// What is at one place of a [`DirTree`].
pub enum DirContent {
    NotADirectory,
    Unreadable(Seq<char>),
    Entries(Seq<Result<DirTree, Seq<char>>>),
}

/// The candidates in a tree in the order in which they are met, or the first error: a candidate
/// stands for itself, a directory for what is in it, anything else for nothing.
pub open spec fn candidates_in(tree: DirTree) -> Result<Seq<Seq<u8>>, Seq<char>>
    decreases tree,
{
    if is_candidate(tree.path) {
        Ok(seq![tree.path])
    } else {
        match tree.content {
            DirContent::NotADirectory => Ok(seq![]),
            DirContent::Unreadable(error) => Err(error),
            DirContent::Entries(entries) => candidates_in_all(entries),
        }
    }
}

/// The candidates in several trees, or the first error.
pub open spec fn candidates_in_all(entries: Seq<Result<DirTree, Seq<char>>>) -> Result<
    Seq<Seq<u8>>,
    Seq<char>,
>
    decreases entries,
{
    if entries.len() == 0 {
        Ok(seq![])
    } else {
        match entries[0] {
            Err(error) => Err(error),
            Ok(tree) => match candidates_in(tree) {
                Err(error) => Err(error),
                Ok(here) => match candidates_in_all(entries.drop_first()) {
                    Err(error) => Err(error),
                    Ok(there) => Ok(here + there),
                },
            },
        }
    }
}

/// The listing of a tree's root.
pub open spec fn listing_of(content: DirContent) -> Listing {
    match content {
        DirContent::NotADirectory => Listing::NotADirectory,
        DirContent::Unreadable(error) => Listing::Unreadable(error),
        DirContent::Entries(entries) => Listing::Entries(paths_of(entries)),
    }
}

/// The entries of a directory without what is in them.
pub open spec fn paths_of(entries: Seq<Result<DirTree, Seq<char>>>) -> Seq<
    Result<Seq<u8>, Seq<char>>,
> {
    entries.map_values(
        |entry: Result<DirTree, Seq<char>>|
            match entry {
                Ok(tree) => Ok(tree.path),
                Err(error) => Err(error),
            },
    )
}

/// The listings that a walk over a tree asks for, in order, if no error ends it.
pub open spec fn listings_in(tree: DirTree) -> Seq<Listing>
    decreases tree,
{
    if is_candidate(tree.path) {
        seq![]
    } else {
        match tree.content {
            DirContent::Entries(entries) => seq![listing_of(tree.content)] + listings_in_all(
                entries,
            ),
            _ => seq![listing_of(tree.content)],
        }
    }
}

/// The listings that a walk over several trees asks for.
pub open spec fn listings_in_all(entries: Seq<Result<DirTree, Seq<char>>>) -> Seq<Listing>
    decreases entries,
{
    if entries.len() == 0 {
        seq![]
    } else {
        match entries[0] {
            Err(_) => seq![],
            Ok(tree) => listings_in(tree) + listings_in_all(entries.drop_first()),
        }
    }
}

/// Where a walk stops after it was given these listings one after the other.
pub open spec fn walk_on(stop: Stop, listings: Seq<Listing>) -> Stop
    decreases listings.len(),
{
    if listings.len() == 0 {
        stop
    } else {
        match stop {
            Stop::End(_) => stop,
            Stop::Ask { path, pending, found } => walk_on(
                after_listing(pending, found, listings[0]),
                listings.drop_first(),
            ),
        }
    }
}

proof fn lemma_walk_tree(
    tree: DirTree,
    pending: Seq<Result<Seq<u8>, Seq<char>>>,
    found: Seq<Seq<u8>>,
    more: Seq<Listing>,
)
    ensures
        walk_on(
            visit(seq![Ok::<Seq<u8>, Seq<char>>(tree.path)] + pending, found),
            listings_in(tree) + more,
        ) == match candidates_in(tree) {
            Ok(here) => walk_on(visit(pending, found + here), more),
            Err(error) => Stop::End(Err(error)),
        },
    decreases tree,
{
    let all = seq![Ok::<Seq<u8>, Seq<char>>(tree.path)] + pending;
    assert(all.drop_first() =~= pending);
    if is_candidate(tree.path) {
        assert(listings_in(tree) + more =~= more);
        assert(found.push(tree.path) =~= found + seq![tree.path]);
    } else {
        let first = listing_of(tree.content);
        let stop = visit(all, found);
        assert(stop == Stop::Ask { path: tree.path, pending, found });
        match tree.content {
            DirContent::Entries(entries) => {
                let listings = listings_in(tree) + more;
                assert(listings[0] == first);
                assert(listings.drop_first() =~= listings_in_all(entries) + more);
                lemma_walk_trees(entries, pending, found, more);
            },
            _ => {
                let listings = listings_in(tree) + more;
                reveal_with_fuel(walk_on, 2);
                assert(listings.drop_first() =~= more);
                assert(found + Seq::<Seq<u8>>::empty() =~= found);
            },
        }
    }
}

proof fn lemma_walk_trees(
    entries: Seq<Result<DirTree, Seq<char>>>,
    pending: Seq<Result<Seq<u8>, Seq<char>>>,
    found: Seq<Seq<u8>>,
    more: Seq<Listing>,
)
    ensures
        walk_on(visit(paths_of(entries) + pending, found), listings_in_all(entries) + more)
            == match candidates_in_all(entries) {
            Ok(here) => walk_on(visit(pending, found + here), more),
            Err(error) => Stop::End(Err(error)),
        },
    decreases entries,
{
    if entries.len() == 0 {
        assert(paths_of(entries) + pending =~= pending);
        assert(listings_in_all(entries) + more =~= more);
        assert(found + Seq::<Seq<u8>>::empty() =~= found);
    } else {
        let later = entries.drop_first();
        match entries[0] {
            Err(error) => {},
            Ok(tree) => {
                assert(paths_of(entries) + pending =~= seq![Ok::<Seq<u8>, Seq<char>>(tree.path)] + (
                paths_of(later) + pending));
                assert(listings_in_all(entries) + more =~= listings_in(tree) + (listings_in_all(
                    later,
                ) + more));
                lemma_walk_tree(tree, paths_of(later) + pending, found, listings_in_all(later) + more);
                match candidates_in(tree) {
                    Err(error) => {},
                    Ok(here) => {
                        lemma_walk_trees(later, pending, found + here, more);
                        if let Ok(there) = candidates_in_all(later) {
                            assert((found + here) + there =~= found + (here + there));
                        }
                    },
                }
            },
        }
    }
}

/// A walk over a directory tree ends, and it ends with the candidates in that tree or with the
/// first error in it.
pub proof fn law_walk_finds_candidates(tree: DirTree)
    ensures
        walk_on(visit(seq![Ok::<Seq<u8>, Seq<char>>(tree.path)], seq![]), listings_in(tree))
            == Stop::End(candidates_in(tree)),
{
    let nothing: Seq<Result<Seq<u8>, Seq<char>>> = seq![];
    let no_listing: Seq<Listing> = seq![];
    lemma_walk_tree(tree, nothing, seq![], no_listing);
    let start = seq![Ok::<Seq<u8>, Seq<char>>(tree.path)];
    assert(start + nothing =~= start);
    assert(listings_in(tree) + no_listing =~= listings_in(tree));
    if let Ok(here) = candidates_in(tree) {
        assert(Seq::<Seq<u8>>::empty() + here =~= here);
    }
}

/// Whether a path is at a place of a tree that is not below a candidate.
pub open spec fn lies_in(tree: DirTree, path: Seq<u8>) -> bool
    decreases tree,
{
    tree.path == path || !is_candidate(tree.path) && match tree.content {
        DirContent::Entries(entries) => lies_in_any(entries, path),
        _ => false,
    }
}

/// Whether a path is at a place of one of some trees that is not below a candidate.
pub open spec fn lies_in_any(entries: Seq<Result<DirTree, Seq<char>>>, path: Seq<u8>) -> bool
    decreases entries,
{
    entries.len() > 0 && (lies_in_any(entries.drop_first(), path) || match entries[0] {
        Ok(tree) => lies_in(tree, path),
        Err(_) => false,
    })
}

/// Whether something in a tree, not below a candidate, cannot be read.
pub open spec fn has_fault(tree: DirTree) -> bool
    decreases tree,
{
    !is_candidate(tree.path) && match tree.content {
        DirContent::NotADirectory => false,
        DirContent::Unreadable(_) => true,
        DirContent::Entries(entries) => has_fault_in_any(entries),
    }
}

/// Whether something in one of some trees cannot be read.
pub open spec fn has_fault_in_any(entries: Seq<Result<DirTree, Seq<char>>>) -> bool
    decreases entries,
{
    entries.len() > 0 && (has_fault_in_any(entries.drop_first()) || match entries[0] {
        Ok(tree) => has_fault(tree),
        Err(_) => true,
    })
}

/// How many places of a tree are candidates that are not below another one.
pub open spec fn candidate_places(tree: DirTree) -> nat
    decreases tree,
{
    if is_candidate(tree.path) {
        1
    } else {
        match tree.content {
            DirContent::Entries(entries) => candidate_places_in_all(entries),
            _ => 0,
        }
    }
}

/// How many places of some trees are candidates that are not below another one.
pub open spec fn candidate_places_in_all(entries: Seq<Result<DirTree, Seq<char>>>) -> nat
    decreases entries,
{
    if entries.len() == 0 {
        0
    } else {
        candidate_places_in_all(entries.drop_first()) + match entries[0] {
            Ok(tree) => candidate_places(tree),
            Err(_) => 0,
        }
    }
}

/// A search through a tree finds the candidates in it, all of them at whatever depth, each once
/// for each place that it is at, and nothing else; a candidate is not searched itself. It fails
/// exactly if something that it has to read cannot be read.
pub proof fn law_every_candidate_is_found(tree: DirTree, path: Seq<u8>)
    ensures
        candidates_in(tree) is Err <==> has_fault(tree),
        candidates_in(tree) matches Ok(found) ==> {
            &&& found.contains(path) <==> is_candidate(path) && lies_in(tree, path)
            &&& found.len() == candidate_places(tree)
        },
    decreases tree,
{
    if is_candidate(tree.path) {
        assert(seq![tree.path][0] == tree.path);
        if candidates_in(tree)->Ok_0.contains(path) {
            assert(path == tree.path);
        }
    } else if let DirContent::Entries(entries) = tree.content {
        lemma_every_candidate_is_found(entries, path);
    }
}

proof fn lemma_every_candidate_is_found(
    entries: Seq<Result<DirTree, Seq<char>>>,
    path: Seq<u8>,
)
    ensures
        candidates_in_all(entries) is Err <==> has_fault_in_any(entries),
        candidates_in_all(entries) matches Ok(found) ==> {
            &&& found.contains(path) <==> is_candidate(path) && lies_in_any(entries, path)
            &&& found.len() == candidate_places_in_all(entries)
        },
    decreases entries,
{
    if entries.len() > 0 {
        let later = entries.drop_first();
        lemma_every_candidate_is_found(later, path);
        if let Ok(tree) = entries[0] {
            law_every_candidate_is_found(tree, path);
            if candidates_in(tree) is Ok && candidates_in_all(later) is Ok {
                lemma_seq_concat_contains_all_elements(
                    candidates_in(tree)->Ok_0,
                    candidates_in_all(later)->Ok_0,
                    path,
                );
            }
        }
    }
}

/// What a search hands out at its end is what lies in the tree, in path order.
pub proof fn law_search_hands_out_the_candidates(
    tree: DirTree,
    walk: Walk,
    request: SearchRequest,
    path: Seq<u8>,
)
    requires
        !has_fault(tree),
        stands_at(
            walk,
            request,
            walk_on(visit(seq![Ok::<Seq<u8>, Seq<char>>(tree.path)], seq![]), listings_in(tree)),
        ),
    ensures
        request matches SearchRequest::Finish(Ok(found)) && (found.contains(path) <==> is_candidate(
            path,
        ) && lies_in(tree, path)) && found.len() == candidate_places(tree) && forall|
            i: int,
            j: int,
        |
            0 <= i < j < found.len() ==> !path_precedes(#[trigger] found[j], #[trigger] found[i]),
{
    law_walk_finds_candidates(tree);
    law_every_candidate_is_found(tree, path);
    let found = candidates_in(tree)->Ok_0;
    law_outcome_is_in_path_order(candidates_in(tree), request->Finish_0);
    assert(request->Finish_0->Ok_0.contains(path) <==> found.contains(path));
}

} // verus!
