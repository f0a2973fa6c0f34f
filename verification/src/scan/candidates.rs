//! The candidates under one search root.

use vstd::prelude::*;

use super::{PluginFormat, PluginSearchPath};
use crate::clap;
use crate::paths::{
    buffer_bytes, law_sorted_paths_are_the_same, sorted_outcome, DirListing, Listing, SearchAction,
    SearchRequest,
};
use crate::vst3;
use crate::vst3::walk::{after_listing, stands_at, visit, CandidateWalk, Walk};

verus! {

/// A search for the candidates under one root.
pub struct CandidateSearch {
    kind: SearchKind,
}

/// How a root is searched.
enum SearchKind {
    /// Directly under the root; whether its listing is awaited.
    Flat { waiting: bool },
    /// Recursively.
    Recursive(CandidateWalk),
}

/// The contents of a [`CandidateSearch`].
pub enum Search {
    Flat { waiting: bool },
    Recursive(Walk),
}

impl View for CandidateSearch {
    type V = Search;

    closed spec fn view(&self) -> Search {
        match self.kind {
            SearchKind::Flat { waiting } => Search::Flat { waiting },
            SearchKind::Recursive(walk) => Search::Recursive(walk@),
        }
    }
}

/// Whether a search under a root of some format starts like this.
pub open spec fn is_start(
    format: PluginFormat,
    path: Seq<u8>,
    search: Search,
    request: SearchRequest,
) -> bool {
    match format {
        PluginFormat::Clap => {
            &&& search == (Search::Flat { waiting: true })
            &&& request == SearchRequest::List(path)
        },
        PluginFormat::Vst3 => search matches Search::Recursive(walk) && stands_at(
            walk,
            request,
            visit(seq![Ok::<Seq<u8>, Seq<char>>(path)], seq![]),
        ),
    }
}

/// Whether a listing takes a search from one state to another, with this request.
pub open spec fn is_step(
    before: Search,
    listing: Listing,
    after: Search,
    request: SearchRequest,
) -> bool {
    match before {
        Search::Flat { waiting } => {
            &&& after == (Search::Flat { waiting: false })
            &&& waiting ==> (request matches SearchRequest::Finish(found) && sorted_outcome(
                clap::found_under(listing),
                found,
            ))
            &&& !waiting ==> request == SearchRequest::Wait
        },
        Search::Recursive(walk) => {
            &&& after matches Search::Recursive(next)
            &&& walk.waiting ==> stands_at(
                next,
                request,
                after_listing(walk.pending, walk.found, listing),
            )
            &&& !walk.waiting ==> next == walk && request == SearchRequest::Wait
        },
    }
}

/// Starts to look for plugin candidates under one search root: directly under it for CLAP,
/// recursively for VST3.
pub fn candidates_for_root(root: &PluginSearchPath) -> (started: (CandidateSearch, SearchAction))
    ensures
        match root.format {
            PluginFormat::Clap => {
                &&& started.0@ == (Search::Flat { waiting: true })
                &&& started.1@ == SearchRequest::List(buffer_bytes(root.path))
            },
            PluginFormat::Vst3 => started.0@ matches Search::Recursive(walk) && stands_at(
                walk,
                started.1@,
                visit(seq![Ok::<Seq<u8>, Seq<char>>(buffer_bytes(root.path))], seq![]),
            ),
        },
        is_start(root.format, buffer_bytes(root.path), started.0@, started.1@),
{
    match root.format {
        PluginFormat::Clap => {
            let search = CandidateSearch { kind: SearchKind::Flat { waiting: true } };
            (search, SearchAction::List(root.path.as_path().to_path_buf()))
        },
        PluginFormat::Vst3 => {
            let (walk, action) = vst3::candidate_paths(root.path.as_path());
            (CandidateSearch { kind: SearchKind::Recursive(walk) }, action)
        },
    }
}

impl CandidateSearch {
    /// Takes the listing of the directory that was asked for last.
    pub fn resume(&mut self, listing: DirListing) -> (action: SearchAction)
        ensures
            match old(self)@ {
                Search::Flat { waiting } => {
                    &&& final(self)@ == (Search::Flat { waiting: false })
                    &&& if waiting {
                        action@ matches SearchRequest::Finish(found) && sorted_outcome(
                            clap::found_under(listing@),
                            found,
                        )
                    } else {
                        action@ == SearchRequest::Wait
                    }
                },
                Search::Recursive(before) => {
                    &&& final(self)@ matches Search::Recursive(after)
                    &&& if before.waiting {
                        stands_at(
                            after,
                            action@,
                            after_listing(before.pending, before.found, listing@),
                        )
                    } else {
                        after == before && action@ == SearchRequest::Wait
                    }
                },
            },
            is_step(old(self)@, listing@, final(self)@, action@),
    {
        match &mut self.kind {
            SearchKind::Flat { waiting } => {
                if !*waiting {
                    return SearchAction::Wait;
                }
                *waiting = false;
                SearchAction::Finish(clap::candidate_paths(listing))
            },
            SearchKind::Recursive(walk) => walk.resume(listing),
        }
    }
}

/// A root of CLAP plugins is listed itself, and the candidates are those among its own entries. A
/// root of VST3 plugins is listed too, unless it is a candidate itself and then the only one.
pub proof fn law_search_starts_at_its_root(
    format: PluginFormat,
    path: Seq<u8>,
    search: Search,
    request: SearchRequest,
)
    requires
        is_start(format, path, search, request),
    ensures
        format == PluginFormat::Clap ==> search is Flat && request == SearchRequest::List(path),
        format == PluginFormat::Vst3 ==> search is Recursive,
        format == PluginFormat::Vst3 && !vst3::is_candidate(path) ==> request
            == SearchRequest::List(path),
        format == PluginFormat::Vst3 && vst3::is_candidate(path) ==> (
        request matches SearchRequest::Finish(Ok(found)) && found.len() == 1 && found[0] == path),
{
    if format == PluginFormat::Vst3 {
        let start = seq![Ok::<Seq<u8>, Seq<char>>(path)];
        reveal_with_fuel(visit, 2);
        assert(start.drop_first().len() == 0);
        if vst3::is_candidate(path) {
            let one = Seq::<Seq<u8>>::empty().push(path);
            law_sorted_paths_are_the_same(one, request->Finish_0->Ok_0);
            let found = request->Finish_0->Ok_0;
            assert(found[0] == path) by {
                assert(found.contains(found[0]));
                assert(one.contains(found[0]));
            }
        }
    }
}

/// The listing of a CLAP root ends its search with exactly the candidates among its entries, if
/// all could be read; a listing that nobody asked for changes nothing.
pub proof fn law_flat_search_ends_with_its_listing(
    entries: Seq<Result<Seq<u8>, Seq<char>>>,
    after: Search,
    request: SearchRequest,
    path: Seq<u8>,
)
    requires
        forall|i: int| 0 <= i < entries.len() ==> (#[trigger] entries[i]) is Ok,
    ensures
        is_step((Search::Flat { waiting: true }), Listing::Entries(entries), after, request) ==> (
        request matches SearchRequest::Finish(Ok(found)) && (found.contains(path)
            <==> clap::is_candidate(path) && entries.contains(Ok(path)))),
        is_step((Search::Flat { waiting: false }), Listing::Entries(entries), after, request)
            ==> request == SearchRequest::Wait && after == (Search::Flat { waiting: false }),
{
    if is_step((Search::Flat { waiting: true }), Listing::Entries(entries), after, request) {
        let outcome = request->Finish_0;
        clap::law_search_hands_out_what_was_found(entries, seq![], outcome, path);
    }
}

} // verus!
