//! What a scan reports, counts and remembers of each candidate, told by what the validator and the
//! cache say of it.

use vstd::prelude::*;

use super::cache::{known, stale, Cached, Candidate, Known};
use super::judge::{judged, recalled, skipped, Outcome, Tally};
use super::laws::{
    begun, law_scan_covers_all_roots, lemma_lists_add_up, lemma_lists_of_log_and,
    lemma_lists_of_one, plugin_lists, Machine,
};
use super::validator::Validated;
use super::worker::{finishing, started, Root};
use super::{PluginCandidateFingerprint, PluginFormat, ScanEvent};
use crate::clap::ClapPlugin;
use crate::path_map::PathEntry;
use crate::paths::{path_class, path_text};
use crate::text::decimal_text;
use crate::vst3::Vst3Plugin;

verus! {

/// A candidate with plugins of either format is reported with all of them, in their order, counted
/// by their number, and remembered with the same list; nothing else is counted, and of other paths
/// the cache knows what it knew.
pub proof fn law_verdict_is_reported_in_full(
    tally: Tally,
    validator: Option<PluginCandidateFingerprint>,
    path: Seq<u8>,
    fingerprint: PluginCandidateFingerprint,
    clap: Seq<ClapPlugin>,
    vst3: Seq<Vst3Plugin>,
    other: Seq<u8>,
    print: PluginCandidateFingerprint,
)
    requires
        clap.len() > 0,
        vst3.len() > 0,
        path_class(other) != path_class(path),
    ensures
        ({
            let outcome = judged(tally, validator, path, fingerprint, Ok(Validated::Clap(clap)));
            let before = tally.counts;
            let after = outcome.tally.counts;
            &&& outcome.events.len() == 2
            &&& outcome.events[0] == ScanEvent::Log(
                "Validated "@ + decimal_text(clap.len()) + " "@ + "CLAP"@ + " plugin(s) from "@
                    + path_text(path),
            )
            &&& outcome.events[1] == ScanEvent::ClapPlugins(clap)
            &&& after.valid_plugins == before.valid_plugins + clap.len()
            &&& after.invalid_candidates == before.invalid_candidates
            &&& after.candidates == before.candidates
            &&& known(outcome.tally.cache, path, fingerprint) == Some(Known::Clap(clap))
            &&& !stale(outcome.tally.cache, path, fingerprint, validator)
            &&& known(outcome.tally.cache, other, print) == known(tally.cache, other, print)
        }),
        ({
            let outcome = judged(tally, validator, path, fingerprint, Ok(Validated::Vst3(vst3)));
            let before = tally.counts;
            let after = outcome.tally.counts;
            &&& outcome.events.len() == 2
            &&& outcome.events[0] == ScanEvent::Log(
                "Validated "@ + decimal_text(vst3.len()) + " "@ + "VST3"@ + " plugin(s) from "@
                    + path_text(path),
            )
            &&& outcome.events[1] == ScanEvent::Vst3Plugins(vst3)
            &&& after.valid_plugins == before.valid_plugins + vst3.len()
            &&& after.invalid_candidates == before.invalid_candidates
            &&& after.candidates == before.candidates
            &&& known(outcome.tally.cache, path, fingerprint) == Some(Known::Vst3(vst3))
            &&& !stale(outcome.tally.cache, path, fingerprint, validator)
            &&& known(outcome.tally.cache, other, print) == known(tally.cache, other, print)
        }),
{
}

/// What is said of a candidate that validation found no plugins in, and why.
pub open spec fn complaint(verdict: Result<Validated, Seq<char>>, path: Seq<u8>) -> Seq<char> {
    match verdict {
        Ok(Validated::Clap(_)) => "No "@ + "CLAP"@ + " plugins found in "@ + path_text(path),
        Ok(Validated::Vst3(_)) => "No "@ + "VST3"@ + " plugins found in "@ + path_text(path),
        Err(error) => "Invalid plugin "@ + path_text(path) + ": "@ + error,
    }
}

/// A candidate that validation finds no plugins in, and of which the cache knows none either, is
/// counted as invalid, reported by one line, and remembered as holding no plugins.
pub proof fn law_candidate_without_plugins_is_invalid(
    tally: Tally,
    validator: Option<PluginCandidateFingerprint>,
    path: Seq<u8>,
    fingerprint: PluginCandidateFingerprint,
    verdict: Result<Validated, Seq<char>>,
)
    requires
        verdict_list(verdict) is None,
        cached_list(tally.cache, path, fingerprint) is None,
    ensures
        ({
            let outcome = judged(tally, validator, path, fingerprint, verdict);
            let before = tally.counts;
            let after = outcome.tally.counts;
            &&& outcome.events == seq![ScanEvent::Log(complaint(verdict, path))]
            &&& after.valid_plugins == before.valid_plugins
            &&& after.invalid_candidates == before.invalid_candidates + 1
            &&& after.candidates == before.candidates
            &&& known(outcome.tally.cache, path, fingerprint) == Some(Known::Invalid)
            &&& !stale(outcome.tally.cache, path, fingerprint, validator)
        }),
{
}

/// A candidate that validation finds no plugins in, but of which the cache knows some, is reported
/// with these and counted by their number; the line before them says why. The cache stays as it
/// was.
pub proof fn law_cached_plugins_stand_in(
    tally: Tally,
    validator: Option<PluginCandidateFingerprint>,
    path: Seq<u8>,
    fingerprint: PluginCandidateFingerprint,
    verdict: Result<Validated, Seq<char>>,
)
    requires
        verdict_list(verdict) is None,
        cached_list(tally.cache, path, fingerprint) is Some,
    ensures
        ({
            let outcome = judged(tally, validator, path, fingerprint, verdict);
            let list = cached_list(tally.cache, path, fingerprint)->0;
            let before = tally.counts;
            let after = outcome.tally.counts;
            let format = if list is ClapPlugins {
                "CLAP"@
            } else {
                "VST3"@
            };
            let reason = match verdict {
                Ok(Validated::Clap(_)) => "validator returned no "@ + "CLAP"@ + " plugins"@,
                Ok(Validated::Vst3(_)) => "validator returned no "@ + "VST3"@ + " plugins"@,
                Err(error) => "validation failed: "@ + error,
            };
            &&& outcome.events == seq![
                ScanEvent::Log(
                    "Reusing cached "@ + format + " plugin metadata for "@ + path_text(path)
                        + " ("@ + reason + ")"@,
                ),
                list,
            ]
            &&& after.valid_plugins == before.valid_plugins + length(list)
            &&& after.invalid_candidates == before.invalid_candidates
            &&& after.candidates == before.candidates
            &&& outcome.tally.cache == tally.cache
        }),
{
}

/// An unchanged candidate is reported with exactly the plugins that the cache has of it, and
/// without a line; where the cache has none it counts as invalid. The cache stays as it was.
pub proof fn law_unchanged_candidate_is_recalled(
    tally: Tally,
    path: Seq<u8>,
    fingerprint: PluginCandidateFingerprint,
)
    ensures
        ({
            let outcome = recalled(tally, path, fingerprint);
            let before = tally.counts;
            let after = outcome.tally.counts;
            &&& outcome.tally.cache == tally.cache
            &&& after.candidates == before.candidates
            &&& match cached_list(tally.cache, path, fingerprint) {
                Some(list) => {
                    &&& outcome.events == seq![list]
                    &&& after.valid_plugins == before.valid_plugins + length(list)
                    &&& after.invalid_candidates == before.invalid_candidates
                },
                None => {
                    &&& outcome.events.len() == 0
                    &&& after.valid_plugins == before.valid_plugins
                    &&& after.invalid_candidates == before.invalid_candidates + 1
                },
            }
        }),
{
}

/// A candidate that cannot be read is skipped by one line with its path and the error, and counts
/// as invalid. The cache stays as it was.
pub proof fn law_unreadable_candidate_is_skipped(tally: Tally, path: Seq<u8>, error: Seq<char>)
    ensures
        ({
            let outcome = skipped(tally, path, error);
            &&& outcome.events == seq![
                ScanEvent::Log("Plugin scan skipped "@ + path_text(path) + ": "@ + error),
            ]
            &&& outcome.tally.cache == tally.cache
            &&& outcome.tally.counts.candidates == tally.counts.candidates
            &&& outcome.tally.counts.valid_plugins == tally.counts.valid_plugins
            &&& outcome.tally.counts.invalid_candidates == tally.counts.invalid_candidates + 1
        }),
{
}

/// How many plugins an event reports.
pub open spec fn length(event: ScanEvent) -> nat {
    match event {
        ScanEvent::ClapPlugins(plugins) => plugins.len(),
        ScanEvent::Vst3Plugins(plugins) => plugins.len(),
        _ => 0,
    }
}

/// The plugins that a verdict brings, as they are to be reported, if it brings any.
pub open spec fn verdict_list(verdict: Result<Validated, Seq<char>>) -> Option<ScanEvent> {
    match verdict {
        Ok(Validated::Clap(plugins)) if plugins.len() > 0 => Some(ScanEvent::ClapPlugins(plugins)),
        Ok(Validated::Vst3(plugins)) if plugins.len() > 0 => Some(ScanEvent::Vst3Plugins(plugins)),
        _ => None,
    }
}

/// The plugins that a cache has of a valid candidate with this fingerprint, as they are to be
/// reported, if it has any.
pub open spec fn cached_list(
    cache: Map<Seq<u8>, Cached>,
    path: Seq<u8>,
    fingerprint: PluginCandidateFingerprint,
) -> Option<ScanEvent> {
    let entry = cache[path_class(path)].value;
    if cache.contains_key(path_class(path)) && entry.fingerprint == fingerprint && entry.valid {
        if entry.clap_plugins.len() > 0 {
            Some(ScanEvent::ClapPlugins(entry.clap_plugins))
        } else if entry.vst3_plugins.len() > 0 {
            Some(ScanEvent::Vst3Plugins(entry.vst3_plugins))
        } else {
            None
        }
    } else {
        None
    }
}

/// Whether a cache has a candidate with this fingerprint, as this validator found it.
pub open spec fn is_fresh(
    cache: Map<Seq<u8>, Cached>,
    path: Seq<u8>,
    fingerprint: PluginCandidateFingerprint,
    validator: Option<PluginCandidateFingerprint>,
) -> bool {
    &&& cache.contains_key(path_class(path))
    &&& cache[path_class(path)].value.fingerprint == fingerprint
    &&& cache[path_class(path)].value.validator_fingerprint == validator
}

/// A candidate to be decided on, with the format of the root that it is under.
pub type Job = (PluginFormat, Seq<u8>);

/// What is to be reported of a candidate: the plugins that its validator finds, unless it is fresh
/// or there are none, and else those that the cache has.
pub open spec fn offered(machine: Machine, cache: Map<Seq<u8>, Cached>, job: Job) -> Seq<
    ScanEvent,
> {
    match (machine.fingerprint)(job.1) {
        Err(_) => seq![],
        Ok(fingerprint) => {
            let found = verdict_list((machine.verdict)(job.0, job.1));
            if !is_fresh(cache, job.1, fingerprint, machine.validator) && found is Some {
                seq![found->0]
            } else {
                match cached_list(cache, job.1, fingerprint) {
                    Some(list) => seq![list],
                    None => seq![],
                }
            }
        },
    }
}

/// What is to be reported of some candidates, one after the other.
pub open spec fn all_offered(machine: Machine, cache: Map<Seq<u8>, Cached>, jobs: Seq<Job>) -> Seq<
    ScanEvent,
>
    decreases jobs.len(),
{
    if jobs.len() == 0 {
        seq![]
    } else {
        offered(machine, cache, jobs[0]) + all_offered(machine, cache, jobs.skip(1))
    }
}

/// The candidates under one root, if it is enabled and can be listed.
pub open spec fn root_jobs(machine: Machine, root: Root) -> Seq<Job> {
    if root.enabled && (machine.candidates)(root) is Ok {
        (machine.candidates)(root)->Ok_0.map_values(|path: Seq<u8>| (root.format, path))
    } else {
        seq![]
    }
}

/// The candidates under some roots, in order.
pub open spec fn all_jobs(machine: Machine, roots: Seq<Root>) -> Seq<Job>
    decreases roots.len(),
{
    if roots.len() == 0 {
        seq![]
    } else {
        root_jobs(machine, roots[0]) + all_jobs(machine, roots.skip(1))
    }
}

/// Whether no path occurs twice among some candidates, not even in two spellings.
pub open spec fn are_distinct(jobs: Seq<Job>) -> bool {
    forall|i: int, j: int|
        0 <= i < j < jobs.len() ==> path_class((#[trigger] jobs[i]).1) != path_class(
            (#[trigger] jobs[j]).1,
        )
}

/// Whether a cache has what the validator found in a candidate that had to be validated.
pub open spec fn is_remembered(
    machine: Machine,
    before: Map<Seq<u8>, Cached>,
    after: Map<Seq<u8>, Cached>,
    job: Job,
) -> bool {
    (machine.fingerprint)(job.1) matches Ok(fingerprint) ==> {
        let found = verdict_list((machine.verdict)(job.0, job.1));
        !is_fresh(before, job.1, fingerprint, machine.validator) && found is Some ==> {
            &&& cached_list(after, job.1, fingerprint) == found
            &&& is_fresh(after, job.1, fingerprint, machine.validator)
        }
    }
}

/// Whether two caches have the same of a path.
spec fn same_at(a: Map<Seq<u8>, Cached>, b: Map<Seq<u8>, Cached>, path: Seq<u8>) -> bool {
    let key = path_class(path);
    a.contains_key(key) == b.contains_key(key) && a[key] == b[key]
}

/// Each candidate is reported with what is offered of it, is counted as invalid exactly if nothing
/// is, and leaves what the cache has of other paths as it was.
pub proof fn law_candidate_gets_what_is_offered(machine: Machine, tally: Tally, job: Job)
    ensures
        ({
            let outcome = machine.candidate(tally, job.0, job.1);
            let list = offered(machine, tally.cache, job);
            &&& plugin_lists(outcome.events) == list
            &&& outcome.tally.counts.candidates == tally.counts.candidates
            &&& list.len() == 0 ==> outcome.tally.counts.invalid_candidates
                == tally.counts.invalid_candidates + 1 && outcome.tally.counts.valid_plugins
                == tally.counts.valid_plugins
            &&& list.len() > 0 ==> list.len() == 1 && outcome.tally.counts.valid_plugins
                == tally.counts.valid_plugins + length(list[0])
                && outcome.tally.counts.invalid_candidates == tally.counts.invalid_candidates
            &&& is_remembered(machine, tally.cache, outcome.tally.cache, job)
            &&& forall|other: Seq<u8>|
                #![trigger path_class(other)]
                path_class(other) != path_class(job.1) ==> {
                    let key = path_class(other);
                    &&& outcome.tally.cache.contains_key(key) == tally.cache.contains_key(key)
                    &&& outcome.tally.cache[key] == tally.cache[key]
                }
        }),
{
    let outcome = machine.candidate(tally, job.0, job.1);
    let list = offered(machine, tally.cache, job);
    lemma_lists_of_one(ScanEvent::Log(seq![]));
    if outcome.events.len() == 1 {
        lemma_lists_of_one(outcome.events[0]);
        assert(outcome.events =~= seq![outcome.events[0]]);
    } else if outcome.events.len() == 2 {
        let line = outcome.events[0]->Log_0;
        lemma_lists_of_log_and(line, outcome.events[1]);
        assert(outcome.events =~= seq![ScanEvent::Log(line), outcome.events[1]]);
    } else {
        assert(outcome.events =~= seq![]);
    }
    assert(plugin_lists(outcome.events) =~= list);
}

/// What holds of a cache after the first candidates were decided on.
spec fn stands(
    machine: Machine,
    before: Map<Seq<u8>, Cached>,
    now: Map<Seq<u8>, Cached>,
    jobs: Seq<Job>,
    at: int,
) -> bool {
    &&& forall|i: int|
        0 <= i < at ==> is_remembered(machine, before, now, #[trigger] jobs[i])
    &&& forall|i: int| at <= i < jobs.len() ==> same_at(before, now, (#[trigger] jobs[i]).1)
}

proof fn lemma_stands_on(
    machine: Machine,
    before: Map<Seq<u8>, Cached>,
    tally: Tally,
    jobs: Seq<Job>,
    at: int,
)
    requires
        0 <= at < jobs.len(),
        are_distinct(jobs),
        stands(machine, before, tally.cache, jobs, at),
    ensures
        ({
            let next = machine.candidate(tally, jobs[at].0, jobs[at].1);
            &&& stands(machine, before, next.tally.cache, jobs, at + 1)
            &&& plugin_lists(next.events) == offered(machine, before, jobs[at])
            &&& next.tally.counts.candidates == tally.counts.candidates
        }),
{
    let job = jobs[at];
    let next = machine.candidate(tally, job.0, job.1);
    law_candidate_gets_what_is_offered(machine, tally, job);
    assert(same_at(before, tally.cache, job.1));
    assert forall|i: int| 0 <= i < at + 1 implies is_remembered(
        machine,
        before,
        next.tally.cache,
        #[trigger] jobs[i],
    ) by {
        if i < at {
            assert(path_class(jobs[i].1) != path_class(jobs[at].1));
            assert(is_remembered(machine, before, tally.cache, jobs[i]));
        }
    }
    assert forall|i: int| at + 1 <= i < jobs.len() implies same_at(
        before,
        next.tally.cache,
        (#[trigger] jobs[i]).1,
    ) by {
        assert(path_class(jobs[at].1) != path_class(jobs[i].1));
        assert(same_at(before, tally.cache, jobs[i].1));
    }
}

proof fn lemma_offered_on(
    machine: Machine,
    cache: Map<Seq<u8>, Cached>,
    a: Seq<Job>,
    b: Seq<Job>,
)
    ensures
        all_offered(machine, cache, a + b) == all_offered(machine, cache, a) + all_offered(
            machine,
            cache,
            b,
        ),
    decreases a.len(),
{
    if a.len() == 0 {
        assert(a + b =~= b);
        assert(Seq::<ScanEvent>::empty() + all_offered(machine, cache, b) =~= all_offered(
            machine,
            cache,
            b,
        ));
    } else {
        lemma_offered_on(machine, cache, a.skip(1), b);
        assert((a + b).skip(1) =~= a.skip(1) + b);
        assert(offered(machine, cache, a[0]) + (all_offered(machine, cache, a.skip(1))
            + all_offered(machine, cache, b)) =~= (offered(machine, cache, a[0]) + all_offered(
            machine,
            cache,
            a.skip(1),
        )) + all_offered(machine, cache, b));
    }
}

proof fn lemma_candidates_reported(
    machine: Machine,
    before: Map<Seq<u8>, Cached>,
    jobs: Seq<Job>,
    at: int,
    so_far: Outcome,
    format: PluginFormat,
    paths: Seq<Seq<u8>>,
)
    requires
        are_distinct(jobs),
        0 <= at,
        at + paths.len() <= jobs.len(),
        forall|i: int| 0 <= i < paths.len() ==> jobs[at + i] == (format, #[trigger] paths[i]),
        stands(machine, before, so_far.tally.cache, jobs, at),
    ensures
        ({
            let end = machine.all_candidates(so_far, format, paths);
            &&& stands(machine, before, end.tally.cache, jobs, at + paths.len() as int)
            &&& plugin_lists(end.events) == plugin_lists(so_far.events) + all_offered(
                machine,
                before,
                jobs.subrange(at, at + paths.len() as int),
            )
            &&& end.tally.counts.candidates == so_far.tally.counts.candidates
        }),
    decreases paths.len(),
{
    let here = jobs.subrange(at, at + paths.len() as int);
    if paths.len() == 0 {
        assert(here =~= seq![]);
        assert(plugin_lists(so_far.events) + Seq::<ScanEvent>::empty() =~= plugin_lists(
            so_far.events,
        ));
    } else {
        let next = machine.candidate(so_far.tally, format, paths[0]);
        assert(jobs[at + 0] == (format, paths[0]));
        lemma_stands_on(machine, before, so_far.tally, jobs, at);
        lemma_lists_add_up(so_far.events, next.events);
        let then = Outcome { tally: next.tally, events: so_far.events + next.events };
        assert forall|i: int| 0 <= i < paths.skip(1).len() implies jobs[at + 1 + i] == (
            format,
            #[trigger] paths.skip(1)[i],
        ) by {
            assert(jobs[at + (i + 1)] == (format, paths[i + 1]));
        }
        lemma_candidates_reported(machine, before, jobs, at + 1, then, format, paths.skip(1));
        assert(here[0] == jobs[at]);
        assert(here.skip(1) =~= jobs.subrange(at + 1, at + 1 + paths.skip(1).len() as int));
        assert(plugin_lists(so_far.events) + offered(machine, before, here[0]) + all_offered(
            machine,
            before,
            here.skip(1),
        ) =~= plugin_lists(so_far.events) + (offered(machine, before, here[0]) + all_offered(
            machine,
            before,
            here.skip(1),
        )));
    }
}

proof fn lemma_roots_reported(
    machine: Machine,
    before: Map<Seq<u8>, Cached>,
    jobs: Seq<Job>,
    at: int,
    so_far: Outcome,
    roots: Seq<Root>,
)
    requires
        are_distinct(jobs),
        0 <= at <= jobs.len(),
        jobs.skip(at) == all_jobs(machine, roots),
        stands(machine, before, so_far.tally.cache, jobs, at),
    ensures
        ({
            let end = machine.all_roots(so_far, roots);
            &&& stands(machine, before, end.tally.cache, jobs, jobs.len() as int)
            &&& plugin_lists(end.events) == plugin_lists(so_far.events) + all_offered(
                machine,
                before,
                jobs.skip(at),
            )
            &&& end.tally.counts.candidates == so_far.tally.counts.candidates + jobs.len() - at
        }),
    decreases roots.len(),
{
    if roots.len() == 0 {
        assert(jobs.skip(at).len() == 0);
        assert(plugin_lists(so_far.events) + Seq::<ScanEvent>::empty() =~= plugin_lists(
            so_far.events,
        ));
    } else {
        let root = roots[0];
        let here = root_jobs(machine, root);
        let later = all_jobs(machine, roots.skip(1));
        let n = here.len() as int;
        assert(jobs.skip(at) == here + later);
        assert(jobs.skip(at + n) =~= later) by {
            assert(jobs.skip(at).skip(n) =~= jobs.skip(at + n));
            assert((here + later).skip(n) =~= later);
        }
        assert(jobs.subrange(at, at + n) =~= here) by {
            assert(jobs.skip(at).take(n) =~= jobs.subrange(at, at + n));
            assert((here + later).take(n) =~= here);
        }
        lemma_offered_on(machine, before, here, later);
        let next = if root.enabled {
            machine.root(so_far, root)
        } else {
            so_far
        };
        if root.enabled {
            match (machine.candidates)(root) {
                Err(error) => {
                    let line = next.events.last();
                    assert(next.events.drop_last() =~= so_far.events);
                    assert(here.len() == 0);
                    assert(plugin_lists(next.events) == plugin_lists(so_far.events));
                },
                Ok(found) => {
                    let counted = Outcome {
                        tally: Tally {
                            counts: so_far.tally.counts.more_candidates(found.len()),
                            ..so_far.tally
                        },
                        ..so_far
                    };
                    assert forall|i: int| 0 <= i < found.len() implies jobs[at + i] == (
                        root.format,
                        #[trigger] found[i],
                    ) by {
                        assert(jobs.subrange(at, at + n)[i] == here[i]);
                    }
                    lemma_candidates_reported(
                        machine,
                        before,
                        jobs,
                        at,
                        counted,
                        root.format,
                        found,
                    );
                },
            }
        }
        assert(here.len() == 0 ==> all_offered(machine, before, here) =~= seq![]);
        lemma_roots_reported(machine, before, jobs, at + n, next, roots.skip(1));
        assert(plugin_lists(so_far.events) + all_offered(machine, before, here) + all_offered(
            machine,
            before,
            later,
        ) =~= plugin_lists(so_far.events) + (all_offered(machine, before, here) + all_offered(
            machine,
            before,
            later,
        )));
        assert(here.len() == 0 ==> plugin_lists(so_far.events) + all_offered(machine, before, here)
            =~= plugin_lists(so_far.events));
    }
}

/// A scan of distinct candidates reports, candidate by candidate through all enabled roots in
/// order, exactly the plugins that the validator finds in it or, where it need not be asked or
/// finds none, those that the cache has: no list is shortened, lost, doubled or moved. It counts
/// every candidate once, and the cache that it ends with has every list that the validator found.
pub proof fn law_scan_reports_every_plugin(
    machine: Machine,
    roots: Seq<Root>,
    cache: Map<Seq<u8>, Cached>,
)
    requires
        are_distinct(all_jobs(machine, roots)),
    ensures
        exists|answers: nat|
            ({
                let end = #[trigger] machine.run(started(roots, cache), answers);
                let jobs = all_jobs(machine, roots);
                &&& end.request is Finish
                &&& plugin_lists(end.events) == all_offered(machine, cache, jobs)
                &&& end.events.last() matches ScanEvent::Finished { counts, cache: kept } && {
                    &&& counts.candidates == jobs.len()
                    &&& forall|i: int|
                        0 <= i < jobs.len() ==> is_remembered(
                            machine,
                            cache,
                            kept,
                            #[trigger] jobs[i],
                        )
                }
            }),
{
    law_scan_covers_all_roots(machine, roots, cache);
    let jobs = all_jobs(machine, roots);
    let outcome = machine.all_roots(begun(cache), roots);
    let answers = choose|answers: nat|
        ({
            let end = #[trigger] machine.run(started(roots, cache), answers);
            &&& end.request is Finish
            &&& end.events == outcome.events + finishing(outcome.tally)
        });
    let end = machine.run(started(roots, cache), answers);
    assert(jobs.skip(0) =~= jobs);
    lemma_roots_reported(machine, cache, jobs, 0, begun(cache), roots);
    let last = finishing(outcome.tally);
    lemma_lists_add_up(outcome.events, last);
    lemma_lists_add_up(seq![last[0]], seq![last[1]]);
    lemma_lists_of_one(last[0]);
    lemma_lists_of_one(last[1]);
    assert(seq![last[0]] + seq![last[1]] =~= last);
    lemma_lists_of_one(begun(cache).events[0]);
    assert(begun(cache).events =~= seq![begun(cache).events[0]]);
    assert(plugin_lists(end.events) =~= all_offered(machine, cache, jobs));
    assert(end.events.last() == last[1]);
}

/// The plugins that events report, in order, as the validator or the cache gave them: what is
/// reported first comes first, and lines between them do not matter.
pub proof fn law_plugin_lists_keep_their_order(
    a: Seq<ScanEvent>,
    b: Seq<ScanEvent>,
    event: ScanEvent,
)
    ensures
        plugin_lists(a + b) == plugin_lists(a) + plugin_lists(b),
        event is ClapPlugins || event is Vst3Plugins ==> plugin_lists(seq![event]) == seq![event],
        event is Log || event is Finished ==> plugin_lists(seq![event]).len() == 0,
{
    lemma_lists_add_up(a, b);
    lemma_lists_of_one(event);
}

/// A scan begins with the line on its one validator process and asks for its fingerprint, and it
/// ends with the line that tells its three counts, each by its name, and the event that carries
/// them with the cache.
pub proof fn law_scan_tells_its_counts(tally: Tally, roots: Seq<Root>, cache: Map<Seq<u8>, Cached>)
    ensures
        finishing(tally) == seq![
            ScanEvent::Log(
                "Plugin scan finished: "@ + decimal_text(tally.counts.candidates)
                    + " candidate(s), "@ + decimal_text(tally.counts.valid_plugins)
                    + " plugin(s), "@ + decimal_text(tally.counts.invalid_candidates)
                    + " invalid"@,
            ),
            ScanEvent::Finished { counts: tally.counts, cache: tally.cache },
        ],
        started(roots, cache).events == seq![
            ScanEvent::Log("Scanning plugins with "@ + decimal_text(1) + " validator process"@),
        ],
        started(roots, cache).request is FingerprintValidator,
        started(roots, cache).scan.roots == roots,
        started(roots, cache).scan.tally.cache == cache,
        started(roots, cache).scan.tally.counts.candidates == 0,
        started(roots, cache).scan.tally.counts.valid_plugins == 0,
        started(roots, cache).scan.tally.counts.invalid_candidates == 0,
{
}

/// A cache with a new entry for a candidate, under the spelling that its path was first stored
/// under.
pub open spec fn with_candidate(
    cache: Map<Seq<u8>, Cached>,
    path: Seq<u8>,
    candidate: Candidate,
) -> Map<Seq<u8>, Cached> {
    let key = path_class(path);
    let spelling = if cache.contains_key(key) {
        cache[key].path
    } else {
        path
    };
    cache.insert(key, PathEntry { path: spelling, value: candidate })
}

/// The cache after a candidate was decided on: where the validator was asked, with what it found,
/// or with the fact that there is nothing, unless the cache has plugins to stand in.
pub open spec fn remembering(machine: Machine, cache: Map<Seq<u8>, Cached>, job: Job) -> Map<
    Seq<u8>,
    Cached,
> {
    match (machine.fingerprint)(job.1) {
        Err(_) => cache,
        Ok(fingerprint) => {
            let validator_fingerprint = machine.validator;
            let found = verdict_list((machine.verdict)(job.0, job.1));
            let asked = !is_fresh(cache, job.1, fingerprint, machine.validator);
            let nothing: Seq<ClapPlugin> = seq![];
            let none: Seq<Vst3Plugin> = seq![];
            if asked && found is Some {
                let (clap_plugins, vst3_plugins) = match found->0 {
                    ScanEvent::ClapPlugins(plugins) => (plugins, none),
                    ScanEvent::Vst3Plugins(plugins) => (nothing, plugins),
                    _ => (nothing, none),
                };
                with_candidate(
                    cache,
                    job.1,
                    Candidate {
                        fingerprint,
                        validator_fingerprint,
                        valid: true,
                        clap_plugins,
                        vst3_plugins,
                    },
                )
            } else if asked && cached_list(cache, job.1, fingerprint) is None {
                with_candidate(
                    cache,
                    job.1,
                    Candidate {
                        fingerprint,
                        validator_fingerprint,
                        valid: false,
                        clap_plugins: nothing,
                        vst3_plugins: none,
                    },
                )
            } else {
                cache
            }
        },
    }
}

/// The cache after some candidates were decided on, one after the other.
pub open spec fn all_remembering(
    machine: Machine,
    cache: Map<Seq<u8>, Cached>,
    jobs: Seq<Job>,
) -> Map<Seq<u8>, Cached>
    decreases jobs.len(),
{
    if jobs.len() == 0 {
        cache
    } else {
        all_remembering(machine, remembering(machine, cache, jobs[0]), jobs.skip(1))
    }
}

/// What is to be reported of some candidates, one after the other, each by the cache as the
/// earlier ones left it.
pub open spec fn offered_in_turn(
    machine: Machine,
    cache: Map<Seq<u8>, Cached>,
    jobs: Seq<Job>,
) -> Seq<ScanEvent>
    decreases jobs.len(),
{
    if jobs.len() == 0 {
        seq![]
    } else {
        offered(machine, cache, jobs[0]) + offered_in_turn(
            machine,
            remembering(machine, cache, jobs[0]),
            jobs.skip(1),
        )
    }
}

proof fn lemma_turns_on(machine: Machine, cache: Map<Seq<u8>, Cached>, a: Seq<Job>, b: Seq<Job>)
    ensures
        all_remembering(machine, cache, a + b) == all_remembering(
            machine,
            all_remembering(machine, cache, a),
            b,
        ),
        offered_in_turn(machine, cache, a + b) == offered_in_turn(machine, cache, a)
            + offered_in_turn(machine, all_remembering(machine, cache, a), b),
    decreases a.len(),
{
    if a.len() == 0 {
        assert(a + b =~= b);
        let rest = offered_in_turn(machine, cache, b);
        assert(Seq::<ScanEvent>::empty() + rest =~= rest);
    } else {
        let next = remembering(machine, cache, a[0]);
        lemma_turns_on(machine, next, a.skip(1), b);
        assert((a + b).skip(1) =~= a.skip(1) + b);
        let first = offered(machine, cache, a[0]);
        let here = offered_in_turn(machine, next, a.skip(1));
        let there = offered_in_turn(machine, all_remembering(machine, cache, a), b);
        assert(first + (here + there) =~= (first + here) + there);
    }
}

proof fn lemma_candidates_in_turn(
    machine: Machine,
    so_far: Outcome,
    format: PluginFormat,
    paths: Seq<Seq<u8>>,
)
    ensures
        ({
            let end = machine.all_candidates(so_far, format, paths);
            let jobs = paths.map_values(|path: Seq<u8>| (format, path));
            &&& end.tally.cache == all_remembering(machine, so_far.tally.cache, jobs)
            &&& plugin_lists(end.events) == plugin_lists(so_far.events) + offered_in_turn(
                machine,
                so_far.tally.cache,
                jobs,
            )
            &&& end.tally.counts.candidates == so_far.tally.counts.candidates
        }),
    decreases paths.len(),
{
    let jobs = paths.map_values(|path: Seq<u8>| (format, path));
    let before = plugin_lists(so_far.events);
    if paths.len() == 0 {
        assert(before + Seq::<ScanEvent>::empty() =~= before);
    } else {
        let job = (format, paths[0]);
        let next = machine.candidate(so_far.tally, format, paths[0]);
        law_candidate_gets_what_is_offered(machine, so_far.tally, job);
        assert(next.tally.cache =~= remembering(machine, so_far.tally.cache, job));
        lemma_lists_add_up(so_far.events, next.events);
        let then = Outcome { tally: next.tally, events: so_far.events + next.events };
        lemma_candidates_in_turn(machine, then, format, paths.skip(1));
        assert(jobs[0] == job);
        assert(jobs.skip(1) =~= paths.skip(1).map_values(|path: Seq<u8>| (format, path)));
        let first = offered(machine, so_far.tally.cache, job);
        let rest = offered_in_turn(machine, next.tally.cache, jobs.skip(1));
        assert((before + first) + rest =~= before + (first + rest));
    }
}

proof fn lemma_roots_in_turn(machine: Machine, so_far: Outcome, roots: Seq<Root>)
    ensures
        ({
            let end = machine.all_roots(so_far, roots);
            let jobs = all_jobs(machine, roots);
            &&& end.tally.cache == all_remembering(machine, so_far.tally.cache, jobs)
            &&& plugin_lists(end.events) == plugin_lists(so_far.events) + offered_in_turn(
                machine,
                so_far.tally.cache,
                jobs,
            )
            &&& end.tally.counts.candidates == so_far.tally.counts.candidates + jobs.len()
        }),
    decreases roots.len(),
{
    let before = plugin_lists(so_far.events);
    if roots.len() == 0 {
        assert(before + Seq::<ScanEvent>::empty() =~= before);
    } else {
        let root = roots[0];
        let here = root_jobs(machine, root);
        let later = all_jobs(machine, roots.skip(1));
        let next = if root.enabled {
            machine.root(so_far, root)
        } else {
            so_far
        };
        if root.enabled && (machine.candidates)(root) is Ok {
            let found = (machine.candidates)(root)->Ok_0;
            let counted = Outcome {
                tally: Tally {
                    counts: so_far.tally.counts.more_candidates(found.len()),
                    ..so_far.tally
                },
                ..so_far
            };
            lemma_candidates_in_turn(machine, counted, root.format, found);
            assert(here =~= found.map_values(|path: Seq<u8>| (root.format, path)));
        } else {
            assert(here.len() == 0);
            assert(before + Seq::<ScanEvent>::empty() =~= before);
            if root.enabled {
                assert(next.events.drop_last() =~= so_far.events);
            }
        }
        lemma_turns_on(machine, so_far.tally.cache, here, later);
        lemma_roots_in_turn(machine, next, roots.skip(1));
        let first = offered_in_turn(machine, so_far.tally.cache, here);
        let rest = offered_in_turn(machine, next.tally.cache, later);
        assert((before + first) + rest =~= before + (first + rest));
    }
}

/// Whatever the candidates are, even if one of them is met again under another root or in another
/// spelling, a scan decides on each by the cache as the earlier ones left it: it reports exactly
/// what is offered of them in turn, counts each of them, and ends with the cache that they leave.
pub proof fn law_scan_decides_in_turn(
    machine: Machine,
    roots: Seq<Root>,
    cache: Map<Seq<u8>, Cached>,
)
    ensures
        exists|answers: nat|
            ({
                let end = #[trigger] machine.run(started(roots, cache), answers);
                let jobs = all_jobs(machine, roots);
                &&& end.request is Finish
                &&& plugin_lists(end.events) == offered_in_turn(machine, cache, jobs)
                &&& end.events.last() matches ScanEvent::Finished { counts, cache: kept } && {
                    &&& counts.candidates == jobs.len()
                    &&& kept == all_remembering(machine, cache, jobs)
                }
            }),
{
    law_scan_covers_all_roots(machine, roots, cache);
    let jobs = all_jobs(machine, roots);
    let outcome = machine.all_roots(begun(cache), roots);
    let answers = choose|answers: nat|
        ({
            let end = #[trigger] machine.run(started(roots, cache), answers);
            &&& end.request is Finish
            &&& end.events == outcome.events + finishing(outcome.tally)
        });
    let end = machine.run(started(roots, cache), answers);
    lemma_roots_in_turn(machine, begun(cache), roots);
    let last = finishing(outcome.tally);
    lemma_lists_add_up(outcome.events, last);
    lemma_lists_add_up(seq![last[0]], seq![last[1]]);
    lemma_lists_of_one(last[0]);
    lemma_lists_of_one(last[1]);
    assert(seq![last[0]] + seq![last[1]] =~= last);
    lemma_lists_of_one(begun(cache).events[0]);
    assert(begun(cache).events =~= seq![begun(cache).events[0]]);
    assert(plugin_lists(end.events) =~= offered_in_turn(machine, cache, jobs));
    assert(end.events.last() == last[1]);
}

} // verus!
