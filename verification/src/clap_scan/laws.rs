//! What holds of every scan, whatever answers it gets.

use vstd::prelude::*;

use super::cache::{known, stale, Cached};
use super::worker::{
    finishing, judged, recalled, skipped, started, Outcome, Reply, Scan, ScanRequest, ScanStage,
    Tally, Turn,
};
use super::{PluginCandidateFingerprint, ScanEvent};
use crate::clap::ClapPlugin;
use crate::paths::path_class;
use crate::scan::judge::skipped_text;
use crate::scan::worker::{finished_text, started_text, Root};
use crate::scan::{Counts, PluginFormat};

verus! {

/// A scan after some answers, with all events that it has sent.
pub open spec fn played(turn: Turn, replies: Seq<Reply>) -> Turn
    decreases replies.len(),
{
    if replies.len() == 0 {
        turn
    } else {
        let before = played(turn, replies.drop_last());
        let after = before.scan.after(replies.last());
        Turn { events: before.events + after.events, ..after }
    }
}

/// How many candidates a list of events reports plugins of.
pub open spec fn plugin_events(events: Seq<ScanEvent>) -> nat
    decreases events.len(),
{
    if events.len() == 0 {
        0
    } else {
        plugin_events(events.drop_last()) + if events.last() is ClapPlugins {
            1nat
        } else {
            0
        }
    }
}

/// How many plugins a list of events reports.
pub open spec fn plugins_in(events: Seq<ScanEvent>) -> nat
    decreases events.len(),
{
    if events.len() == 0 {
        0
    } else {
        plugins_in(events.drop_last()) + match events.last() {
            ScanEvent::ClapPlugins(plugins) => plugins.len(),
            _ => 0nat,
        }
    }
}

/// How many candidates were found and not decided on.
pub open spec fn undecided(scan: Scan) -> nat {
    match scan.stage {
        ScanStage::Candidate { pending, .. } => pending.len(),
        ScanStage::Verdict { pending, .. } => pending.len(),
        _ => 0,
    }
}

proof fn lemma_counts_add_up(a: Seq<ScanEvent>, b: Seq<ScanEvent>)
    ensures
        plugin_events(a + b) == plugin_events(a) + plugin_events(b),
        plugins_in(a + b) == plugins_in(a) + plugins_in(b),
    decreases b.len(),
{
    if b.len() == 0 {
        assert(a + b =~= a);
    } else {
        lemma_counts_add_up(a, b.drop_last());
        assert((a + b).drop_last() =~= a + b.drop_last());
    }
}

proof fn lemma_count_one(event: ScanEvent)
    ensures
        plugin_events(seq![event]) == if event is ClapPlugins {
            1nat
        } else {
            0
        },
        plugins_in(seq![event]) == match event {
            ScanEvent::ClapPlugins(plugins) => plugins.len(),
            _ => 0nat,
        },
        plugin_events(seq![]) == 0,
        plugins_in(seq![]) == 0,
{
    reveal_with_fuel(plugin_events, 2);
    reveal_with_fuel(plugins_in, 2);
    assert(seq![event].drop_last() =~= Seq::<ScanEvent>::empty());
}

proof fn lemma_count_two(a: ScanEvent, b: ScanEvent)
    ensures
        plugin_events(seq![a, b]) == plugin_events(seq![a]) + plugin_events(seq![b]),
        plugins_in(seq![a, b]) == plugins_in(seq![a]) + plugins_in(seq![b]),
{
    lemma_counts_add_up(seq![a], seq![b]);
    assert(seq![a] + seq![b] =~= seq![a, b]);
}

proof fn lemma_to_root(scan: Scan, events: Seq<ScanEvent>)
    ensures
        ({
            let turn = scan.to_root(events);
            &&& turn.scan.tally.counts == scan.tally.counts
            &&& undecided(turn.scan) == 0
            &&& turn.scan.is_sound()
            &&& plugin_events(turn.events) == plugin_events(events)
            &&& plugins_in(turn.events) == plugins_in(events)
            &&& !(turn.request is Validate)
            &&& turn.request matches ScanRequest::FindCandidates(root) ==> root.enabled
        }),
    decreases scan.roots.len(),
{
    if scan.roots.len() == 0 {
        let line = ScanEvent::Log(finished_text(scan.tally.counts));
        let end = ScanEvent::Finished { counts: scan.tally.counts, cache: scan.tally.cache };
        lemma_counts_add_up(events, finishing(scan.tally));
        lemma_count_two(line, end);
        lemma_count_one(line);
        lemma_count_one(end);
    } else if !scan.roots[0].enabled {
        lemma_to_root(Scan { roots: scan.roots.skip(1), ..scan }, events);
    }
}

/// A candidate that was decided on is counted as invalid, or reported with its plugins, or
/// neither, but never both.
spec fn is_decision(tally: Tally, outcome: Outcome) -> bool {
    &&& outcome.tally.counts.candidates == tally.counts.candidates
    &&& outcome.tally.counts.invalid_candidates + plugin_events(outcome.events)
        <= tally.counts.invalid_candidates + 1
    &&& outcome.tally.counts.invalid_candidates >= tally.counts.invalid_candidates
    &&& outcome.tally.counts.valid_plugins == tally.counts.valid_plugins + plugins_in(
        outcome.events,
    )
}

proof fn lemma_decisions(
    tally: Tally,
    path: Seq<u8>,
    fingerprint: PluginCandidateFingerprint,
    error: Seq<char>,
    verdict: Result<Seq<ClapPlugin>, Seq<char>>,
)
    ensures
        is_decision(tally, skipped(tally, path, error)),
        is_decision(tally, recalled(tally, path, fingerprint)),
        is_decision(tally, judged(tally, path, fingerprint, verdict)),
{
    lemma_count_one(ScanEvent::Log(skipped_text(path, error)));
    match known(tally.cache, path, fingerprint) {
        Some(plugins) => {
            lemma_count_one(ScanEvent::ClapPlugins(plugins));
        },
        None => {},
    }
    let outcome = judged(tally, path, fingerprint, verdict);
    lemma_count_one(outcome.events[0]);
    if outcome.events.len() == 1 {
        assert(outcome.events =~= seq![outcome.events[0]]);
    } else {
        assert(outcome.events =~= seq![outcome.events[0], outcome.events[1]]);
        lemma_count_two(outcome.events[0], outcome.events[1]);
        lemma_count_one(outcome.events[1]);
    }
}

/// Whether a turn that follows a scan by one answer leaves the books in order, and searches no
/// disabled root.
spec fn is_orderly(scan: Scan, turn: Turn) -> bool {
    let before = scan.tally.counts;
    let after = turn.scan.tally.counts;
    &&& after.invalid_candidates + plugin_events(turn.events) + undecided(turn.scan)
        + before.candidates <= after.candidates + before.invalid_candidates + undecided(scan)
    &&& after.valid_plugins == before.valid_plugins + plugins_in(turn.events)
    &&& turn.scan.is_sound()
    &&& turn.request matches ScanRequest::FindCandidates(root) ==> root.enabled
}

proof fn lemma_after(scan: Scan, reply: Reply)
    requires
        scan.is_sound(),
    ensures
        is_orderly(scan, scan.after(reply)),
{
    let turn = scan.after(reply);
    lemma_count_one(turn.events[0]);
    match (scan.stage, reply) {
        (ScanStage::Root { path, .. }, Reply::Candidates(Err(error))) => {
            let line = ScanEvent::Log(skipped_text(path, error));
            lemma_count_one(line);
            lemma_to_root(scan, seq![line]);
        },
        (ScanStage::Root { .. }, Reply::Candidates(Ok(found))) => {
            let tally = Tally {
                counts: scan.tally.counts.more_candidates(found.len()),
                ..scan.tally
            };
            lemma_to_root(Scan { tally, ..scan }, seq![]);
        },
        (ScanStage::Candidate { pending, .. }, Reply::Fingerprint(Err(error))) => {
            let outcome = skipped(scan.tally, pending[0], error);
            lemma_decisions(scan.tally, pending[0], arbitrary(), error, Err(error));
            lemma_to_root(Scan { tally: outcome.tally, ..scan }, outcome.events);
        },
        (ScanStage::Candidate { pending, .. }, Reply::Fingerprint(Ok(fingerprint))) => {
            let outcome = recalled(scan.tally, pending[0], fingerprint);
            lemma_decisions(scan.tally, pending[0], fingerprint, seq![], Err(seq![]));
            lemma_to_root(Scan { tally: outcome.tally, ..scan }, outcome.events);
        },
        (ScanStage::Verdict { pending, fingerprint, .. }, Reply::Verdict(verdict)) => {
            let outcome = judged(scan.tally, pending[0], fingerprint, verdict);
            lemma_decisions(scan.tally, pending[0], fingerprint, seq![], verdict);
            lemma_to_root(Scan { tally: outcome.tally, ..scan }, outcome.events);
        },
        _ => {},
    }
}

/// At any point of a scan, no candidate is counted as invalid, reported with its plugins, or not
/// decided on, more than once, and as many plugins are counted as were reported.
pub proof fn law_scan_balances(
    roots: Seq<Root>,
    cache: Map<Seq<u8>, Cached>,
    replies: Seq<Reply>,
)
    ensures
        ({
            let turn = played(started(roots, cache), replies);
            let counts = turn.scan.tally.counts;
            &&& counts.invalid_candidates + plugin_events(turn.events) + undecided(turn.scan)
                <= counts.candidates
            &&& counts.valid_plugins == plugins_in(turn.events)
            &&& turn.scan.is_sound()
        }),
    decreases replies.len(),
{
    if replies.len() == 0 {
        let line = ScanEvent::Log(started_text());
        lemma_count_one(line);
        lemma_to_root(
            Scan {
                roots,
                tally: Tally {
                    cache,
                    counts: Counts { candidates: 0, valid_plugins: 0, invalid_candidates: 0 },
                },
                stage: ScanStage::Finished,
            },
            seq![line],
        );
    } else {
        let before = played(started(roots, cache), replies.drop_last());
        law_scan_balances(roots, cache, replies.drop_last());
        lemma_after(before.scan, replies.last());
        lemma_counts_add_up(before.events, before.scan.after(replies.last()).events);
    }
}

/// A disabled root is never searched.
pub proof fn law_disabled_roots_are_not_searched(scan: Scan, reply: Reply)
    requires
        scan.is_sound(),
    ensures
        scan.after(reply).request matches ScanRequest::FindCandidates(root) ==> root.enabled,
{
    lemma_after(scan, reply);
}

/// A candidate is validated exactly when it is stale: one that has not changed is recalled from
/// the cache, and the scan goes on.
pub proof fn law_only_stale_candidates_are_validated(
    scan: Scan,
    fingerprint: PluginCandidateFingerprint,
)
    requires
        scan.stage is Candidate,
    ensures
        ({
            let turn = scan.after(Reply::Fingerprint(Ok(fingerprint)));
            let pending = scan.stage->Candidate_pending;
            &&& turn.request is Validate <==> stale(scan.tally.cache, pending[0], fingerprint)
            &&& turn.request matches ScanRequest::Validate { format, path } ==> format
                == scan.stage->Candidate_format && path == pending[0]
        }),
{
    let pending = scan.stage->Candidate_pending;
    let outcome = recalled(scan.tally, pending[0], fingerprint);
    lemma_to_root(Scan { tally: outcome.tally, ..scan }, outcome.events);
}

/// What a verdict leaves in the cache is not stale, so that the next scan does not validate the
/// candidate again, and it is known with the plugins that the verdict brought.
pub proof fn law_verdict_is_remembered(
    tally: Tally,
    path: Seq<u8>,
    fingerprint: PluginCandidateFingerprint,
    verdict: Result<Seq<ClapPlugin>, Seq<char>>,
)
    ensures
        ({
            let after = judged(tally, path, fingerprint, verdict).tally.cache;
            &&& !stale(after, path, fingerprint)
            &&& known(after, path, fingerprint) == match verdict {
                Ok(plugins) => Some(plugins),
                Err(_) => None,
            }
        }),
{
}

/// Whether these are the events of one scan so far: they begin with the line on the start, and
/// the summary line and the event that ends the scan stand exactly at the end of a scan that is
/// over.
pub open spec fn is_framed(turn: Turn) -> bool {
    let n = turn.events.len();
    &&& n > 0
    &&& turn.events[0] == ScanEvent::Log(started_text())
    &&& forall|i: int| 0 <= i < n - 1 ==> !((#[trigger] turn.events[i]) is Finished)
    &&& if turn.scan.stage is Finished {
        &&& turn.request is Finish
        &&& n > 2
        &&& turn.events[n - 2] == ScanEvent::Log(finished_text(turn.scan.tally.counts))
        &&& turn.events[n - 1] matches ScanEvent::Finished { counts, .. } && counts
            == turn.scan.tally.counts
    } else {
        &&& !(turn.request is Finish)
        &&& !(turn.events[n - 1] is Finished)
    }
}

proof fn lemma_to_root_is_framed(scan: Scan, events: Seq<ScanEvent>)
    requires
        forall|i: int| 0 <= i < events.len() ==> !((#[trigger] events[i]) is Finished),
    ensures
        ({
            let turn = scan.to_root(events);
            let n = turn.events.len();
            &&& forall|i: int| 0 <= i < n - 1 ==> !((#[trigger] turn.events[i]) is Finished)
            &&& forall|i: int|
                0 <= i < events.len() ==> #[trigger] turn.events[i] == events[i]
            &&& if turn.scan.stage is Finished {
                &&& turn.request is Finish
                &&& n == events.len() + 2
                &&& turn.events[n - 2] == ScanEvent::Log(finished_text(turn.scan.tally.counts))
                &&& turn.events[n - 1] matches ScanEvent::Finished { counts, .. } && counts
                    == turn.scan.tally.counts
            } else {
                &&& turn.request is FindCandidates
                &&& turn.events == events
            }
        }),
    decreases scan.roots.len(),
{
    if scan.roots.len() > 0 && !scan.roots[0].enabled {
        lemma_to_root_is_framed(Scan { roots: scan.roots.skip(1), ..scan }, events);
    }
}

proof fn lemma_after_is_framed(turn: Turn, reply: Reply)
    requires
        is_framed(turn),
    ensures
        is_framed(
            Turn {
                events: turn.events + turn.scan.after(reply).events,
                ..turn.scan.after(reply)
            },
        ),
{
    let scan = turn.scan;
    let after = scan.after(reply);
    match (scan.stage, reply) {
        (ScanStage::Root { path, .. }, Reply::Candidates(Err(error))) => {
            lemma_to_root_is_framed(scan, seq![ScanEvent::Log(skipped_text(path, error))]);
        },
        (ScanStage::Root { .. }, Reply::Candidates(Ok(found))) => {
            let tally = Tally {
                counts: scan.tally.counts.more_candidates(found.len()),
                ..scan.tally
            };
            lemma_to_root_is_framed(Scan { tally, ..scan }, seq![]);
        },
        (ScanStage::Candidate { pending, .. }, Reply::Fingerprint(Err(error))) => {
            let outcome = skipped(scan.tally, pending[0], error);
            lemma_to_root_is_framed(Scan { tally: outcome.tally, ..scan }, outcome.events);
        },
        (ScanStage::Candidate { pending, .. }, Reply::Fingerprint(Ok(fingerprint))) => {
            let outcome = recalled(scan.tally, pending[0], fingerprint);
            lemma_to_root_is_framed(Scan { tally: outcome.tally, ..scan }, outcome.events);
        },
        (ScanStage::Verdict { pending, fingerprint, .. }, Reply::Verdict(verdict)) => {
            let outcome = judged(scan.tally, pending[0], fingerprint, verdict);
            lemma_to_root_is_framed(Scan { tally: outcome.tally, ..scan }, outcome.events);
        },
        _ => {},
    }
    let all = turn.events + after.events;
    if turn.scan.stage is Finished {
        assert(all =~= turn.events);
    }
}

/// A scan begins with the line on its start. It is over exactly when it has sent the event that
/// ends it, which comes once, last, and after the line that sums the scan up.
pub proof fn law_scan_is_framed(roots: Seq<Root>, cache: Map<Seq<u8>, Cached>, replies: Seq<Reply>)
    ensures
        is_framed(played(started(roots, cache), replies)),
    decreases replies.len(),
{
    if replies.len() > 0 {
        law_scan_is_framed(roots, cache, replies.drop_last());
        lemma_after_is_framed(
            played(started(roots, cache), replies.drop_last()),
            replies.last(),
        );
    } else {
        let line = seq![ScanEvent::Log(started_text())];
        lemma_to_root_is_framed(
            Scan {
                roots,
                tally: Tally {
                    cache,
                    counts: Counts { candidates: 0, valid_plugins: 0, invalid_candidates: 0 },
                },
                stage: ScanStage::Finished,
            },
            line,
        );
        assert(started(roots, cache).events[0] == line[0]);
    }
}

/// What a scan finds on a machine that does not change while it runs.
pub struct Machine {
    pub candidates: spec_fn(Root) -> Result<Seq<Seq<u8>>, Seq<char>>,
    pub fingerprint: spec_fn(Seq<u8>) -> Result<PluginCandidateFingerprint, Seq<char>>,
    pub verdict: spec_fn(PluginFormat, Seq<u8>) -> Result<Seq<ClapPlugin>, Seq<char>>,
}

impl Machine {
    /// The machine's answer to a request.
    pub open spec fn reply(self, request: ScanRequest) -> Reply {
        match request {
            ScanRequest::FindCandidates(root) => Reply::Candidates((self.candidates)(root)),
            ScanRequest::FingerprintCandidate(path) => Reply::Fingerprint(
                (self.fingerprint)(path),
            ),
            ScanRequest::Validate { format, path } => Reply::Verdict(
                (self.verdict)(format, path),
            ),
            _ => Reply::Candidates(Ok(seq![])),
        }
    }

    /// A scan after a number of answers of this machine.
    pub open spec fn run(self, turn: Turn, answers: nat) -> Turn
        decreases answers,
    {
        if answers == 0 {
            turn
        } else {
            let after = turn.scan.after(self.reply(turn.request));
            self.run(
                Turn { events: turn.events + after.events, ..after },
                (answers - 1) as nat,
            )
        }
    }

    /// What becomes of one candidate.
    pub open spec fn candidate(
        self,
        tally: Tally,
        format: PluginFormat,
        path: Seq<u8>,
    ) -> Outcome {
        match (self.fingerprint)(path) {
            Err(error) => skipped(tally, path, error),
            Ok(fingerprint) => if stale(tally.cache, path, fingerprint) {
                judged(tally, path, fingerprint, (self.verdict)(format, path))
            } else {
                recalled(tally, path, fingerprint)
            },
        }
    }

    /// What becomes of some candidates, one after the other.
    pub open spec fn all_candidates(
        self,
        so_far: Outcome,
        format: PluginFormat,
        paths: Seq<Seq<u8>>,
    ) -> Outcome
        decreases paths.len(),
    {
        if paths.len() == 0 {
            so_far
        } else {
            let next = self.candidate(so_far.tally, format, paths[0]);
            self.all_candidates(
                Outcome { tally: next.tally, events: so_far.events + next.events },
                format,
                paths.skip(1),
            )
        }
    }

    /// What becomes of the candidates under one enabled root.
    pub open spec fn root(self, so_far: Outcome, root: Root) -> Outcome {
        match (self.candidates)(root) {
            Err(error) => Outcome {
                events: so_far.events.push(ScanEvent::Log(skipped_text(root.path, error))),
                ..so_far
            },
            Ok(found) => self.all_candidates(
                Outcome {
                    tally: Tally {
                        counts: so_far.tally.counts.more_candidates(found.len()),
                        ..so_far.tally
                    },
                    ..so_far
                },
                root.format,
                found,
            ),
        }
    }

    /// What becomes of the candidates under some roots, one enabled root after the other.
    pub open spec fn all_roots(self, so_far: Outcome, roots: Seq<Root>) -> Outcome
        decreases roots.len(),
    {
        if roots.len() == 0 {
            so_far
        } else if roots[0].enabled {
            self.all_roots(self.root(so_far, roots[0]), roots.skip(1))
        } else {
            self.all_roots(so_far, roots.skip(1))
        }
    }
}

proof fn lemma_run_on(machine: Machine, turn: Turn, a: nat, b: nat)
    ensures
        machine.run(turn, a + b) == machine.run(machine.run(turn, a), b),
    decreases a,
{
    if a > 0 {
        let after = turn.scan.after(machine.reply(turn.request));
        lemma_run_on(
            machine,
            Turn { events: turn.events + after.events, ..after },
            (a - 1) as nat,
            b,
        );
        assert((a + b - 1) as nat == (a - 1) as nat + b);
    }
}

/// A turn whose events follow earlier ones.
spec fn following(events: Seq<ScanEvent>, turn: Turn) -> Turn {
    Turn { events: events + turn.events, ..turn }
}

proof fn lemma_to_root_events(scan: Scan, before: Seq<ScanEvent>, events: Seq<ScanEvent>)
    ensures
        following(before, scan.to_root(events)) == scan.to_root(before + events),
    decreases scan.roots.len(),
{
    if scan.roots.len() == 0 {
        assert(before + (events + finishing(scan.tally)) =~= before + events + finishing(
            scan.tally,
        ));
    } else if !scan.roots[0].enabled {
        lemma_to_root_events(Scan { roots: scan.roots.skip(1), ..scan }, before, events);
    }
}

proof fn lemma_to_root_stage(scan: Scan, stage: ScanStage, events: Seq<ScanEvent>)
    ensures
        (Scan { stage, ..scan }).to_root(events) == scan.to_root(events),
    decreases scan.roots.len(),
{
    if scan.roots.len() > 0 && !scan.roots[0].enabled {
        lemma_to_root_stage(Scan { roots: scan.roots.skip(1), ..scan }, stage, events);
    }
}

proof fn lemma_to_candidate_events(
    scan: Scan,
    format: PluginFormat,
    pending: Seq<Seq<u8>>,
    before: Seq<ScanEvent>,
    events: Seq<ScanEvent>,
)
    ensures
        following(before, scan.to_candidate(format, pending, events)) == scan.to_candidate(
            format,
            pending,
            before + events,
        ),
{
    lemma_to_root_events(scan, before, events);
}

proof fn lemma_run_candidates(
    machine: Machine,
    scan: Scan,
    format: PluginFormat,
    paths: Seq<Seq<u8>>,
    events: Seq<ScanEvent>,
) -> (answers: nat)
    ensures
        ({
            let outcome = machine.all_candidates(
                Outcome { tally: scan.tally, events },
                format,
                paths,
            );
            machine.run(scan.to_candidate(format, paths, events), answers) == (Scan {
                tally: outcome.tally,
                ..scan
            }).to_root(outcome.events)
        }),
    decreases paths.len(),
{
    if paths.len() == 0 {
        0
    } else {
        let turn = scan.to_candidate(format, paths, events);
        let next = machine.candidate(scan.tally, format, paths[0]);
        let rest = Scan { tally: next.tally, ..scan };
        let sent = events + next.events;
        // The turn to which the scan comes when it is done with the first candidate.
        let done = rest.to_candidate(format, paths.skip(1), sent);
        let first = turn.scan.after(machine.reply(turn.request));
        let one = Turn { events: turn.events + first.events, ..first };
        assert(machine.run(turn, 1) == one) by {
            reveal_with_fuel(Machine::run, 2);
        }
        let at = ScanStage::Candidate { format, pending: paths };
        let validates = match (machine.fingerprint)(paths[0]) {
            Err(_) => false,
            Ok(fingerprint) => stale(scan.tally.cache, paths[0], fingerprint),
        };
        let steps: nat = if validates {
            let fingerprint = (machine.fingerprint)(paths[0])->Ok_0;
            let second = one.scan.after(machine.reply(one.request));
            let two = Turn { events: one.events + second.events, ..second };
            assert(machine.run(one, 1) == two) by {
                reveal_with_fuel(Machine::run, 2);
            }
            lemma_run_on(machine, turn, 1, 1);
            let verdict = ScanStage::Verdict { format, pending: paths, fingerprint };
            assert(one.events =~= events);
            lemma_to_candidate_events(
                Scan { stage: verdict, ..rest },
                format,
                paths.skip(1),
                events,
                next.events,
            );
            lemma_to_root_stage(rest, verdict, sent);
            assert(two == done);
            2
        } else {
            lemma_to_candidate_events(
                Scan { stage: at, ..rest },
                format,
                paths.skip(1),
                events,
                next.events,
            );
            lemma_to_root_stage(rest, at, sent);
            assert(one == done);
            1
        };
        assert(machine.run(turn, steps) == done);
        let more = lemma_run_candidates(machine, rest, format, paths.skip(1), sent);
        lemma_run_on(machine, turn, steps, more);
        steps + more
    }
}

proof fn lemma_run_roots(machine: Machine, scan: Scan, events: Seq<ScanEvent>) -> (answers: nat)
    ensures
        ({
            let outcome = machine.all_roots(Outcome { tally: scan.tally, events }, scan.roots);
            let end = machine.run(scan.to_root(events), answers);
            &&& end.request is Finish
            &&& end.events == outcome.events + finishing(outcome.tally)
        }),
    decreases scan.roots.len(),
{
    if scan.roots.len() == 0 {
        0
    } else if !scan.roots[0].enabled {
        lemma_run_roots(machine, Scan { roots: scan.roots.skip(1), ..scan }, events)
    } else {
        let root = scan.roots[0];
        let so_far = Outcome { tally: scan.tally, events };
        let next = machine.root(so_far, root);
        let rest = Scan { roots: scan.roots.skip(1), tally: next.tally, ..scan };
        let turn = scan.to_root(events);
        let first = turn.scan.after(machine.reply(turn.request));
        let one = Turn { events: turn.events + first.events, ..first };
        assert(machine.run(turn, 1) == one) by {
            reveal_with_fuel(Machine::run, 2);
        }
        let at = ScanStage::Root { format: root.format, path: root.path };
        let steps: nat = match (machine.candidates)(root) {
            Err(error) => {
                let line = seq![ScanEvent::Log(skipped_text(root.path, error))];
                lemma_to_root_events(turn.scan, events, line);
                assert(events + line =~= next.events);
                lemma_to_root_stage(rest, at, next.events);
                assert(one == rest.to_root(next.events));
                1
            },
            Ok(found) => {
                let counted = Scan {
                    tally: Tally {
                        counts: scan.tally.counts.more_candidates(found.len()),
                        ..scan.tally
                    },
                    ..turn.scan
                };
                lemma_to_candidate_events(counted, root.format, found, events, seq![]);
                assert(events + Seq::<ScanEvent>::empty() =~= events);
                assert(one == counted.to_candidate(root.format, found, events));
                let more = lemma_run_candidates(machine, counted, root.format, found, events);
                lemma_run_on(machine, turn, 1, more);
                lemma_to_root_stage(rest, at, next.events);
                1 + more
            },
        };
        assert(machine.run(turn, steps) == rest.to_root(next.events));
        let more = lemma_run_roots(machine, rest, next.events);
        lemma_run_on(machine, turn, steps, more);
        steps + more
    }
}

/// On a machine that does not change, a scan ends, and by then it has done to every candidate
/// under every enabled root, in order, what its fingerprint and the validator's verdict call for:
/// the events that it has sent are those, framed by the lines on its start and its end, and the
/// event that ends it carries the resulting counts and cache.
pub proof fn law_scan_covers_all_roots(
    machine: Machine,
    roots: Seq<Root>,
    cache: Map<Seq<u8>, Cached>,
)
    ensures
        exists|answers: nat|
            ({
                let end = #[trigger] machine.run(started(roots, cache), answers);
                let outcome = machine.all_roots(
                    Outcome {
                        tally: Tally {
                            cache,
                            counts: Counts {
                                candidates: 0,
                                valid_plugins: 0,
                                invalid_candidates: 0,
                            },
                        },
                        events: seq![ScanEvent::Log(started_text())],
                    },
                    roots,
                );
                &&& end.request is Finish
                &&& end.events == outcome.events + finishing(outcome.tally)
            }),
{
    let line = seq![ScanEvent::Log(started_text())];
    let scan = Scan {
        roots,
        tally: Tally {
            cache,
            counts: Counts { candidates: 0, valid_plugins: 0, invalid_candidates: 0 },
        },
        stage: ScanStage::Finished,
    };
    let answers = lemma_run_roots(machine, scan, line);
    assert(machine.run(started(roots, cache), answers).request is Finish);
}

/// Whether two spellings of one path have the same fingerprint on a machine, where both can be
/// read.
pub open spec fn knows_spellings(machine: Machine) -> bool {
    forall|p: Seq<u8>, q: Seq<u8>|
        path_class(p) == path_class(q) && #[trigger] (machine.fingerprint)(p) is Ok && #[trigger] (
        machine.fingerprint)(q) is Ok ==> (machine.fingerprint)(p) == (machine.fingerprint)(q)
}

/// Whether a candidate would not be validated with some cache: it cannot be read, or it has not
/// changed since it was checked.
pub open spec fn is_settled(machine: Machine, cache: Map<Seq<u8>, Cached>, path: Seq<u8>) -> bool {
    match (machine.fingerprint)(path) {
        Err(_) => true,
        Ok(fingerprint) => !stale(cache, path, fingerprint),
    }
}

/// Whether what was settled with one cache is settled with another.
spec fn keeps_settled(
    machine: Machine,
    before: Map<Seq<u8>, Cached>,
    after: Map<Seq<u8>, Cached>,
) -> bool {
    forall|path: Seq<u8>|
        is_settled(machine, before, path) ==> #[trigger] is_settled(machine, after, path)
}

proof fn lemma_candidate_settles(
    machine: Machine,
    tally: Tally,
    format: PluginFormat,
    path: Seq<u8>,
)
    requires
        knows_spellings(machine),
    ensures
        ({
            let after = machine.candidate(tally, format, path).tally.cache;
            &&& is_settled(machine, after, path)
            &&& keeps_settled(machine, tally.cache, after)
        }),
{
    let after = machine.candidate(tally, format, path).tally.cache;
    assert forall|q: Seq<u8>| is_settled(machine, tally.cache, q) implies #[trigger] is_settled(
        machine,
        after,
        q,
    ) by {
        if path_class(q) == path_class(path) && (machine.fingerprint)(q) is Ok && (
        machine.fingerprint)(path) is Ok {
            assert((machine.fingerprint)(q) == (machine.fingerprint)(path));
        }
    }
}

proof fn lemma_candidates_settle(
    machine: Machine,
    so_far: Outcome,
    format: PluginFormat,
    paths: Seq<Seq<u8>>,
)
    requires
        knows_spellings(machine),
    ensures
        ({
            let after = machine.all_candidates(so_far, format, paths).tally.cache;
            &&& forall|i: int|
                0 <= i < paths.len() ==> is_settled(machine, after, #[trigger] paths[i])
            &&& keeps_settled(machine, so_far.tally.cache, after)
        }),
    decreases paths.len(),
{
    if paths.len() > 0 {
        let next = machine.candidate(so_far.tally, format, paths[0]);
        let then = Outcome { tally: next.tally, events: so_far.events + next.events };
        lemma_candidate_settles(machine, so_far.tally, format, paths[0]);
        lemma_candidates_settle(machine, then, format, paths.skip(1));
        let after = machine.all_candidates(so_far, format, paths).tally.cache;
        assert forall|i: int| 0 <= i < paths.len() implies is_settled(
            machine,
            after,
            #[trigger] paths[i],
        ) by {
            if i > 0 {
                assert(paths.skip(1)[i - 1] == paths[i]);
            }
        }
    }
}

proof fn lemma_roots_settle(machine: Machine, so_far: Outcome, roots: Seq<Root>)
    requires
        knows_spellings(machine),
    ensures
        ({
            let after = machine.all_roots(so_far, roots).tally.cache;
            &&& forall|i: int, j: int|
                0 <= i < roots.len() && roots[i].enabled && (machine.candidates)(roots[i]) is Ok
                    && 0 <= j < (machine.candidates)(roots[i])->Ok_0.len() ==> is_settled(
                    machine,
                    after,
                    #[trigger] (machine.candidates)(roots[i])->Ok_0[j],
                )
            &&& keeps_settled(machine, so_far.tally.cache, after)
        }),
    decreases roots.len(),
{
    if roots.len() > 0 {
        let after = machine.all_roots(so_far, roots).tally.cache;
        let rest = roots.skip(1);
        let root = roots[0];
        let next = if root.enabled {
            machine.root(so_far, root)
        } else {
            so_far
        };
        if root.enabled {
            match (machine.candidates)(root) {
                Err(_) => {},
                Ok(found) => {
                    let counted = Outcome {
                        tally: Tally {
                            counts: so_far.tally.counts.more_candidates(found.len()),
                            ..so_far.tally
                        },
                        ..so_far
                    };
                    lemma_candidates_settle(machine, counted, root.format, found);
                },
            }
        }
        lemma_roots_settle(machine, next, rest);
        assert forall|i: int, j: int|
            0 <= i < roots.len() && roots[i].enabled && (machine.candidates)(roots[i]) is Ok && 0
                <= j < (machine.candidates)(roots[i])->Ok_0.len() implies is_settled(
            machine,
            after,
            #[trigger] (machine.candidates)(roots[i])->Ok_0[j],
        ) by {
            if i > 0 {
                assert(rest[i - 1] == roots[i]);
            } else {
                assert(is_settled(
                    machine,
                    next.tally.cache,
                    (machine.candidates)(roots[i])->Ok_0[j],
                ));
            }
        }
    }
}

/// On a machine that does not change, a scan leaves nothing for the next one to validate: no
/// candidate under an enabled root is stale with the cache that it ends with.
pub proof fn law_next_scan_validates_nothing(
    machine: Machine,
    roots: Seq<Root>,
    so_far: Outcome,
    root: int,
    candidate: int,
)
    requires
        knows_spellings(machine),
        0 <= root < roots.len(),
        roots[root].enabled,
        (machine.candidates)(roots[root]) is Ok,
        0 <= candidate < (machine.candidates)(roots[root])->Ok_0.len(),
    ensures
        is_settled(
            machine,
            machine.all_roots(so_far, roots).tally.cache,
            (machine.candidates)(roots[root])->Ok_0[candidate],
        ),
{
    lemma_roots_settle(machine, so_far, roots);
}

proof fn lemma_candidates_after(
    machine: Machine,
    tally: Tally,
    sent: Seq<ScanEvent>,
    events: Seq<ScanEvent>,
    format: PluginFormat,
    paths: Seq<Seq<u8>>,
)
    ensures
        ({
            let later = machine.all_candidates(Outcome { tally, events }, format, paths);
            let all = machine.all_candidates(
                Outcome { tally, events: sent + events },
                format,
                paths,
            );
            all.tally == later.tally && all.events == sent + later.events
        }),
    decreases paths.len(),
{
    if paths.len() > 0 {
        let next = machine.candidate(tally, format, paths[0]);
        assert((sent + events) + next.events =~= sent + (events + next.events));
        lemma_candidates_after(
            machine,
            next.tally,
            sent,
            events + next.events,
            format,
            paths.skip(1),
        );
    }
}

proof fn lemma_root_after(
    machine: Machine,
    tally: Tally,
    sent: Seq<ScanEvent>,
    events: Seq<ScanEvent>,
    root: Root,
)
    ensures
        ({
            let later = machine.root(Outcome { tally, events }, root);
            let all = machine.root(Outcome { tally, events: sent + events }, root);
            all.tally == later.tally && all.events == sent + later.events
        }),
{
    match (machine.candidates)(root) {
        Err(error) => {
            let line = ScanEvent::Log(skipped_text(root.path, error));
            assert((sent + events).push(line) =~= sent + events.push(line));
        },
        Ok(found) => {
            let counts = tally.counts.more_candidates(found.len());
            lemma_candidates_after(
                machine,
                Tally { counts, ..tally },
                sent,
                events,
                root.format,
                found,
            );
        },
    }
}

proof fn lemma_roots_after(
    machine: Machine,
    tally: Tally,
    sent: Seq<ScanEvent>,
    events: Seq<ScanEvent>,
    roots: Seq<Root>,
)
    ensures
        ({
            let later = machine.all_roots(Outcome { tally, events }, roots);
            let all = machine.all_roots(Outcome { tally, events: sent + events }, roots);
            all.tally == later.tally && all.events == sent + later.events
        }),
    decreases roots.len(),
{
    if roots.len() > 0 {
        if roots[0].enabled {
            let next = machine.root(Outcome { tally, events }, roots[0]);
            lemma_root_after(machine, tally, sent, events, roots[0]);
            lemma_roots_after(machine, next.tally, sent, next.events, roots.skip(1));
        } else {
            lemma_roots_after(machine, tally, sent, events, roots.skip(1));
        }
    }
}

/// A root that cannot be listed changes nothing else: a scan comes to the same counts and the same
/// cache as one without that root, and sends the same events with one more line, on the root that
/// was skipped.
pub proof fn law_unreadable_root_changes_nothing_else(
    machine: Machine,
    so_far: Outcome,
    roots: Seq<Root>,
    at: int,
)
    requires
        0 <= at < roots.len(),
        roots[at].enabled,
        (machine.candidates)(roots[at]) is Err,
    ensures
        ({
            let with = machine.all_roots(so_far, roots);
            let without = machine.all_roots(so_far, roots.remove(at));
            let error = (machine.candidates)(roots[at])->Err_0;
            let line = ScanEvent::Log(skipped_text(roots[at].path, error));
            &&& with.tally == without.tally
            &&& exists|place: int|
                0 <= place <= without.events.len() && with.events
                    == #[trigger] without.events.insert(place, line)
        }),
    decreases roots.len(),
{
    let with = machine.all_roots(so_far, roots);
    let without = machine.all_roots(so_far, roots.remove(at));
    let error = (machine.candidates)(roots[at])->Err_0;
    let line = ScanEvent::Log(skipped_text(roots[at].path, error));
    let rest = roots.skip(1);
    if at == 0 {
        assert(roots.remove(0) =~= rest);
        let nothing = Seq::<ScanEvent>::empty();
        let sent = so_far.events;
        assert(sent + nothing =~= sent);
        assert(sent.push(line) + nothing =~= sent.push(line));
        lemma_roots_after(machine, so_far.tally, sent, nothing, rest);
        lemma_roots_after(machine, so_far.tally, sent.push(line), nothing, rest);
        let later = machine.all_roots(Outcome { tally: so_far.tally, events: nothing }, rest);
        assert(sent.push(line) + later.events =~= (sent + later.events).insert(
            sent.len() as int,
            line,
        ));
        assert(with.events == without.events.insert(sent.len() as int, line));
    } else {
        assert(roots.remove(at)[0] == roots[0]);
        assert(roots.remove(at).skip(1) =~= rest.remove(at - 1));
        assert(rest[at - 1] == roots[at]);
        let next = if roots[0].enabled {
            machine.root(so_far, roots[0])
        } else {
            so_far
        };
        law_unreadable_root_changes_nothing_else(machine, next, rest, at - 1);
    }
}

} // verus!
