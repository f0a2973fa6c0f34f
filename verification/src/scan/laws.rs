//! What holds of every scan, whatever answers it gets.

use vstd::prelude::*;

use super::cache::{known, stale, Cached, Known};
use super::judge::{
    empty_reason, failed_reason, judged, known_plugins, recalled, reused_text, skipped,
    skipped_text, validated_text, Outcome, Tally,
};
use super::validator::Validated;
use super::worker::{
    finished_text, finishing, started, started_text, Reply, Root, Scan, ScanRequest, ScanStage,
    Turn,
};
use super::{Counts, PluginCandidateFingerprint, PluginFormat, ScanEvent};
use crate::paths::path_class;

verus! {

/// A scan after some answers, with all events that it has sent.
pub open spec fn played(turn: Turn, replies: Seq<Reply>) -> Turn
    decreases replies.len(),
{
    if replies.len() == 0 {
        turn
    } else {
        let before = played(turn, replies.drop_last());
        let after = before.scan.after(replies.last());
        Turn { events: before.events + after.events, ..after }
    }
}

/// How many candidates a list of events reports plugins of.
pub open spec fn plugin_events(events: Seq<ScanEvent>) -> nat
    decreases events.len(),
{
    if events.len() == 0 {
        0
    } else {
        plugin_events(events.drop_last()) + match events.last() {
            ScanEvent::ClapPlugins(_) => 1nat,
            ScanEvent::Vst3Plugins(_) => 1nat,
            _ => 0nat,
        }
    }
}

/// How many plugins a list of events reports.
pub open spec fn plugins_in(events: Seq<ScanEvent>) -> nat
    decreases events.len(),
{
    if events.len() == 0 {
        0
    } else {
        plugins_in(events.drop_last()) + match events.last() {
            ScanEvent::ClapPlugins(plugins) => plugins.len(),
            ScanEvent::Vst3Plugins(plugins) => plugins.len(),
            _ => 0nat,
        }
    }
}

/// How many candidates were found and not decided on.
pub open spec fn undecided(scan: Scan) -> nat {
    match scan.stage {
        ScanStage::Candidate { pending, .. } => pending.len(),
        ScanStage::Verdict { pending, .. } => pending.len(),
        _ => 0,
    }
}

proof fn lemma_counts_add_up(a: Seq<ScanEvent>, b: Seq<ScanEvent>)
    ensures
        plugin_events(a + b) == plugin_events(a) + plugin_events(b),
        plugins_in(a + b) == plugins_in(a) + plugins_in(b),
    decreases b.len(),
{
    if b.len() == 0 {
        assert(a + b =~= a);
    } else {
        lemma_counts_add_up(a, b.drop_last());
        assert((a + b).drop_last() =~= a + b.drop_last());
    }
}

proof fn lemma_count_one(event: ScanEvent)
    ensures
        plugin_events(seq![event]) == plugin_events(seq![]) + match event {
            ScanEvent::ClapPlugins(_) => 1nat,
            ScanEvent::Vst3Plugins(_) => 1nat,
            _ => 0nat,
        },
        plugins_in(seq![event]) == match event {
            ScanEvent::ClapPlugins(plugins) => plugins.len(),
            ScanEvent::Vst3Plugins(plugins) => plugins.len(),
            _ => 0nat,
        },
        plugin_events(seq![]) == 0,
        plugins_in(seq![]) == 0,
{
    reveal_with_fuel(plugin_events, 2);
    reveal_with_fuel(plugins_in, 2);
    assert(seq![event].drop_last() =~= Seq::<ScanEvent>::empty());
}

proof fn lemma_count_two(a: ScanEvent, b: ScanEvent)
    ensures
        plugin_events(seq![a, b]) == plugin_events(seq![a]) + plugin_events(seq![b]),
        plugins_in(seq![a, b]) == plugins_in(seq![a]) + plugins_in(seq![b]),
{
    lemma_counts_add_up(seq![a], seq![b]);
    assert(seq![a] + seq![b] =~= seq![a, b]);
}

proof fn lemma_to_root_accounts(scan: Scan, events: Seq<ScanEvent>)
    ensures
        ({
            let turn = scan.to_root(events);
            &&& turn.scan.tally.counts == scan.tally.counts
            &&& undecided(turn.scan) == 0
            &&& plugin_events(turn.events) == plugin_events(events)
            &&& plugins_in(turn.events) == plugins_in(events)
        }),
    decreases scan.roots.len(),
{
    if scan.roots.len() == 0 {
        let line = ScanEvent::Log(finished_text(scan.tally.counts));
        let end = ScanEvent::Finished { counts: scan.tally.counts, cache: scan.tally.cache };
        lemma_counts_add_up(events, finishing(scan.tally));
        lemma_count_two(line, end);
        lemma_count_one(line);
        lemma_count_one(end);
    } else if !scan.roots[0].enabled {
        lemma_to_root_accounts(Scan { roots: scan.roots.skip(1), ..scan }, events);
    }
}

/// A candidate that was decided on is either counted as invalid or reported with its plugins.
spec fn is_decision(tally: Tally, outcome: Outcome) -> bool {
    &&& outcome.tally.counts.candidates == tally.counts.candidates
    &&& outcome.tally.counts.invalid_candidates + plugin_events(outcome.events)
        == tally.counts.invalid_candidates + 1
    &&& outcome.tally.counts.valid_plugins == tally.counts.valid_plugins + plugins_in(
        outcome.events,
    )
}

proof fn lemma_decisions(
    tally: Tally,
    validator: Option<PluginCandidateFingerprint>,
    path: Seq<u8>,
    fingerprint: PluginCandidateFingerprint,
    error: Seq<char>,
    verdict: Result<Validated, Seq<char>>,
)
    ensures
        is_decision(tally, skipped(tally, path, error)),
        is_decision(tally, recalled(tally, path, fingerprint)),
        is_decision(tally, judged(tally, validator, path, fingerprint, verdict)),
{
    lemma_count_one(ScanEvent::Log(skipped_text(path, error)));
    match known(tally.cache, path, fingerprint) {
        Some(Known::Clap(plugins)) => {
            lemma_count_one(ScanEvent::ClapPlugins(plugins));
        },
        Some(Known::Vst3(plugins)) => {
            lemma_count_one(ScanEvent::Vst3Plugins(plugins));
        },
        _ => {},
    }
    let outcome = judged(tally, validator, path, fingerprint, verdict);
    if outcome.events.len() == 1 {
        lemma_count_one(outcome.events[0]);
        assert(outcome.events =~= seq![outcome.events[0]]);
    } else {
        assert(outcome.events =~= seq![outcome.events[0], outcome.events[1]]);
        lemma_count_two(outcome.events[0], outcome.events[1]);
        lemma_count_one(outcome.events[0]);
        lemma_count_one(outcome.events[1]);
    }
}

proof fn lemma_past_candidate_accounts(
    scan: Scan,
    format: PluginFormat,
    pending: Seq<Seq<u8>>,
    outcome: Outcome,
)
    requires
        pending.len() > 0,
    ensures
        ({
            let turn = scan.past_candidate(format, pending, outcome);
            &&& turn.scan.tally.counts == outcome.tally.counts
            &&& undecided(turn.scan) == pending.len() - 1
            &&& plugin_events(turn.events) == plugin_events(outcome.events)
            &&& plugins_in(turn.events) == plugins_in(outcome.events)
        }),
{
    lemma_to_root_accounts(Scan { tally: outcome.tally, ..scan }, outcome.events);
}

/// One answer leaves the books balanced: each candidate that it adds is either undecided after
/// it, or decided by it, and each plugin that it adds is reported.
pub proof fn law_answer_balances(scan: Scan, reply: Reply)
    requires
        scan.is_sound(),
    ensures
        ({
            let turn = scan.after(reply);
            let before = scan.tally.counts;
            let after = turn.scan.tally.counts;
            &&& after.candidates + before.invalid_candidates + undecided(scan) == before.candidates
                + after.invalid_candidates + undecided(turn.scan) + plugin_events(turn.events)
            &&& after.valid_plugins == before.valid_plugins + plugins_in(turn.events)
            &&& turn.scan.is_sound()
        }),
{
    let turn = scan.after(reply);
    lemma_count_one(turn.events[0]);
    lemma_to_root_is_sound(scan, seq![]);
    match (scan.stage, reply) {
        (ScanStage::Validator, Reply::Validator(fingerprint)) => {
            lemma_to_root_accounts(Scan { validator: fingerprint, ..scan }, seq![]);
            lemma_to_root_is_sound(Scan { validator: fingerprint, ..scan }, seq![]);
        },
        (ScanStage::Root { path, .. }, Reply::Candidates(Err(error))) => {
            let line = ScanEvent::Log(skipped_text(path, error));
            lemma_count_one(line);
            lemma_to_root_accounts(scan, seq![line]);
            lemma_to_root_is_sound(scan, seq![line]);
        },
        (ScanStage::Root { .. }, Reply::Candidates(Ok(found))) => {
            let tally = Tally {
                counts: scan.tally.counts.more_candidates(found.len()),
                ..scan.tally
            };
            lemma_to_root_accounts(Scan { tally, ..scan }, seq![]);
            lemma_to_root_is_sound(Scan { tally, ..scan }, seq![]);
        },
        (ScanStage::Candidate { format, pending }, Reply::Fingerprint(Err(error))) => {
            let outcome = skipped(scan.tally, pending[0], error);
            lemma_decisions(scan.tally, None, pending[0], arbitrary(), error, Err(error));
            lemma_past_candidate_accounts(scan, format, pending, outcome);
            lemma_to_root_is_sound(Scan { tally: outcome.tally, ..scan }, outcome.events);
        },
        (ScanStage::Candidate { format, pending }, Reply::Fingerprint(Ok(fingerprint))) => {
            let outcome = recalled(scan.tally, pending[0], fingerprint);
            lemma_decisions(scan.tally, None, pending[0], fingerprint, seq![], Err(seq![]));
            lemma_past_candidate_accounts(scan, format, pending, outcome);
            lemma_to_root_is_sound(Scan { tally: outcome.tally, ..scan }, outcome.events);
        },
        (ScanStage::Verdict { format, pending, fingerprint }, Reply::Verdict(verdict)) => {
            let outcome = judged(scan.tally, scan.validator, pending[0], fingerprint, verdict);
            lemma_decisions(
                scan.tally,
                scan.validator,
                pending[0],
                fingerprint,
                seq![],
                verdict,
            );
            lemma_past_candidate_accounts(scan, format, pending, outcome);
            lemma_to_root_is_sound(Scan { tally: outcome.tally, ..scan }, outcome.events);
        },
        _ => {},
    }
}

proof fn lemma_to_root_is_sound(scan: Scan, events: Seq<ScanEvent>)
    ensures
        scan.to_root(events).scan.is_sound(),
        undecided(scan.to_root(events).scan) == 0,
    decreases scan.roots.len(),
{
    if scan.roots.len() > 0 && !scan.roots[0].enabled {
        lemma_to_root_is_sound(Scan { roots: scan.roots.skip(1), ..scan }, events);
    }
}

/// At any point of a scan, every candidate that was found is either counted as invalid, or
/// reported with its plugins in one event, or not decided on yet; and as many plugins are counted
/// as were reported.
pub proof fn law_scan_balances(
    roots: Seq<Root>,
    cache: Map<Seq<u8>, Cached>,
    replies: Seq<Reply>,
)
    ensures
        ({
            let turn = played(started(roots, cache), replies);
            let counts = turn.scan.tally.counts;
            &&& counts.candidates == counts.invalid_candidates + plugin_events(turn.events)
                + undecided(turn.scan)
            &&& counts.valid_plugins == plugins_in(turn.events)
            &&& turn.scan.is_sound()
        }),
    decreases replies.len(),
{
    if replies.len() == 0 {
        lemma_count_one(ScanEvent::Log(started_text()));
    } else {
        let before = played(started(roots, cache), replies.drop_last());
        law_scan_balances(roots, cache, replies.drop_last());
        law_answer_balances(before.scan, replies.last());
        lemma_counts_add_up(before.events, before.scan.after(replies.last()).events);
    }
}

/// Whether these are the events of one scan so far: they begin with the line on the start, and
/// the summary line and the event that ends the scan stand exactly at the end of a scan that is
/// over.
pub open spec fn is_framed(turn: Turn) -> bool {
    let n = turn.events.len();
    &&& n > 0
    &&& turn.events[0] == ScanEvent::Log(started_text())
    &&& forall|i: int| 0 <= i < n - 1 ==> !((#[trigger] turn.events[i]) is Finished)
    &&& if turn.scan.stage is Finished {
        &&& turn.request is Finish
        &&& n > 2
        &&& turn.events[n - 2] == ScanEvent::Log(finished_text(turn.scan.tally.counts))
        &&& turn.events[n - 1] matches ScanEvent::Finished { counts, .. } && counts
            == turn.scan.tally.counts
    } else {
        &&& !(turn.request is Finish)
        &&& !(turn.events[n - 1] is Finished)
    }
}

proof fn lemma_to_root_is_framed(scan: Scan, events: Seq<ScanEvent>)
    requires
        forall|i: int| 0 <= i < events.len() ==> !((#[trigger] events[i]) is Finished),
    ensures
        ({
            let turn = scan.to_root(events);
            let n = turn.events.len();
            &&& forall|i: int| 0 <= i < n - 1 ==> !((#[trigger] turn.events[i]) is Finished)
            &&& if turn.scan.stage is Finished {
                &&& turn.request is Finish
                &&& n >= 2
                &&& turn.events[n - 2] == ScanEvent::Log(finished_text(turn.scan.tally.counts))
                &&& turn.events[n - 1] matches ScanEvent::Finished { counts, .. } && counts
                    == turn.scan.tally.counts
            } else {
                &&& turn.request is FindCandidates
                &&& turn.events == events
            }
        }),
    decreases scan.roots.len(),
{
    if scan.roots.len() > 0 && !scan.roots[0].enabled {
        lemma_to_root_is_framed(Scan { roots: scan.roots.skip(1), ..scan }, events);
    }
}

proof fn lemma_after_is_framed(turn: Turn, reply: Reply)
    requires
        is_framed(turn),
    ensures
        is_framed(
            Turn {
                events: turn.events + turn.scan.after(reply).events,
                ..turn.scan.after(reply)
            },
        ),
{
    let scan = turn.scan;
    let after = scan.after(reply);
    match (scan.stage, reply) {
        (ScanStage::Validator, Reply::Validator(fingerprint)) => {
            lemma_to_root_is_framed(Scan { validator: fingerprint, ..scan }, seq![]);
        },
        (ScanStage::Root { path, .. }, Reply::Candidates(Err(error))) => {
            lemma_to_root_is_framed(scan, seq![ScanEvent::Log(skipped_text(path, error))]);
        },
        (ScanStage::Root { .. }, Reply::Candidates(Ok(found))) => {
            let tally = Tally {
                counts: scan.tally.counts.more_candidates(found.len()),
                ..scan.tally
            };
            lemma_to_root_is_framed(Scan { tally, ..scan }, seq![]);
        },
        (ScanStage::Candidate { pending, .. }, Reply::Fingerprint(Err(error))) => {
            let outcome = skipped(scan.tally, pending[0], error);
            lemma_to_root_is_framed(Scan { tally: outcome.tally, ..scan }, outcome.events);
        },
        (ScanStage::Candidate { pending, .. }, Reply::Fingerprint(Ok(fingerprint))) => {
            let outcome = recalled(scan.tally, pending[0], fingerprint);
            lemma_to_root_is_framed(Scan { tally: outcome.tally, ..scan }, outcome.events);
        },
        (ScanStage::Verdict { pending, fingerprint, .. }, Reply::Verdict(verdict)) => {
            let outcome = judged(scan.tally, scan.validator, pending[0], fingerprint, verdict);
            lemma_to_root_is_framed(Scan { tally: outcome.tally, ..scan }, outcome.events);
        },
        _ => {},
    }
    let all = turn.events + after.events;
    if turn.scan.stage is Finished {
        assert(all =~= turn.events);
    }
}

/// A scan begins with the line on its start. It is over exactly when it has sent the event that
/// ends it, which comes once, last, and after the line that sums the scan up.
pub proof fn law_scan_is_framed(roots: Seq<Root>, cache: Map<Seq<u8>, Cached>, replies: Seq<Reply>)
    ensures
        is_framed(played(started(roots, cache), replies)),
    decreases replies.len(),
{
    if replies.len() > 0 {
        law_scan_is_framed(roots, cache, replies.drop_last());
        lemma_after_is_framed(
            played(started(roots, cache), replies.drop_last()),
            replies.last(),
        );
    }
}

/// A candidate is validated exactly when it is stale: one that has not changed since this
/// validator checked it is recalled from the cache, and the scan goes on.
pub proof fn law_only_stale_candidates_are_validated(
    scan: Scan,
    fingerprint: PluginCandidateFingerprint,
)
    requires
        scan.stage is Candidate,
    ensures
        ({
            let turn = scan.after(Reply::Fingerprint(Ok(fingerprint)));
            let pending = scan.stage->Candidate_pending;
            &&& turn.request is Validate <==> stale(
                scan.tally.cache,
                pending[0],
                fingerprint,
                scan.validator,
            )
            &&& turn.request matches ScanRequest::Validate { format, path } ==> format
                == scan.stage->Candidate_format && path == pending[0]
        }),
{
    let pending = scan.stage->Candidate_pending;
    let outcome = recalled(scan.tally, pending[0], fingerprint);
    lemma_to_root_does_not_validate(Scan { tally: outcome.tally, ..scan }, outcome.events);
}

proof fn lemma_to_root_does_not_validate(scan: Scan, events: Seq<ScanEvent>)
    ensures
        !(scan.to_root(events).request is Validate),
    decreases scan.roots.len(),
{
    if scan.roots.len() > 0 && !scan.roots[0].enabled {
        lemma_to_root_does_not_validate(Scan { roots: scan.roots.skip(1), ..scan }, events);
    }
}

/// What a verdict leaves in the cache is not stale for the validator that gave it, so that the
/// next scan does not validate the candidate again; unless the verdict was set aside in favour of
/// cached plugins, and then the cache is as it was.
pub proof fn law_verdict_is_remembered(
    tally: Tally,
    validator: Option<PluginCandidateFingerprint>,
    path: Seq<u8>,
    fingerprint: PluginCandidateFingerprint,
    verdict: Result<Validated, Seq<char>>,
)
    ensures
        ({
            let after = judged(tally, validator, path, fingerprint, verdict).tally.cache;
            let found = match verdict {
                Ok(Validated::Clap(plugins)) => plugins.len() > 0,
                Ok(Validated::Vst3(plugins)) => plugins.len() > 0,
                Err(_) => false,
            };
            if found || known_plugins(tally.cache, path, fingerprint) == 0 {
                !stale(after, path, fingerprint, validator)
            } else {
                after == tally.cache
            }
        }),
{
}

/// A candidate whose file is the same keeps the plugins that the cache knows of it when
/// validation fails or finds none: they are reported again, it does not count as invalid, and the
/// cache stays as it was.
pub proof fn law_failed_validation_keeps_plugins(
    tally: Tally,
    validator: Option<PluginCandidateFingerprint>,
    path: Seq<u8>,
    fingerprint: PluginCandidateFingerprint,
    verdict: Result<Validated, Seq<char>>,
)
    requires
        match verdict {
            Ok(Validated::Clap(plugins)) => plugins.len() == 0,
            Ok(Validated::Vst3(plugins)) => plugins.len() == 0,
            Err(_) => true,
        },
        known_plugins(tally.cache, path, fingerprint) > 0,
    ensures
        ({
            let outcome = judged(tally, validator, path, fingerprint, verdict);
            &&& outcome.tally.cache == tally.cache
            &&& outcome.tally.counts == tally.counts.more_plugins(
                known_plugins(tally.cache, path, fingerprint),
            )
            &&& match known(tally.cache, path, fingerprint) {
                Some(Known::Clap(plugins)) => outcome.events.last() == ScanEvent::ClapPlugins(
                    plugins,
                ),
                Some(Known::Vst3(plugins)) => outcome.events.last() == ScanEvent::Vst3Plugins(
                    plugins,
                ),
                _ => false,
            }
        }),
{
}

proof fn lemma_to_root_finds_enabled(scan: Scan, events: Seq<ScanEvent>)
    ensures
        scan.to_root(events).request matches ScanRequest::FindCandidates(root) ==> root.enabled,
    decreases scan.roots.len(),
{
    if scan.roots.len() > 0 && !scan.roots[0].enabled {
        lemma_to_root_finds_enabled(Scan { roots: scan.roots.skip(1), ..scan }, events);
    }
}

/// A disabled root is never searched.
pub proof fn law_disabled_roots_are_not_searched(scan: Scan, reply: Reply)
    ensures
        scan.after(reply).request matches ScanRequest::FindCandidates(root) ==> root.enabled,
{
    match (scan.stage, reply) {
        (ScanStage::Validator, Reply::Validator(fingerprint)) => {
            lemma_to_root_finds_enabled(Scan { validator: fingerprint, ..scan }, seq![]);
        },
        (ScanStage::Root { path, .. }, Reply::Candidates(Err(error))) => {
            lemma_to_root_finds_enabled(scan, seq![ScanEvent::Log(skipped_text(path, error))]);
        },
        (ScanStage::Root { .. }, Reply::Candidates(Ok(found))) => {
            let tally = Tally {
                counts: scan.tally.counts.more_candidates(found.len()),
                ..scan.tally
            };
            lemma_to_root_finds_enabled(Scan { tally, ..scan }, seq![]);
        },
        (ScanStage::Candidate { pending, .. }, Reply::Fingerprint(Err(error))) => {
            let outcome = skipped(scan.tally, pending[0], error);
            lemma_to_root_finds_enabled(Scan { tally: outcome.tally, ..scan }, outcome.events);
        },
        (ScanStage::Candidate { pending, .. }, Reply::Fingerprint(Ok(fingerprint))) => {
            let outcome = recalled(scan.tally, pending[0], fingerprint);
            lemma_to_root_finds_enabled(Scan { tally: outcome.tally, ..scan }, outcome.events);
        },
        (ScanStage::Verdict { pending, fingerprint, .. }, Reply::Verdict(verdict)) => {
            let outcome = judged(scan.tally, scan.validator, pending[0], fingerprint, verdict);
            lemma_to_root_finds_enabled(Scan { tally: outcome.tally, ..scan }, outcome.events);
        },
        _ => {},
    }
}

/// What a scan finds on a machine that does not change while it runs.
pub struct Machine {
    pub validator: Option<PluginCandidateFingerprint>,
    pub candidates: spec_fn(Root) -> Result<Seq<Seq<u8>>, Seq<char>>,
    pub fingerprint: spec_fn(Seq<u8>) -> Result<PluginCandidateFingerprint, Seq<char>>,
    pub verdict: spec_fn(PluginFormat, Seq<u8>) -> Result<Validated, Seq<char>>,
}

impl Machine {
    /// The machine's answer to a request.
    pub open spec fn reply(self, request: ScanRequest) -> Reply {
        match request {
            ScanRequest::FindCandidates(root) => Reply::Candidates((self.candidates)(root)),
            ScanRequest::FingerprintCandidate(path) => Reply::Fingerprint(
                (self.fingerprint)(path),
            ),
            ScanRequest::Validate { format, path } => Reply::Verdict(
                (self.verdict)(format, path),
            ),
            _ => Reply::Validator(self.validator),
        }
    }

    /// A scan after a number of answers of this machine.
    pub open spec fn run(self, turn: Turn, answers: nat) -> Turn
        decreases answers,
    {
        if answers == 0 {
            turn
        } else {
            let after = turn.scan.after(self.reply(turn.request));
            self.run(
                Turn { events: turn.events + after.events, ..after },
                (answers - 1) as nat,
            )
        }
    }

    /// What becomes of one candidate.
    pub open spec fn candidate(
        self,
        tally: Tally,
        format: PluginFormat,
        path: Seq<u8>,
    ) -> Outcome {
        match (self.fingerprint)(path) {
            Err(error) => skipped(tally, path, error),
            Ok(fingerprint) => if stale(tally.cache, path, fingerprint, self.validator) {
                judged(tally, self.validator, path, fingerprint, (self.verdict)(format, path))
            } else {
                recalled(tally, path, fingerprint)
            },
        }
    }

    /// What becomes of some candidates, one after the other.
    pub open spec fn all_candidates(
        self,
        so_far: Outcome,
        format: PluginFormat,
        paths: Seq<Seq<u8>>,
    ) -> Outcome
        decreases paths.len(),
    {
        if paths.len() == 0 {
            so_far
        } else {
            let next = self.candidate(so_far.tally, format, paths[0]);
            self.all_candidates(
                Outcome { tally: next.tally, events: so_far.events + next.events },
                format,
                paths.skip(1),
            )
        }
    }

    /// What becomes of the candidates under one enabled root.
    pub open spec fn root(self, so_far: Outcome, root: Root) -> Outcome {
        match (self.candidates)(root) {
            Err(error) => Outcome {
                events: so_far.events.push(ScanEvent::Log(skipped_text(root.path, error))),
                ..so_far
            },
            Ok(found) => self.all_candidates(
                Outcome {
                    tally: Tally {
                        counts: so_far.tally.counts.more_candidates(found.len()),
                        ..so_far.tally
                    },
                    ..so_far
                },
                root.format,
                found,
            ),
        }
    }

    /// What becomes of the candidates under some roots, one enabled root after the other.
    pub open spec fn all_roots(self, so_far: Outcome, roots: Seq<Root>) -> Outcome
        decreases roots.len(),
    {
        if roots.len() == 0 {
            so_far
        } else if roots[0].enabled {
            self.all_roots(self.root(so_far, roots[0]), roots.skip(1))
        } else {
            self.all_roots(so_far, roots.skip(1))
        }
    }
}

proof fn lemma_run_on(machine: Machine, turn: Turn, a: nat, b: nat)
    ensures
        machine.run(turn, a + b) == machine.run(machine.run(turn, a), b),
    decreases a,
{
    if a > 0 {
        let after = turn.scan.after(machine.reply(turn.request));
        lemma_run_on(
            machine,
            Turn { events: turn.events + after.events, ..after },
            (a - 1) as nat,
            b,
        );
        assert((a + b - 1) as nat == (a - 1) as nat + b);
    }
}

/// A turn whose events follow earlier ones.
spec fn following(events: Seq<ScanEvent>, turn: Turn) -> Turn {
    Turn { events: events + turn.events, ..turn }
}

proof fn lemma_to_root_events(scan: Scan, before: Seq<ScanEvent>, events: Seq<ScanEvent>)
    ensures
        following(before, scan.to_root(events)) == scan.to_root(before + events),
    decreases scan.roots.len(),
{
    if scan.roots.len() == 0 {
        assert(before + (events + finishing(scan.tally)) =~= before + events + finishing(
            scan.tally,
        ));
    } else if !scan.roots[0].enabled {
        lemma_to_root_events(Scan { roots: scan.roots.skip(1), ..scan }, before, events);
    }
}

proof fn lemma_to_root_stage(scan: Scan, stage: ScanStage, events: Seq<ScanEvent>)
    ensures
        (Scan { stage, ..scan }).to_root(events) == scan.to_root(events),
    decreases scan.roots.len(),
{
    if scan.roots.len() > 0 && !scan.roots[0].enabled {
        lemma_to_root_stage(Scan { roots: scan.roots.skip(1), ..scan }, stage, events);
    }
}

proof fn lemma_to_candidate_events(
    scan: Scan,
    format: PluginFormat,
    pending: Seq<Seq<u8>>,
    before: Seq<ScanEvent>,
    events: Seq<ScanEvent>,
)
    ensures
        following(before, scan.to_candidate(format, pending, events)) == scan.to_candidate(
            format,
            pending,
            before + events,
        ),
{
    lemma_to_root_events(scan, before, events);
}

proof fn lemma_run_candidates(
    machine: Machine,
    scan: Scan,
    format: PluginFormat,
    paths: Seq<Seq<u8>>,
    events: Seq<ScanEvent>,
) -> (answers: nat)
    requires
        scan.validator == machine.validator,
    ensures
        ({
            let outcome = machine.all_candidates(
                Outcome { tally: scan.tally, events },
                format,
                paths,
            );
            machine.run(scan.to_candidate(format, paths, events), answers) == (Scan {
                tally: outcome.tally,
                ..scan
            }).to_root(outcome.events)
        }),
    decreases paths.len(),
{
    if paths.len() == 0 {
        0
    } else {
        let turn = scan.to_candidate(format, paths, events);
        let next = machine.candidate(scan.tally, format, paths[0]);
        let rest = Scan { tally: next.tally, ..scan };
        let sent = events + next.events;
        // The turn to which the scan comes when it is done with the first candidate.
        let done = rest.to_candidate(format, paths.skip(1), sent);
        let first = turn.scan.after(machine.reply(turn.request));
        let one = Turn { events: turn.events + first.events, ..first };
        assert(machine.run(turn, 1) == one) by {
            reveal_with_fuel(Machine::run, 2);
        }
        let at = ScanStage::Candidate { format, pending: paths };
        let steps: nat = match (machine.fingerprint)(paths[0]) {
            Err(error) => {
                lemma_to_candidate_events(
                    Scan { stage: at, ..rest },
                    format,
                    paths.skip(1),
                    events,
                    next.events,
                );
                lemma_to_root_stage(rest, at, sent);
                assert(one == done);
                1
            },
            Ok(fingerprint) => if stale(
                scan.tally.cache,
                paths[0],
                fingerprint,
                machine.validator,
            ) {
                let second = one.scan.after(machine.reply(one.request));
                let two = Turn { events: one.events + second.events, ..second };
                assert(machine.run(one, 1) == two) by {
                    reveal_with_fuel(Machine::run, 2);
                }
                lemma_run_on(machine, turn, 1, 1);
                let verdict = ScanStage::Verdict { format, pending: paths, fingerprint };
                assert(one.events =~= events);
                lemma_to_candidate_events(
                    Scan { stage: verdict, ..rest },
                    format,
                    paths.skip(1),
                    events,
                    next.events,
                );
                lemma_to_root_stage(rest, verdict, sent);
                assert(two == done);
                2
            } else {
                lemma_to_candidate_events(
                    Scan { stage: at, ..rest },
                    format,
                    paths.skip(1),
                    events,
                    next.events,
                );
                lemma_to_root_stage(rest, at, sent);
                assert(one == done);
                1
            },
        };
        assert(machine.run(turn, steps) == done);
        let more = lemma_run_candidates(machine, rest, format, paths.skip(1), sent);
        lemma_run_on(machine, turn, steps, more);
        steps + more
    }
}

proof fn lemma_run_roots(machine: Machine, scan: Scan, events: Seq<ScanEvent>) -> (answers: nat)
    requires
        scan.validator == machine.validator,
    ensures
        ({
            let outcome = machine.all_roots(Outcome { tally: scan.tally, events }, scan.roots);
            let end = machine.run(scan.to_root(events), answers);
            &&& end.request is Finish
            &&& end.events == outcome.events + finishing(outcome.tally)
        }),
    decreases scan.roots.len(),
{
    if scan.roots.len() == 0 {
        0
    } else if !scan.roots[0].enabled {
        lemma_run_roots(machine, Scan { roots: scan.roots.skip(1), ..scan }, events)
    } else {
        let root = scan.roots[0];
        let so_far = Outcome { tally: scan.tally, events };
        let next = machine.root(so_far, root);
        let rest = Scan { roots: scan.roots.skip(1), tally: next.tally, ..scan };
        let turn = scan.to_root(events);
        let first = turn.scan.after(machine.reply(turn.request));
        let one = Turn { events: turn.events + first.events, ..first };
        assert(machine.run(turn, 1) == one) by {
            reveal_with_fuel(Machine::run, 2);
        }
        let at = ScanStage::Root { format: root.format, path: root.path };
        let steps: nat = match (machine.candidates)(root) {
            Err(error) => {
                let line = seq![ScanEvent::Log(skipped_text(root.path, error))];
                lemma_to_root_events(turn.scan, events, line);
                assert(events + line =~= next.events);
                lemma_to_root_stage(rest, at, next.events);
                assert(one == rest.to_root(next.events));
                1
            },
            Ok(found) => {
                let counted = Scan {
                    tally: Tally {
                        counts: scan.tally.counts.more_candidates(found.len()),
                        ..scan.tally
                    },
                    ..turn.scan
                };
                lemma_to_candidate_events(counted, root.format, found, events, seq![]);
                assert(events + Seq::<ScanEvent>::empty() =~= events);
                assert(one == counted.to_candidate(root.format, found, events));
                let more = lemma_run_candidates(machine, counted, root.format, found, events);
                lemma_run_on(machine, turn, 1, more);
                lemma_to_root_stage(rest, at, next.events);
                1 + more
            },
        };
        assert(machine.run(turn, steps) == rest.to_root(next.events));
        let more = lemma_run_roots(machine, rest, next.events);
        lemma_run_on(machine, turn, steps, more);
        steps + more
    }
}

/// On a machine that does not change, a scan ends, and by then it has done to every candidate
/// under every enabled root, in order, what its fingerprint and the validator's verdict call for:
/// the events that it has sent are those, framed by the lines on its start and its end, and the
/// event that ends it carries the resulting counts and cache.
pub proof fn law_scan_covers_all_roots(
    machine: Machine,
    roots: Seq<Root>,
    cache: Map<Seq<u8>, Cached>,
)
    ensures
        exists|answers: nat|
            ({
                let end = #[trigger] machine.run(started(roots, cache), answers);
                let outcome = machine.all_roots(begun(cache), roots);
                &&& end.request is Finish
                &&& end.events == outcome.events + finishing(outcome.tally)
            }),
{
    let turn = started(roots, cache);
    let first = turn.scan.after(machine.reply(turn.request));
    let one = Turn { events: turn.events + first.events, ..first };
    assert(machine.run(turn, 1) == one) by {
        reveal_with_fuel(Machine::run, 2);
    }
    let scan = Scan { validator: machine.validator, ..turn.scan };
    lemma_to_root_events(scan, turn.events, seq![]);
    assert(turn.events + Seq::<ScanEvent>::empty() =~= turn.events);
    assert(one == scan.to_root(turn.events));
    let more = lemma_run_roots(machine, scan, turn.events);
    lemma_run_on(machine, turn, 1, more);
    assert(machine.run(turn, 1 + more).request is Finish);
}

/// Whether two spellings of one path have the same fingerprint on a machine, where both can be
/// read.
pub open spec fn knows_spellings(machine: Machine) -> bool {
    forall|p: Seq<u8>, q: Seq<u8>|
        path_class(p) == path_class(q) && #[trigger] (machine.fingerprint)(p) is Ok && #[trigger] (
        machine.fingerprint)(q) is Ok ==> (machine.fingerprint)(p) == (machine.fingerprint)(q)
}

/// Whether a candidate would not be validated with some cache: it cannot be read, or it has not
/// changed since this validator checked it.
pub open spec fn is_settled(machine: Machine, cache: Map<Seq<u8>, Cached>, path: Seq<u8>) -> bool {
    match (machine.fingerprint)(path) {
        Err(_) => true,
        Ok(fingerprint) => !stale(cache, path, fingerprint, machine.validator),
    }
}

/// Whether no candidate under a root would be validated with some cache.
pub open spec fn is_root_settled(
    machine: Machine,
    cache: Map<Seq<u8>, Cached>,
    root: Root,
) -> bool {
    root.enabled && (machine.candidates)(root) is Ok ==> forall|i: int|
        0 <= i < (machine.candidates)(root)->Ok_0.len() ==> is_settled(
            machine,
            cache,
            #[trigger] (machine.candidates)(root)->Ok_0[i],
        )
}

/// Whether an event says that the cached plugins of a candidate were used again in place of a
/// verdict.
pub open spec fn is_reuse(event: ScanEvent) -> bool {
    exists|format: Seq<char>, path: Seq<u8>, reason: Seq<char>|
        event == ScanEvent::Log(#[trigger] reused_text(format, path, reason))
}

/// Whether no event says that cached plugins were used in place of a verdict.
pub open spec fn reuses_nothing(events: Seq<ScanEvent>) -> bool {
    forall|i: int| 0 <= i < events.len() ==> !is_reuse(#[trigger] events[i])
}

/// The events that report plugins, in order.
pub open spec fn plugin_lists(events: Seq<ScanEvent>) -> Seq<ScanEvent>
    decreases events.len(),
{
    if events.len() == 0 {
        seq![]
    } else {
        let earlier = plugin_lists(events.drop_last());
        if events.last() is ClapPlugins || events.last() is Vst3Plugins {
            earlier.push(events.last())
        } else {
            earlier
        }
    }
}

pub(crate) proof fn lemma_lists_add_up(a: Seq<ScanEvent>, b: Seq<ScanEvent>)
    ensures
        plugin_lists(a + b) == plugin_lists(a) + plugin_lists(b),
    decreases b.len(),
{
    if b.len() == 0 {
        assert(a + b =~= a);
        assert(plugin_lists(a) + plugin_lists(b) =~= plugin_lists(a));
    } else {
        lemma_lists_add_up(a, b.drop_last());
        assert((a + b).drop_last() =~= a + b.drop_last());
        assert(plugin_lists(a + b) =~= plugin_lists(a) + plugin_lists(b));
    }
}

pub(crate) proof fn lemma_lists_of_one(event: ScanEvent)
    ensures
        plugin_lists(seq![event]) == if event is ClapPlugins || event is Vst3Plugins {
            seq![event]
        } else {
            seq![]
        },
        plugin_lists(seq![]) == Seq::<ScanEvent>::empty(),
{
    reveal_with_fuel(plugin_lists, 2);
    assert(seq![event].drop_last() =~= Seq::<ScanEvent>::empty());
    assert(Seq::<ScanEvent>::empty().push(event) =~= seq![event]);
}

pub(crate) proof fn lemma_lists_of_log_and(line: Seq<char>, event: ScanEvent)
    requires
        event is ClapPlugins || event is Vst3Plugins,
    ensures
        plugin_lists(seq![ScanEvent::Log(line), event]) == seq![event],
{
    let log = ScanEvent::Log(line);
    lemma_lists_of_one(log);
    lemma_lists_of_one(event);
    lemma_lists_add_up(seq![log], seq![event]);
    assert(seq![log] + seq![event] =~= seq![log, event]);
    assert(Seq::<ScanEvent>::empty() + seq![event] =~= seq![event]);
}

/// Whether a later cache still has the entry of a candidate that was settled.
spec fn keeps_entry(
    machine: Machine,
    before: Map<Seq<u8>, Cached>,
    after: Map<Seq<u8>, Cached>,
    path: Seq<u8>,
) -> bool {
    (machine.fingerprint)(path) is Ok && is_settled(machine, before, path)
        ==> after.contains_pair(path_class(path), before[path_class(path)])
}

/// Whether a later cache still has the entries of all candidates that were settled.
spec fn keeps_entries(
    machine: Machine,
    before: Map<Seq<u8>, Cached>,
    after: Map<Seq<u8>, Cached>,
) -> bool {
    forall|path: Seq<u8>| #[trigger] keeps_entry(machine, before, after, path)
}

proof fn lemma_keeps_on(
    machine: Machine,
    a: Map<Seq<u8>, Cached>,
    b: Map<Seq<u8>, Cached>,
    c: Map<Seq<u8>, Cached>,
)
    requires
        keeps_entries(machine, a, b),
        keeps_entries(machine, b, c),
    ensures
        keeps_entries(machine, a, c),
{
    assert forall|path: Seq<u8>| #[trigger] keeps_entry(machine, a, c, path) by {
        assert(keeps_entry(machine, a, b, path));
        assert(keeps_entry(machine, b, c, path));
    }
}

proof fn lemma_keeps_settled(
    machine: Machine,
    before: Map<Seq<u8>, Cached>,
    after: Map<Seq<u8>, Cached>,
    path: Seq<u8>,
)
    requires
        keeps_entries(machine, before, after),
        is_settled(machine, before, path),
    ensures
        is_settled(machine, after, path),
{
    assert(keeps_entry(machine, before, after, path));
}

/// Whether events begin with earlier ones.
spec fn extends(earlier: Seq<ScanEvent>, all: Seq<ScanEvent>) -> bool {
    &&& earlier.len() <= all.len()
    &&& forall|i: int| 0 <= i < earlier.len() ==> #[trigger] all[i] == earlier[i]
}

proof fn lemma_candidates_extend(
    machine: Machine,
    so_far: Outcome,
    format: PluginFormat,
    paths: Seq<Seq<u8>>,
)
    ensures
        extends(so_far.events, machine.all_candidates(so_far, format, paths).events),
    decreases paths.len(),
{
    if paths.len() > 0 {
        let next = machine.candidate(so_far.tally, format, paths[0]);
        let then = Outcome { tally: next.tally, events: so_far.events + next.events };
        lemma_candidates_extend(machine, then, format, paths.skip(1));
    }
}

proof fn lemma_root_extends(machine: Machine, so_far: Outcome, root: Root)
    ensures
        extends(so_far.events, machine.root(so_far, root).events),
{
    match (machine.candidates)(root) {
        Err(_) => {},
        Ok(found) => {
            let counts = so_far.tally.counts.more_candidates(found.len());
            let counted = Outcome { tally: Tally { counts, ..so_far.tally }, ..so_far };
            lemma_candidates_extend(machine, counted, root.format, found);
        },
    }
}

proof fn lemma_roots_extend(machine: Machine, so_far: Outcome, roots: Seq<Root>)
    ensures
        extends(so_far.events, machine.all_roots(so_far, roots).events),
    decreases roots.len(),
{
    if roots.len() > 0 {
        if roots[0].enabled {
            lemma_root_extends(machine, so_far, roots[0]);
            lemma_roots_extend(machine, machine.root(so_far, roots[0]), roots.skip(1));
        } else {
            lemma_roots_extend(machine, so_far, roots.skip(1));
        }
    }
}

proof fn lemma_nothing_in_prefix(earlier: Seq<ScanEvent>, all: Seq<ScanEvent>)
    requires
        extends(earlier, all),
        reuses_nothing(all),
    ensures
        reuses_nothing(earlier),
{
    assert forall|i: int| 0 <= i < earlier.len() implies !is_reuse(#[trigger] earlier[i]) by {
        assert(all[i] == earlier[i]);
    }
}

proof fn lemma_nothing_in_suffix(a: Seq<ScanEvent>, b: Seq<ScanEvent>)
    requires
        reuses_nothing(a + b),
    ensures
        reuses_nothing(b),
{
    assert forall|i: int| 0 <= i < b.len() implies !is_reuse(#[trigger] b[i]) by {
        assert((a + b)[a.len() + i] == b[i]);
    }
}

/// A verdict that was not set aside is in the cache afterwards.
proof fn lemma_judged_without_reuse(
    tally: Tally,
    validator: Option<PluginCandidateFingerprint>,
    path: Seq<u8>,
    fingerprint: PluginCandidateFingerprint,
    verdict: Result<Validated, Seq<char>>,
)
    requires
        reuses_nothing(judged(tally, validator, path, fingerprint, verdict).events),
    ensures
        ({
            let after = judged(tally, validator, path, fingerprint, verdict);
            let key = path_class(path);
            let again = recalled(after.tally, path, fingerprint);
            &&& !stale(after.tally.cache, path, fingerprint, validator)
            &&& after.tally.cache == tally.cache.insert(key, after.tally.cache[key])
            &&& plugin_lists(after.events) == plugin_lists(again.events)
            &&& recalled(Tally { counts: tally.counts, ..after.tally }, path, fingerprint)
                == (Outcome {
                tally: after.tally,
                events: plugin_lists(after.events),
            })
        }),
{
    let after = judged(tally, validator, path, fingerprint, verdict);
    if known_plugins(tally.cache, path, fingerprint) > 0 {
        match verdict {
            Ok(Validated::Clap(plugins)) if plugins.len() > 0 => {},
            Ok(Validated::Vst3(plugins)) if plugins.len() > 0 => {},
            _ => {
                let format = match known(tally.cache, path, fingerprint) {
                    Some(Known::Clap(_)) => "CLAP"@,
                    _ => "VST3"@,
                };
                let reason = match verdict {
                    Ok(Validated::Clap(_)) => empty_reason("CLAP"@),
                    Ok(Validated::Vst3(_)) => empty_reason("VST3"@),
                    Err(error) => failed_reason(error),
                };
                assert(after.events[0] == ScanEvent::Log(reused_text(format, path, reason)));
                assert(is_reuse(after.events[0]));
                assert(false);
            },
        }
    }
    match verdict {
        Ok(Validated::Clap(plugins)) if plugins.len() > 0 => {
            lemma_lists_of_log_and(
                validated_text(plugins.len(), "CLAP"@, path),
                ScanEvent::ClapPlugins(plugins),
            );
            lemma_lists_of_one(ScanEvent::ClapPlugins(plugins));
        },
        Ok(Validated::Vst3(plugins)) if plugins.len() > 0 => {
            lemma_lists_of_log_and(
                validated_text(plugins.len(), "VST3"@, path),
                ScanEvent::Vst3Plugins(plugins),
            );
            lemma_lists_of_one(ScanEvent::Vst3Plugins(plugins));
        },
        _ => {
            lemma_lists_of_one(after.events[0]);
            assert(after.events =~= seq![after.events[0]]);
        },
    }
}

proof fn lemma_candidate_settles(
    machine: Machine,
    tally: Tally,
    format: PluginFormat,
    path: Seq<u8>,
)
    requires
        knows_spellings(machine),
        reuses_nothing(machine.candidate(tally, format, path).events),
    ensures
        ({
            let after = machine.candidate(tally, format, path).tally.cache;
            &&& is_settled(machine, after, path)
            &&& keeps_entries(machine, tally.cache, after)
        }),
{
    let after = machine.candidate(tally, format, path).tally.cache;
    match (machine.fingerprint)(path) {
        Err(_) => {},
        Ok(fingerprint) => {
            if stale(tally.cache, path, fingerprint, machine.validator) {
                lemma_judged_without_reuse(
                    tally,
                    machine.validator,
                    path,
                    fingerprint,
                    (machine.verdict)(format, path),
                );
            }
        },
    }
    assert forall|q: Seq<u8>| #[trigger] keeps_entry(machine, tally.cache, after, q) by {
        if path_class(q) == path_class(path) && (machine.fingerprint)(q) is Ok && (
        machine.fingerprint)(path) is Ok {
            assert((machine.fingerprint)(q) == (machine.fingerprint)(path));
        }
    }
}

proof fn lemma_candidates_settle(
    machine: Machine,
    so_far: Outcome,
    format: PluginFormat,
    paths: Seq<Seq<u8>>,
)
    requires
        knows_spellings(machine),
        reuses_nothing(machine.all_candidates(so_far, format, paths).events),
    ensures
        ({
            let after = machine.all_candidates(so_far, format, paths).tally.cache;
            &&& forall|i: int|
                0 <= i < paths.len() ==> is_settled(machine, after, #[trigger] paths[i])
            &&& keeps_entries(machine, so_far.tally.cache, after)
        }),
    decreases paths.len(),
{
    if paths.len() > 0 {
        let next = machine.candidate(so_far.tally, format, paths[0]);
        let then = Outcome { tally: next.tally, events: so_far.events + next.events };
        let all = machine.all_candidates(so_far, format, paths);
        lemma_candidates_extend(machine, then, format, paths.skip(1));
        lemma_nothing_in_prefix(then.events, all.events);
        lemma_nothing_in_suffix(so_far.events, next.events);
        lemma_candidate_settles(machine, so_far.tally, format, paths[0]);
        lemma_candidates_settle(machine, then, format, paths.skip(1));
        lemma_keeps_on(machine, so_far.tally.cache, next.tally.cache, all.tally.cache);
        assert forall|i: int| 0 <= i < paths.len() implies is_settled(
            machine,
            all.tally.cache,
            #[trigger] paths[i],
        ) by {
            if i > 0 {
                assert(paths.skip(1)[i - 1] == paths[i]);
            } else {
                lemma_keeps_settled(machine, next.tally.cache, all.tally.cache, paths[0]);
            }
        }
    }
}

proof fn lemma_root_settles(machine: Machine, so_far: Outcome, root: Root)
    requires
        knows_spellings(machine),
        root.enabled,
        reuses_nothing(machine.root(so_far, root).events),
    ensures
        is_root_settled(machine, machine.root(so_far, root).tally.cache, root),
        keeps_entries(
            machine,
            so_far.tally.cache,
            machine.root(so_far, root).tally.cache,
        ),
{
    match (machine.candidates)(root) {
        Err(_) => {},
        Ok(found) => {
            let counts = so_far.tally.counts.more_candidates(found.len());
            let counted = Outcome { tally: Tally { counts, ..so_far.tally }, ..so_far };
            lemma_candidates_settle(machine, counted, root.format, found);
        },
    }
}

proof fn lemma_root_stays_settled(
    machine: Machine,
    before: Map<Seq<u8>, Cached>,
    after: Map<Seq<u8>, Cached>,
    root: Root,
)
    requires
        keeps_entries(machine, before, after),
        is_root_settled(machine, before, root),
    ensures
        is_root_settled(machine, after, root),
{
    if root.enabled && (machine.candidates)(root) is Ok {
        let found = (machine.candidates)(root)->Ok_0;
        assert forall|i: int| 0 <= i < found.len() implies is_settled(
            machine,
            after,
            #[trigger] found[i],
        ) by {
            lemma_keeps_settled(machine, before, after, found[i]);
        }
    }
}

proof fn lemma_roots_settle(machine: Machine, so_far: Outcome, roots: Seq<Root>)
    requires
        knows_spellings(machine),
        reuses_nothing(machine.all_roots(so_far, roots).events),
    ensures
        ({
            let after = machine.all_roots(so_far, roots).tally.cache;
            &&& forall|i: int|
                0 <= i < roots.len() ==> is_root_settled(machine, after, #[trigger] roots[i])
            &&& keeps_entries(machine, so_far.tally.cache, after)
        }),
    decreases roots.len(),
{
    if roots.len() > 0 {
        let all = machine.all_roots(so_far, roots);
        let rest = roots.skip(1);
        let next = if roots[0].enabled {
            machine.root(so_far, roots[0])
        } else {
            so_far
        };
        lemma_roots_extend(machine, next, rest);
        lemma_nothing_in_prefix(next.events, all.events);
        if roots[0].enabled {
            lemma_root_settles(machine, so_far, roots[0]);
        }
        lemma_roots_settle(machine, next, rest);
        lemma_keeps_on(machine, so_far.tally.cache, next.tally.cache, all.tally.cache);
        assert forall|i: int| 0 <= i < roots.len() implies is_root_settled(
            machine,
            all.tally.cache,
            #[trigger] roots[i],
        ) by {
            if i > 0 {
                assert(rest[i - 1] == roots[i]);
            } else {
                lemma_root_stays_settled(machine, next.tally.cache, all.tally.cache, roots[0]);
            }
        }
    }
}

/// Whether two scans have counted the same and reported the same plugins.
spec fn agree(first: Outcome, second: Outcome) -> bool {
    &&& first.tally.counts == second.tally.counts
    &&& plugin_lists(first.events) == plugin_lists(second.events)
}

proof fn lemma_candidate_repeats(
    machine: Machine,
    first: Outcome,
    second: Outcome,
    format: PluginFormat,
    path: Seq<u8>,
)
    requires
        knows_spellings(machine),
        reuses_nothing(machine.candidate(first.tally, format, path).events),
        keeps_entries(
            machine,
            machine.candidate(first.tally, format, path).tally.cache,
            second.tally.cache,
        ),
        agree(first, second),
    ensures
        ({
            let one = machine.candidate(first.tally, format, path);
            let two = machine.candidate(second.tally, format, path);
            &&& two.tally.cache == second.tally.cache
            &&& agree(
                Outcome { tally: one.tally, events: first.events + one.events },
                Outcome { tally: two.tally, events: second.events + two.events },
            )
        }),
{
    let one = machine.candidate(first.tally, format, path);
    let two = machine.candidate(second.tally, format, path);
    lemma_candidate_settles(machine, first.tally, format, path);
    assert(keeps_entry(machine, one.tally.cache, second.tally.cache, path));
    lemma_lists_add_up(first.events, one.events);
    lemma_lists_add_up(second.events, two.events);
    match (machine.fingerprint)(path) {
        Err(_) => {},
        Ok(fingerprint) => {
            if stale(first.tally.cache, path, fingerprint, machine.validator) {
                lemma_judged_without_reuse(
                    first.tally,
                    machine.validator,
                    path,
                    fingerprint,
                    (machine.verdict)(format, path),
                );
                if two.events.len() > 0 {
                    lemma_lists_of_one(two.events[0]);
                    assert(two.events =~= seq![two.events[0]]);
                } else {
                    assert(two.events =~= seq![]);
                    lemma_lists_of_one(ScanEvent::Log(seq![]));
                }
            }
        },
    }
}

proof fn lemma_candidates_repeat(
    machine: Machine,
    first: Outcome,
    second: Outcome,
    format: PluginFormat,
    paths: Seq<Seq<u8>>,
)
    requires
        knows_spellings(machine),
        reuses_nothing(machine.all_candidates(first, format, paths).events),
        keeps_entries(
            machine,
            machine.all_candidates(first, format, paths).tally.cache,
            second.tally.cache,
        ),
        agree(first, second),
    ensures
        ({
            let one = machine.all_candidates(first, format, paths);
            let two = machine.all_candidates(second, format, paths);
            two.tally.cache == second.tally.cache && agree(one, two)
        }),
    decreases paths.len(),
{
    if paths.len() > 0 {
        let all = machine.all_candidates(first, format, paths);
        let one = machine.candidate(first.tally, format, paths[0]);
        let two = machine.candidate(second.tally, format, paths[0]);
        let then = Outcome { tally: one.tally, events: first.events + one.events };
        let again = Outcome { tally: two.tally, events: second.events + two.events };
        lemma_candidates_extend(machine, then, format, paths.skip(1));
        lemma_nothing_in_prefix(then.events, all.events);
        lemma_nothing_in_suffix(first.events, one.events);
        lemma_candidates_settle(machine, then, format, paths.skip(1));
        lemma_keeps_on(machine, one.tally.cache, all.tally.cache, second.tally.cache);
        lemma_candidate_repeats(machine, first, second, format, paths[0]);
        lemma_candidates_repeat(machine, then, again, format, paths.skip(1));
    }
}

proof fn lemma_root_repeats(machine: Machine, first: Outcome, second: Outcome, root: Root)
    requires
        knows_spellings(machine),
        reuses_nothing(machine.root(first, root).events),
        keeps_entries(machine, machine.root(first, root).tally.cache, second.tally.cache),
        agree(first, second),
    ensures
        ({
            let one = machine.root(first, root);
            let two = machine.root(second, root);
            two.tally.cache == second.tally.cache && agree(one, two)
        }),
{
    match (machine.candidates)(root) {
        Err(error) => {
            let line = ScanEvent::Log(skipped_text(root.path, error));
            assert(first.events.push(line).drop_last() =~= first.events);
            assert(second.events.push(line).drop_last() =~= second.events);
        },
        Ok(found) => {
            let counts = first.tally.counts.more_candidates(found.len());
            let one = Outcome { tally: Tally { counts, ..first.tally }, ..first };
            let two = Outcome { tally: Tally { counts, ..second.tally }, ..second };
            lemma_candidates_repeat(machine, one, two, root.format, found);
        },
    }
}

proof fn lemma_roots_repeat(
    machine: Machine,
    first: Outcome,
    second: Outcome,
    roots: Seq<Root>,
)
    requires
        knows_spellings(machine),
        reuses_nothing(machine.all_roots(first, roots).events),
        keeps_entries(machine, machine.all_roots(first, roots).tally.cache, second.tally.cache),
        agree(first, second),
    ensures
        ({
            let one = machine.all_roots(first, roots);
            let two = machine.all_roots(second, roots);
            two.tally.cache == second.tally.cache && agree(one, two)
        }),
    decreases roots.len(),
{
    if roots.len() > 0 {
        let rest = roots.skip(1);
        if roots[0].enabled {
            let all = machine.all_roots(first, roots);
            let one = machine.root(first, roots[0]);
            lemma_roots_extend(machine, one, rest);
            lemma_nothing_in_prefix(one.events, all.events);
            lemma_roots_settle(machine, one, rest);
            lemma_keeps_on(machine, one.tally.cache, all.tally.cache, second.tally.cache);
            lemma_root_repeats(machine, first, second, roots[0]);
            lemma_roots_repeat(machine, one, machine.root(second, roots[0]), rest);
        } else {
            lemma_roots_repeat(machine, first, second, rest);
        }
    }
}

/// Whether no candidate that a scan still comes to would be validated, and it asks for what it
/// waits for.
spec fn is_quiet(machine: Machine, cache: Map<Seq<u8>, Cached>, turn: Turn) -> bool {
    let scan = turn.scan;
    let roots_settled = forall|i: int|
        0 <= i < scan.roots.len() ==> is_root_settled(machine, cache, #[trigger] scan.roots[i]);
    match scan.stage {
        ScanStage::Validator => {
            &&& turn.request is FingerprintValidator
            &&& scan.tally.cache == cache
            &&& roots_settled
        },
        ScanStage::Root { .. } => {
            &&& turn.request matches ScanRequest::FindCandidates(root)
            &&& root.enabled
            &&& is_root_settled(machine, cache, root)
            &&& scan.validator == machine.validator
            &&& scan.tally.cache == cache
            &&& roots_settled
        },
        ScanStage::Candidate { pending, .. } => {
            &&& pending.len() > 0
            &&& turn.request == ScanRequest::FingerprintCandidate(pending[0])
            &&& forall|i: int|
                0 <= i < pending.len() ==> is_settled(machine, cache, #[trigger] pending[i])
            &&& scan.validator == machine.validator
            &&& scan.tally.cache == cache
            &&& roots_settled
        },
        ScanStage::Verdict { .. } => false,
        ScanStage::Finished => turn.request is Finish,
    }
}

proof fn lemma_to_root_is_quiet(
    machine: Machine,
    cache: Map<Seq<u8>, Cached>,
    scan: Scan,
    sent: Seq<ScanEvent>,
    events: Seq<ScanEvent>,
)
    requires
        scan.validator == machine.validator,
        scan.tally.cache == cache,
        forall|i: int|
            0 <= i < scan.roots.len() ==> is_root_settled(machine, cache, #[trigger] scan.roots[i]),
    ensures
        is_quiet(machine, cache, Turn { events: sent, ..scan.to_root(events) }),
    decreases scan.roots.len(),
{
    if scan.roots.len() > 0 {
        let rest = scan.roots.skip(1);
        assert forall|i: int| 0 <= i < rest.len() implies is_root_settled(
            machine,
            cache,
            #[trigger] rest[i],
        ) by {
            assert(rest[i] == scan.roots[i + 1]);
        }
        assert(is_root_settled(machine, cache, scan.roots[0]));
        if !scan.roots[0].enabled {
            lemma_to_root_is_quiet(machine, cache, Scan { roots: rest, ..scan }, sent, events);
        }
    }
}

proof fn lemma_to_candidate_is_quiet(
    machine: Machine,
    cache: Map<Seq<u8>, Cached>,
    scan: Scan,
    format: PluginFormat,
    pending: Seq<Seq<u8>>,
    sent: Seq<ScanEvent>,
    events: Seq<ScanEvent>,
)
    requires
        scan.validator == machine.validator,
        scan.tally.cache == cache,
        forall|i: int|
            0 <= i < scan.roots.len() ==> is_root_settled(machine, cache, #[trigger] scan.roots[i]),
        forall|i: int|
            0 <= i < pending.len() ==> is_settled(machine, cache, #[trigger] pending[i]),
    ensures
        is_quiet(
            machine,
            cache,
            Turn { events: sent, ..scan.to_candidate(format, pending, events) },
        ),
{
    lemma_to_root_is_quiet(machine, cache, scan, sent, events);
}

proof fn lemma_run_is_quiet(
    machine: Machine,
    cache: Map<Seq<u8>, Cached>,
    turn: Turn,
    answers: nat,
)
    requires
        is_quiet(machine, cache, turn),
    ensures
        !(machine.run(turn, answers).request is Validate),
    decreases answers,
{
    if answers > 0 {
        let scan = turn.scan;
        let reply = machine.reply(turn.request);
        let after = scan.after(reply);
        let sent = turn.events + after.events;
        match (scan.stage, reply) {
            (ScanStage::Validator, Reply::Validator(fingerprint)) => {
                let known = Scan { validator: fingerprint, ..scan };
                lemma_to_root_is_quiet(machine, cache, known, sent, seq![]);
            },
            (ScanStage::Root { path, .. }, Reply::Candidates(Err(error))) => {
                let line = seq![ScanEvent::Log(skipped_text(path, error))];
                lemma_to_root_is_quiet(machine, cache, scan, sent, line);
            },
            (ScanStage::Root { format, .. }, Reply::Candidates(Ok(found))) => {
                let counts = scan.tally.counts.more_candidates(found.len());
                let counted = Scan { tally: Tally { counts, ..scan.tally }, ..scan };
                lemma_to_candidate_is_quiet(
                    machine,
                    cache,
                    counted,
                    format,
                    found,
                    sent,
                    seq![],
                );
            },
            (ScanStage::Candidate { format, pending }, Reply::Fingerprint(fingerprint)) => {
                let outcome = match fingerprint {
                    Err(error) => skipped(scan.tally, pending[0], error),
                    Ok(print) => recalled(scan.tally, pending[0], print),
                };
                let later = pending.skip(1);
                assert(is_settled(machine, cache, pending[0]));
                assert forall|i: int| 0 <= i < later.len() implies is_settled(
                    machine,
                    cache,
                    #[trigger] later[i],
                ) by {
                    assert(later[i] == pending[i + 1]);
                }
                lemma_to_candidate_is_quiet(
                    machine,
                    cache,
                    Scan { tally: outcome.tally, ..scan },
                    format,
                    later,
                    sent,
                    outcome.events,
                );
            },
            _ => {},
        }
        lemma_run_is_quiet(
            machine,
            cache,
            Turn { events: sent, ..after },
            (answers - 1) as nat,
        );
    }
}

/// A scan that has begun with some cache.
pub open spec fn begun(cache: Map<Seq<u8>, Cached>) -> Outcome {
    Outcome {
        tally: Tally {
            cache,
            counts: Counts { candidates: 0, valid_plugins: 0, invalid_candidates: 0 },
        },
        events: seq![ScanEvent::Log(started_text())],
    }
}

/// On a machine that does not change, a scan that used no cached plugins in place of a verdict is
/// repeated by the next one without the validator: beginning with the cache that the first scan
/// ended with, the second never asks for a validation, reports the same plugins in the same
/// order, and ends with the same counts and the same cache.
pub proof fn law_next_scan_repeats_without_validator(
    machine: Machine,
    roots: Seq<Root>,
    cache: Map<Seq<u8>, Cached>,
)
    requires
        knows_spellings(machine),
        reuses_nothing(machine.all_roots(begun(cache), roots).events),
    ensures
        ({
            let first = machine.all_roots(begun(cache), roots);
            let second = machine.all_roots(begun(first.tally.cache), roots);
            &&& second.tally == first.tally
            &&& plugin_lists(second.events) == plugin_lists(first.events)
            &&& forall|answers: nat|
                !((#[trigger] machine.run(
                    started(roots, first.tally.cache),
                    answers,
                )).request is Validate)
            &&& forall|i: int|
                0 <= i < roots.len() ==> is_root_settled(
                    machine,
                    first.tally.cache,
                    #[trigger] roots[i],
                )
        }),
{
    let first = machine.all_roots(begun(cache), roots);
    let kept = first.tally.cache;
    lemma_roots_settle(machine, begun(cache), roots);
    lemma_roots_repeat(machine, begun(cache), begun(kept), roots);
    assert forall|answers: nat|
        !((#[trigger] machine.run(started(roots, kept), answers)).request is Validate) by {
        lemma_run_is_quiet(machine, kept, started(roots, kept), answers);
    }
}

proof fn lemma_candidates_after(
    machine: Machine,
    tally: Tally,
    sent: Seq<ScanEvent>,
    events: Seq<ScanEvent>,
    format: PluginFormat,
    paths: Seq<Seq<u8>>,
)
    ensures
        ({
            let later = machine.all_candidates(Outcome { tally, events }, format, paths);
            let all = machine.all_candidates(
                Outcome { tally, events: sent + events },
                format,
                paths,
            );
            all.tally == later.tally && all.events == sent + later.events
        }),
    decreases paths.len(),
{
    if paths.len() > 0 {
        let next = machine.candidate(tally, format, paths[0]);
        assert((sent + events) + next.events =~= sent + (events + next.events));
        lemma_candidates_after(
            machine,
            next.tally,
            sent,
            events + next.events,
            format,
            paths.skip(1),
        );
    }
}

proof fn lemma_root_after(
    machine: Machine,
    tally: Tally,
    sent: Seq<ScanEvent>,
    events: Seq<ScanEvent>,
    root: Root,
)
    ensures
        ({
            let later = machine.root(Outcome { tally, events }, root);
            let all = machine.root(Outcome { tally, events: sent + events }, root);
            all.tally == later.tally && all.events == sent + later.events
        }),
{
    match (machine.candidates)(root) {
        Err(error) => {
            let line = ScanEvent::Log(skipped_text(root.path, error));
            assert((sent + events).push(line) =~= sent + events.push(line));
        },
        Ok(found) => {
            let counts = tally.counts.more_candidates(found.len());
            lemma_candidates_after(
                machine,
                Tally { counts, ..tally },
                sent,
                events,
                root.format,
                found,
            );
        },
    }
}

proof fn lemma_roots_after(
    machine: Machine,
    tally: Tally,
    sent: Seq<ScanEvent>,
    events: Seq<ScanEvent>,
    roots: Seq<Root>,
)
    ensures
        ({
            let later = machine.all_roots(Outcome { tally, events }, roots);
            let all = machine.all_roots(Outcome { tally, events: sent + events }, roots);
            all.tally == later.tally && all.events == sent + later.events
        }),
    decreases roots.len(),
{
    if roots.len() > 0 {
        if roots[0].enabled {
            let next = machine.root(Outcome { tally, events }, roots[0]);
            lemma_root_after(machine, tally, sent, events, roots[0]);
            lemma_roots_after(machine, next.tally, sent, next.events, roots.skip(1));
        } else {
            lemma_roots_after(machine, tally, sent, events, roots.skip(1));
        }
    }
}

/// A root that cannot be listed changes nothing else: a scan comes to the same counts and the same
/// cache as one without that root, and sends the same events with one more line, on the root that
/// was skipped.
pub proof fn law_unreadable_root_changes_nothing_else(
    machine: Machine,
    so_far: Outcome,
    roots: Seq<Root>,
    at: int,
)
    requires
        0 <= at < roots.len(),
        roots[at].enabled,
        (machine.candidates)(roots[at]) is Err,
    ensures
        ({
            let with = machine.all_roots(so_far, roots);
            let without = machine.all_roots(so_far, roots.remove(at));
            let error = (machine.candidates)(roots[at])->Err_0;
            let line = ScanEvent::Log(skipped_text(roots[at].path, error));
            &&& with.tally == without.tally
            &&& exists|place: int|
                0 <= place <= without.events.len() && with.events
                    == #[trigger] without.events.insert(place, line)
        }),
    decreases roots.len(),
{
    let with = machine.all_roots(so_far, roots);
    let without = machine.all_roots(so_far, roots.remove(at));
    let error = (machine.candidates)(roots[at])->Err_0;
    let line = ScanEvent::Log(skipped_text(roots[at].path, error));
    let rest = roots.skip(1);
    if at == 0 {
        assert(roots.remove(0) =~= rest);
        let nothing = Seq::<ScanEvent>::empty();
        let sent = so_far.events;
        assert(sent + nothing =~= sent);
        assert(sent.push(line) + nothing =~= sent.push(line));
        lemma_roots_after(machine, so_far.tally, sent, nothing, rest);
        lemma_roots_after(machine, so_far.tally, sent.push(line), nothing, rest);
        let later = machine.all_roots(Outcome { tally: so_far.tally, events: nothing }, rest);
        assert(sent.push(line) + later.events =~= (sent + later.events).insert(
            sent.len() as int,
            line,
        ));
        assert(with.events == without.events.insert(sent.len() as int, line));
    } else {
        assert(roots.remove(at)[0] == roots[0]);
        assert(roots.remove(at).skip(1) =~= rest.remove(at - 1));
        assert(rest[at - 1] == roots[at]);
        let next = if roots[0].enabled {
            machine.root(so_far, roots[0])
        } else {
            so_far
        };
        law_unreadable_root_changes_nothing_else(machine, next, rest, at - 1);
    }
}

} // verus!
