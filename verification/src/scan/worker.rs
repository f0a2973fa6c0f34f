//! A whole scan, one request to the outside at a time.
//!
//! [`ScanWorker`] decides what is read from the file system, what is validated, and which events
//! are sent. Whoever drives it sends the events of each [`ScanStep`] in order, then carries out
//! its [`ScanAction`] and hands the answer back as a [`ScanReply`].

use std::path::PathBuf;
use vstd::prelude::*;
use vstd::string::*;

use super::cache::{stale, Cached};
use super::judge::{
    judged, recalled, skipped, skipped_line, skipped_text, Ledger, Outcome, Tally,
};
use super::validator::{verdict_view, Validated, ValidatedPlugins};
use super::{
    all_events, Counts, PluginCandidateFingerprint, PluginFormat, PluginScanCache,
    PluginScanEvent, PluginScanSummary, PluginSearchPath, ScanEvent, PLUGIN_VALIDATOR_CONCURRENCY,
};
use crate::paths::{all_bytes, buffer_bytes, paths_view};
use crate::text::{decimal_text, push_decimal};

verus! {

/// What a scan asks for.
pub enum ScanAction {
    /// Read the fingerprint of the validator.
    FingerprintValidator,
    /// Find the candidates under a search root.
    FindCandidates(PluginSearchPath),
    /// Read the fingerprint of a candidate.
    FingerprintCandidate(PathBuf),
    /// Run the validator on a candidate.
    Validate {
        /// The format to validate it as.
        format: PluginFormat,
        /// The candidate.
        path: PathBuf,
    },
    /// Nothing: the scan is over.
    Finish,
    /// The answer to the last request, which the given one was not.
    Wait,
}

/// The answer to a request of a scan.
pub enum ScanReply {
    /// The fingerprint of the validator, if it could be read.
    Validator(Option<PluginCandidateFingerprint>),
    /// The candidates under a root.
    Candidates(Result<Vec<PathBuf>, String>),
    /// The fingerprint of a candidate.
    Fingerprint(Result<PluginCandidateFingerprint, String>),
    /// What validation of a candidate came to.
    Verdict(Result<ValidatedPlugins, String>),
}

/// What a scan does at one point.
pub struct ScanStep {
    /// The events to send, in order.
    pub events: Vec<PluginScanEvent>,
    /// What to do after that.
    pub action: ScanAction,
}

/// The contents of a search root.
pub struct Root {
    pub format: PluginFormat,
    pub path: Seq<u8>,
    pub enabled: bool,
}

impl View for PluginSearchPath {
    type V = Root;

    open spec fn view(&self) -> Root {
        Root { format: self.format, path: buffer_bytes(self.path), enabled: self.enabled }
    }
}

impl Clone for PluginSearchPath {
    fn clone(&self) -> (copy: Self)
        ensures
            copy@ == self@,
    {
        PluginSearchPath {
            format: self.format,
            path: self.path.as_path().to_path_buf(),
            enabled: self.enabled,
        }
    }
}

/// The contents of each search root of a list.
pub open spec fn all_roots(roots: Seq<PluginSearchPath>) -> Seq<Root> {
    roots.map_values(|root: PluginSearchPath| root@)
}

/// The contents of a [`ScanAction`].
pub enum ScanRequest {
    FingerprintValidator,
    FindCandidates(Root),
    FingerprintCandidate(Seq<u8>),
    Validate { format: PluginFormat, path: Seq<u8> },
    Finish,
    Wait,
}

impl View for ScanAction {
    type V = ScanRequest;

    open spec fn view(&self) -> ScanRequest {
        match self {
            ScanAction::FingerprintValidator => ScanRequest::FingerprintValidator,
            ScanAction::FindCandidates(root) => ScanRequest::FindCandidates(root@),
            ScanAction::FingerprintCandidate(path) => ScanRequest::FingerprintCandidate(
                buffer_bytes(*path),
            ),
            ScanAction::Validate { format, path } => ScanRequest::Validate {
                format: *format,
                path: buffer_bytes(*path),
            },
            ScanAction::Finish => ScanRequest::Finish,
            ScanAction::Wait => ScanRequest::Wait,
        }
    }
}

/// The contents of a [`ScanReply`].
pub enum Reply {
    Validator(Option<PluginCandidateFingerprint>),
    Candidates(Result<Seq<Seq<u8>>, Seq<char>>),
    Fingerprint(Result<PluginCandidateFingerprint, Seq<char>>),
    Verdict(Result<Validated, Seq<char>>),
}

/// The contents of a fingerprint that may be missing.
pub open spec fn fingerprint_view(
    fingerprint: Result<PluginCandidateFingerprint, String>,
) -> Result<PluginCandidateFingerprint, Seq<char>> {
    match fingerprint {
        Ok(print) => Ok(print),
        Err(error) => Err(error@),
    }
}

impl View for ScanReply {
    type V = Reply;

    open spec fn view(&self) -> Reply {
        match self {
            ScanReply::Validator(fingerprint) => Reply::Validator(*fingerprint),
            ScanReply::Candidates(found) => Reply::Candidates(paths_view(*found)),
            ScanReply::Fingerprint(fingerprint) => Reply::Fingerprint(
                fingerprint_view(*fingerprint),
            ),
            ScanReply::Verdict(verdict) => Reply::Verdict(verdict_view(*verdict)),
        }
    }
}

/// What a scan waits for.
enum Stage {
    Validator,
    Root { format: PluginFormat, path: PathBuf },
    /// The fingerprint of `found[at]`.
    Candidate { format: PluginFormat, found: Vec<PathBuf>, at: usize },
    /// The verdict on `found[at]`.
    Verdict {
        format: PluginFormat,
        found: Vec<PathBuf>,
        at: usize,
        fingerprint: PluginCandidateFingerprint,
    },
    Finished,
}

/// What a scan waits for. The candidate at hand is the first of those that are pending.
#[verifier::ext_equal]
pub enum ScanStage {
    Validator,
    Root { format: PluginFormat, path: Seq<u8> },
    Candidate { format: PluginFormat, pending: Seq<Seq<u8>> },
    Verdict {
        format: PluginFormat,
        pending: Seq<Seq<u8>>,
        fingerprint: PluginCandidateFingerprint,
    },
    Finished,
}

impl View for Stage {
    type V = ScanStage;

    closed spec fn view(&self) -> ScanStage {
        match self {
            Stage::Validator => ScanStage::Validator,
            Stage::Root { format, path } => ScanStage::Root {
                format: *format,
                path: buffer_bytes(*path),
            },
            Stage::Candidate { format, found, at } => ScanStage::Candidate {
                format: *format,
                pending: all_bytes(found@).skip(*at as int),
            },
            Stage::Verdict { format, found, at, fingerprint } => ScanStage::Verdict {
                format: *format,
                pending: all_bytes(found@).skip(*at as int),
                fingerprint: *fingerprint,
            },
            Stage::Finished => ScanStage::Finished,
        }
    }
}

/// What a background scan holds.
struct Core {
    roots: Vec<PluginSearchPath>,
    next: usize,
    validator: Option<PluginCandidateFingerprint>,
    ledger: Ledger,
    stage: Stage,
}

/// A background scan.
pub struct ScanWorker {
    core: Core,
}

impl View for ScanWorker {
    type V = Scan;

    closed spec fn view(&self) -> Scan {
        self.core@
    }
}

/// The contents of a [`ScanWorker`].
#[verifier::ext_equal]
pub struct Scan {
    /// The roots that are still to be searched.
    pub roots: Seq<Root>,
    pub validator: Option<PluginCandidateFingerprint>,
    pub tally: Tally,
    pub stage: ScanStage,
}

/// A scan that has sent some events and made a request.
#[verifier::ext_equal]
pub struct Turn {
    pub scan: Scan,
    pub events: Seq<ScanEvent>,
    pub request: ScanRequest,
}

impl View for Core {
    type V = Scan;

    closed spec fn view(&self) -> Scan {
        Scan {
            roots: all_roots(self.roots@).skip(self.next as int),
            validator: self.validator,
            tally: self.ledger@,
            stage: self.stage@,
        }
    }
}

/// The line that a scan begins with.
pub open spec fn started_text() -> Seq<char> {
    "Scanning plugins with "@ + decimal_text(PLUGIN_VALIDATOR_CONCURRENCY as nat)
        + " validator process"@
}

/// The line that a scan ends with.
pub open spec fn finished_text(counts: Counts) -> Seq<char> {
    "Plugin scan finished: "@ + decimal_text(counts.candidates) + " candidate(s), "@ + decimal_text(
        counts.valid_plugins,
    ) + " plugin(s), "@ + decimal_text(counts.invalid_candidates) + " invalid"@
}

/// The events that a scan ends with.
pub open spec fn finishing(tally: Tally) -> Seq<ScanEvent> {
    seq![
        ScanEvent::Log(finished_text(tally.counts)),
        ScanEvent::Finished { counts: tally.counts, cache: tally.cache },
    ]
}

/// A scan that begins.
pub open spec fn started(roots: Seq<Root>, cache: Map<Seq<u8>, Cached>) -> Turn {
    Turn {
        scan: Scan {
            roots,
            validator: None,
            tally: Tally {
                cache,
                counts: Counts { candidates: 0, valid_plugins: 0, invalid_candidates: 0 },
            },
            stage: ScanStage::Validator,
        },
        events: seq![ScanEvent::Log(started_text())],
        request: ScanRequest::FingerprintValidator,
    }
}

impl Scan {
    /// Turns to the next enabled root, or finishes if there is none.
    pub open spec fn to_root(self, events: Seq<ScanEvent>) -> Turn
        decreases self.roots.len(),
    {
        if self.roots.len() == 0 {
            Turn {
                scan: Scan {
                    tally: Tally { cache: Map::empty(), ..self.tally },
                    stage: ScanStage::Finished,
                    ..self
                },
                events: events + finishing(self.tally),
                request: ScanRequest::Finish,
            }
        } else if self.roots[0].enabled {
            Turn {
                scan: Scan {
                    roots: self.roots.skip(1),
                    stage: ScanStage::Root {
                        format: self.roots[0].format,
                        path: self.roots[0].path,
                    },
                    ..self
                },
                events,
                request: ScanRequest::FindCandidates(self.roots[0]),
            }
        } else {
            (Scan { roots: self.roots.skip(1), ..self }).to_root(events)
        }
    }

    /// Turns to the first of these candidates, or to the next root if there is none.
    pub open spec fn to_candidate(
        self,
        format: PluginFormat,
        pending: Seq<Seq<u8>>,
        events: Seq<ScanEvent>,
    ) -> Turn {
        if pending.len() == 0 {
            self.to_root(events)
        } else {
            Turn {
                scan: Scan { stage: ScanStage::Candidate { format, pending }, ..self },
                events,
                request: ScanRequest::FingerprintCandidate(pending[0]),
            }
        }
    }

    /// Turns to what follows the candidate at hand, with what became of it.
    pub open spec fn past_candidate(
        self,
        format: PluginFormat,
        pending: Seq<Seq<u8>>,
        outcome: Outcome,
    ) -> Turn {
        (Scan { tally: outcome.tally, ..self }).to_candidate(
            format,
            pending.skip(1),
            outcome.events,
        )
    }

    /// What a scan does with an answer.
    pub open spec fn after(self, reply: Reply) -> Turn {
        match (self.stage, reply) {
            (ScanStage::Validator, Reply::Validator(fingerprint)) => (Scan {
                validator: fingerprint,
                ..self
            }).to_root(seq![]),
            (ScanStage::Root { path, .. }, Reply::Candidates(Err(error))) => self.to_root(
                seq![ScanEvent::Log(skipped_text(path, error))],
            ),
            (ScanStage::Root { format, .. }, Reply::Candidates(Ok(found))) => (Scan {
                tally: Tally {
                    counts: self.tally.counts.more_candidates(found.len()),
                    ..self.tally
                },
                ..self
            }).to_candidate(format, found, seq![]),
            (
                ScanStage::Candidate { format, pending },
                Reply::Fingerprint(Err(error)),
            ) => self.past_candidate(format, pending, skipped(self.tally, pending[0], error)),
            (ScanStage::Candidate { format, pending }, Reply::Fingerprint(Ok(fingerprint))) => if stale(
                self.tally.cache,
                pending[0],
                fingerprint,
                self.validator,
            ) {
                Turn {
                    scan: Scan {
                        stage: ScanStage::Verdict { format, pending, fingerprint },
                        ..self
                    },
                    events: seq![],
                    request: ScanRequest::Validate { format, path: pending[0] },
                }
            } else {
                self.past_candidate(
                    format,
                    pending,
                    recalled(self.tally, pending[0], fingerprint),
                )
            },
            (
                ScanStage::Verdict { format, pending, fingerprint },
                Reply::Verdict(verdict),
            ) => self.past_candidate(
                format,
                pending,
                judged(self.tally, self.validator, pending[0], fingerprint, verdict),
            ),
            _ => Turn {
                scan: self,
                events: seq![],
                request: if self.stage is Finished {
                    ScanRequest::Finish
                } else {
                    ScanRequest::Wait
                },
            },
        }
    }

    /// Whether the counters can hold what follows from an answer.
    pub open spec fn has_room_for(self, reply: Reply) -> bool {
        self.after(reply).scan.tally.counts.fits()
    }

    /// Whether the scan is at a candidate when it waits for something about one.
    pub open spec fn is_sound(self) -> bool {
        match self.stage {
            ScanStage::Candidate { pending, .. } => pending.len() > 0,
            ScanStage::Verdict { pending, .. } => pending.len() > 0,
            _ => true,
        }
    }
}

/// Returns the line that a scan begins with.
pub(crate) fn started_line() -> (line: String)
    ensures
        line@ == started_text(),
{
    let mut line = "Scanning plugins with ".to_owned();
    push_decimal(&mut line, PLUGIN_VALIDATOR_CONCURRENCY as u64);
    line.append(" validator process");
    line
}

/// Returns the line that a scan ends with.
pub(crate) fn finished_line(summary: &PluginScanSummary) -> (line: String)
    ensures
        line@ == finished_text(summary@),
{
    let mut line = "Plugin scan finished: ".to_owned();
    push_decimal(&mut line, summary.candidates as u64);
    line.append(" candidate(s), ");
    push_decimal(&mut line, summary.valid_plugins as u64);
    line.append(" plugin(s), ");
    push_decimal(&mut line, summary.invalid_candidates as u64);
    line.append(" invalid");
    line
}

/// Starts to scan search roots for plugins.
pub fn scan_worker(search_paths: Vec<PluginSearchPath>, cache: PluginScanCache) -> (r: (
    ScanWorker,
    ScanStep,
))
    ensures
        ({
            let turn = started(all_roots(search_paths@), cache@);
            &&& r.0@ == turn.scan
            &&& all_events(r.1.events@) == turn.events
            &&& r.1.action@ == turn.request
        }),
        r.0@.is_sound(),
{
    let mut events: Vec<PluginScanEvent> = Vec::new();
    events.push(PluginScanEvent::Log(started_line()));
    let core = Core {
        roots: search_paths,
        next: 0,
        validator: None,
        ledger: Ledger { cache, summary: PluginScanSummary::default() },
        stage: Stage::Validator,
    };
    assert(core@.roots =~= all_roots(search_paths@));
    assert(all_events(events@) =~= seq![ScanEvent::Log(started_text())]);
    (ScanWorker { core }, ScanStep { events, action: ScanAction::FingerprintValidator })
}

impl Core {
    /// Whether the positions in the lists lie in them.
    spec fn wf(&self) -> bool {
        &&& self.next <= self.roots@.len()
        &&& match self.stage {
            Stage::Candidate { found, at, .. } => at < found@.len(),
            Stage::Verdict { found, at, .. } => at < found@.len(),
            _ => true,
        }
    }

    /// Nothing to scan.
    fn idle() -> (core: Self)
        ensures
            core.wf(),
    {
        Core {
            roots: Vec::new(),
            next: 0,
            validator: None,
            ledger: Ledger {
                cache: PluginScanCache::default(),
                summary: PluginScanSummary::default(),
            },
            stage: Stage::Finished,
        }
    }

    /// Turns to the next enabled root, or finishes if there is none.
    fn to_root(&mut self, events: Vec<PluginScanEvent>) -> (step: ScanStep)
        requires
            old(self).wf(),
        ensures
            final(self).wf(),
            ({
                let turn = old(self)@.to_root(all_events(events@));
                &&& final(self)@ == turn.scan
                &&& all_events(step.events@) == turn.events
                &&& step.action@ == turn.request
            }),
    {
        let ghost goal = self@.to_root(all_events(events@));
        while self.next < self.roots.len()
            invariant
                self.wf(),
                goal == old(self)@.to_root(all_events(events@)),
                goal == self@.to_root(all_events(events@)),
            decreases self.roots@.len() - self.next,
        {
            let ghost before = self@;
            let at = self.next;
            self.next = at + 1;
            let root = &self.roots[at];
            proof {
                assert(before.roots[0] == root@);
                assert(self@.roots =~= before.roots.skip(1));
                assert(self@ == Scan { roots: before.roots.skip(1), ..before });
            }
            if root.enabled {
                let request = root.clone();
                self.stage = Stage::Root {
                    format: root.format,
                    path: root.path.as_path().to_path_buf(),
                };
                return ScanStep { events, action: ScanAction::FindCandidates(request) };
            }
        }
        let ghost sent = events@;
        let mut events = events;
        let summary = self.ledger.summary;
        let line = finished_line(&summary);
        let mut cache = PluginScanCache::default();
        core::mem::swap(&mut cache, &mut self.ledger.cache);
        events.push(PluginScanEvent::Log(line));
        events.push(PluginScanEvent::Finished { summary, cache });
        self.stage = Stage::Finished;
        assert(all_events(events@) =~= all_events(sent) + seq![
            events@[sent.len() as int]@,
            events@[sent.len() + 1int]@,
        ]);
        ScanStep { events, action: ScanAction::Finish }
    }

    /// Turns to the candidate at some position, or to the next root if there is none there.
    fn to_candidate(
        &mut self,
        format: PluginFormat,
        found: Vec<PathBuf>,
        at: usize,
        events: Vec<PluginScanEvent>,
    ) -> (step: ScanStep)
        requires
            old(self).wf(),
            at <= found@.len(),
        ensures
            final(self).wf(),
            ({
                let turn = old(self)@.to_candidate(
                    format,
                    all_bytes(found@).skip(at as int),
                    all_events(events@),
                );
                &&& final(self)@ == turn.scan
                &&& all_events(step.events@) == turn.events
                &&& step.action@ == turn.request
            }),
    {
        if at < found.len() {
            let action = ScanAction::FingerprintCandidate(found[at].as_path().to_path_buf());
            self.stage = Stage::Candidate { format, found, at };
            ScanStep { events, action }
        } else {
            self.to_root(events)
        }
    }

    /// Returns whether the counters can hold what follows from an answer.
    fn has_room(&self, reply: &ScanReply) -> (room: bool)
        requires
            self.wf(),
        ensures
            room == self@.has_room_for(reply@),
    {
        proof {
            lemma_counts_after(self@, reply@);
        }
        let summary = &self.ledger.summary;
        match (&self.stage, reply) {
            (Stage::Root { .. }, ScanReply::Candidates(Ok(found))) => found.len() <= usize::MAX
                - summary.candidates,
            (
                Stage::Candidate { .. },
                ScanReply::Fingerprint(Err(_)),
            ) => summary.invalid_candidates < usize::MAX,
            (Stage::Candidate { found, at, .. }, ScanReply::Fingerprint(Ok(fingerprint))) => {
                let path = found[*at].as_path();
                assert(all_bytes(found@).skip(*at as int)[0] == buffer_bytes(found@[*at as int]));
                if self.ledger.cache.is_stale_for_validator(path, *fingerprint, self.validator) {
                    true
                } else {
                    let known = self.ledger.count_known(path, *fingerprint);
                    if known > 0 {
                        known <= usize::MAX - summary.valid_plugins
                    } else {
                        summary.invalid_candidates < usize::MAX
                    }
                }
            },
            (Stage::Verdict { found, at, fingerprint, .. }, ScanReply::Verdict(verdict)) => {
                let path = found[*at].as_path();
                assert(all_bytes(found@).skip(*at as int)[0] == buffer_bytes(found@[*at as int]));
                let fresh = match verdict {
                    Ok(ValidatedPlugins::Clap(plugins)) => plugins.len(),
                    Ok(ValidatedPlugins::Vst3(plugins)) => plugins.len(),
                    Err(_) => 0,
                };
                if fresh > 0 {
                    fresh <= usize::MAX - summary.valid_plugins
                } else {
                    let known = self.ledger.count_known(path, *fingerprint);
                    if known > 0 {
                        known <= usize::MAX - summary.valid_plugins
                    } else {
                        summary.invalid_candidates < usize::MAX
                    }
                }
            },
            _ => true,
        }
    }

    /// Takes the answer to the last request.
    fn resume(&mut self, reply: ScanReply) -> (step: ScanStep)
        requires
            old(self).wf(),
            old(self)@.has_room_for(reply@),
        ensures
            final(self).wf(),
            ({
                let turn = old(self)@.after(reply@);
                &&& final(self)@ == turn.scan
                &&& all_events(step.events@) == turn.events
                &&& step.action@ == turn.request
            }),
    {
        let ghost before = self@;
        let mut events: Vec<PluginScanEvent> = Vec::new();
        assert(all_events(events@) =~= seq![]);
        proof {
            lemma_counts_after(before, reply@);
        }
        let mut stage = Stage::Finished;
        core::mem::swap(&mut stage, &mut self.stage);
        match (stage, reply) {
            (Stage::Validator, ScanReply::Validator(fingerprint)) => {
                self.validator = fingerprint;
                proof {
                    lemma_to_root_ignores_stage(
                        Scan { validator: fingerprint, ..before },
                        ScanStage::Finished,
                        seq![],
                    );
                }
                self.to_root(events)
            },
            (Stage::Root { path, .. }, ScanReply::Candidates(Err(error))) => {
                let line = skipped_line(path.as_path(), error.as_str());
                events.push(PluginScanEvent::Log(line));
                proof {
                    let sent = seq![ScanEvent::Log(line@)];
                    assert(all_events(events@) =~= sent);
                    lemma_to_root_ignores_stage(before, ScanStage::Finished, sent);
                }
                self.to_root(events)
            },
            (Stage::Root { format, .. }, ScanReply::Candidates(Ok(found))) => {
                self.ledger.summary.candidates = self.ledger.summary.candidates + found.len();
                proof {
                    assert(all_bytes(found@).skip(0) =~= all_bytes(found@));
                    lemma_to_root_ignores_stage(
                        Scan {
                            tally: Tally {
                                counts: before.tally.counts.more_candidates(found@.len()),
                                ..before.tally
                            },
                            ..before
                        },
                        ScanStage::Finished,
                        seq![],
                    );
                }
                self.to_candidate(format, found, 0, events)
            },
            (
                Stage::Candidate { format, found, at },
                ScanReply::Fingerprint(Err(error)),
            ) => {
                let ghost pending = all_bytes(found@).skip(at as int);
                let ghost outcome = skipped(before.tally, pending[0], error@);
                self.ledger.skip(found[at].as_path(), error.as_str(), &mut events);
                proof {
                    assert(all_events(events@) =~= outcome.events);
                    assert(pending.skip(1) =~= all_bytes(found@).skip(at + 1));
                    lemma_to_root_ignores_stage(
                        Scan { tally: outcome.tally, ..before },
                        ScanStage::Finished,
                        outcome.events,
                    );
                }
                assert(at < found.len());
                self.to_candidate(format, found, at + 1, events)
            },
            (Stage::Candidate { format, found, at }, ScanReply::Fingerprint(Ok(fingerprint))) => {
                let ghost pending = all_bytes(found@).skip(at as int);
                let path = found[at].as_path();
                if self.ledger.cache.is_stale_for_validator(path, fingerprint, self.validator) {
                    let action = ScanAction::Validate { format, path: path.to_path_buf() };
                    self.stage = Stage::Verdict { format, found, at, fingerprint };
                    return ScanStep { events, action };
                }
                let ghost outcome = recalled(before.tally, pending[0], fingerprint);
                self.ledger.recall(path, fingerprint, &mut events);
                proof {
                    assert(all_events(events@) =~= outcome.events);
                    assert(pending.skip(1) =~= all_bytes(found@).skip(at + 1));
                    lemma_to_root_ignores_stage(
                        Scan { tally: outcome.tally, ..before },
                        ScanStage::Finished,
                        outcome.events,
                    );
                }
                assert(at < found.len());
                self.to_candidate(format, found, at + 1, events)
            },
            (Stage::Verdict { format, found, at, fingerprint }, ScanReply::Verdict(verdict)) => {
                let ghost pending = all_bytes(found@).skip(at as int);
                let ghost outcome = judged(
                    before.tally,
                    before.validator,
                    pending[0],
                    fingerprint,
                    verdict_view(verdict),
                );
                let validator = self.validator;
                self.ledger.judge(
                    validator,
                    found[at].as_path(),
                    fingerprint,
                    verdict,
                    &mut events,
                );
                proof {
                    assert(all_events(events@) =~= outcome.events);
                    assert(pending.skip(1) =~= all_bytes(found@).skip(at + 1));
                    lemma_to_root_ignores_stage(
                        Scan { tally: outcome.tally, ..before },
                        ScanStage::Finished,
                        outcome.events,
                    );
                }
                assert(at < found.len());
                self.to_candidate(format, found, at + 1, events)
            },
            (Stage::Finished, _) => ScanStep { events, action: ScanAction::Finish },
            (stage, _) => {
                self.stage = stage;
                ScanStep { events, action: ScanAction::Wait }
            },
        }
    }
}

impl ScanWorker {
    #[verifier::type_invariant]
    spec fn is_well_formed(self) -> bool {
        self.core.wf()
    }

    /// Returns whether the counters can hold what follows from an answer.
    pub fn has_room(&self, reply: &ScanReply) -> (room: bool)
        ensures
            room == self@.has_room_for(reply@),
    {
        proof {
            use_type_invariant(self);
        }
        self.core.has_room(reply)
    }

    /// Takes the answer to the last request.
    pub fn resume(&mut self, reply: ScanReply) -> (step: ScanStep)
        requires
            old(self)@.has_room_for(reply@),
        ensures
            ({
                let turn = old(self)@.after(reply@);
                &&& final(self)@ == turn.scan
                &&& all_events(step.events@) == turn.events
                &&& step.action@ == turn.request
            }),
            final(self)@.is_sound(),
    {
        proof {
            use_type_invariant(&*self);
        }
        let mut core = Core::idle();
        core::mem::swap(&mut core, &mut self.core);
        let step = core.resume(reply);
        self.core = core;
        step
    }

    /// Takes the answer to the last request if the counters can hold what follows from it, and
    /// changes nothing otherwise.
    pub fn try_resume(&mut self, reply: ScanReply) -> (step: Option<ScanStep>)
        ensures
            match step {
                Some(s) => {
                    let turn = old(self)@.after(reply@);
                    &&& old(self)@.has_room_for(reply@)
                    &&& final(self)@ == turn.scan
                    &&& all_events(s.events@) == turn.events
                    &&& s.action@ == turn.request
                    &&& final(self)@.is_sound()
                },
                None => !old(self)@.has_room_for(reply@) && *final(self) == *old(self),
            },
    {
        if self.has_room(&reply) {
            Some(self.resume(reply))
        } else {
            None
        }
    }
}

proof fn lemma_to_root_keeps_counts(scan: Scan, events: Seq<ScanEvent>)
    ensures
        scan.to_root(events).scan.tally.counts == scan.tally.counts,
    decreases scan.roots.len(),
{
    if scan.roots.len() > 0 && !scan.roots[0].enabled {
        lemma_to_root_keeps_counts(Scan { roots: scan.roots.skip(1), ..scan }, events);
    }
}

proof fn lemma_to_root_ignores_stage(scan: Scan, stage: ScanStage, events: Seq<ScanEvent>)
    ensures
        (Scan { stage, ..scan }).to_root(events) == scan.to_root(events),
    decreases scan.roots.len(),
{
    if scan.roots.len() > 0 && !scan.roots[0].enabled {
        lemma_to_root_ignores_stage(
            Scan { roots: scan.roots.skip(1), ..scan },
            stage,
            events,
        );
    }
}

/// What the counts are after an answer.
spec fn counts_after(scan: Scan, reply: Reply) -> Counts {
    match (scan.stage, reply) {
        (
            ScanStage::Root { .. },
            Reply::Candidates(Ok(found)),
        ) => scan.tally.counts.more_candidates(found.len()),
        (ScanStage::Candidate { pending, .. }, Reply::Fingerprint(Err(error))) => skipped(
            scan.tally,
            pending[0],
            error,
        ).tally.counts,
        (ScanStage::Candidate { pending, .. }, Reply::Fingerprint(Ok(fingerprint))) => if stale(
            scan.tally.cache,
            pending[0],
            fingerprint,
            scan.validator,
        ) {
            scan.tally.counts
        } else {
            recalled(scan.tally, pending[0], fingerprint).tally.counts
        },
        (ScanStage::Verdict { pending, fingerprint, .. }, Reply::Verdict(verdict)) => judged(
            scan.tally,
            scan.validator,
            pending[0],
            fingerprint,
            verdict,
        ).tally.counts,
        _ => scan.tally.counts,
    }
}

proof fn lemma_counts_after(scan: Scan, reply: Reply)
    ensures
        scan.after(reply).scan.tally.counts == counts_after(scan, reply),
{
    let turn = scan.after(reply);
    match (scan.stage, reply) {
        (ScanStage::Validator, Reply::Validator(fingerprint)) => {
            lemma_to_root_keeps_counts(Scan { validator: fingerprint, ..scan }, seq![]);
        },
        (ScanStage::Root { path, .. }, Reply::Candidates(Err(error))) => {
            lemma_to_root_keeps_counts(scan, seq![ScanEvent::Log(skipped_text(path, error))]);
        },
        (ScanStage::Root { .. }, Reply::Candidates(Ok(found))) => {
            let tally = Tally {
                counts: scan.tally.counts.more_candidates(found.len()),
                ..scan.tally
            };
            lemma_to_root_keeps_counts(Scan { tally, ..scan }, seq![]);
        },
        (ScanStage::Candidate { pending, .. }, Reply::Fingerprint(Err(error))) => {
            let outcome = skipped(scan.tally, pending[0], error);
            lemma_to_root_keeps_counts(Scan { tally: outcome.tally, ..scan }, outcome.events);
        },
        (ScanStage::Candidate { pending, .. }, Reply::Fingerprint(Ok(fingerprint))) => {
            let outcome = recalled(scan.tally, pending[0], fingerprint);
            lemma_to_root_keeps_counts(Scan { tally: outcome.tally, ..scan }, outcome.events);
        },
        (ScanStage::Verdict { pending, fingerprint, .. }, Reply::Verdict(verdict)) => {
            let outcome = judged(scan.tally, scan.validator, pending[0], fingerprint, verdict);
            lemma_to_root_keeps_counts(Scan { tally: outcome.tally, ..scan }, outcome.events);
        },
        _ => {},
    }
}

/// An answer to something else than what was asked for last changes nothing, sends nothing and is
/// not counted; a scan that is over stays over.
pub proof fn law_odd_answer_changes_nothing(scan: Scan, reply: Reply)
    requires
        match scan.stage {
            ScanStage::Validator => !(reply is Validator),
            ScanStage::Root { .. } => !(reply is Candidates),
            ScanStage::Candidate { .. } => !(reply is Fingerprint),
            ScanStage::Verdict { .. } => !(reply is Verdict),
            ScanStage::Finished => true,
        },
    ensures
        scan.after(reply).scan == scan,
        scan.after(reply).events.len() == 0,
        scan.stage is Finished ==> scan.after(reply).request is Finish,
        !(scan.stage is Finished) ==> scan.after(reply).request is Wait,
{
}

} // verus!
