//! What becomes of one candidate: which events it gives rise to, how it is counted, and what the
//! cache remembers of it.

use std::path::Path;
use vstd::prelude::*;
use vstd::string::*;

use super::cache::{checked, known, Cached, Known};
use super::validator::{verdict_view, Validated, ValidatedPlugins};
use super::{
    all_events, CachedCandidateResult, Counts, PluginCandidateFingerprint, PluginScanCache,
    PluginScanEvent, PluginScanSummary, ScanEvent,
};
use crate::clap::{self, clap_plugins, ClapPlugin, ClapPluginMetadata};
use crate::paths::{display, path_bytes, path_text};
use crate::text::{decimal_text, push_decimal};
use crate::vst3::{self, vst3_plugins, Vst3Plugin, Vst3PluginMetadata};

verus! {

impl Counts {
    /// These counts with further candidates.
    pub open spec fn more_candidates(self, n: nat) -> Counts {
        Counts { candidates: self.candidates + n, ..self }
    }

    /// These counts with further plugins.
    pub open spec fn more_plugins(self, n: nat) -> Counts {
        Counts { valid_plugins: self.valid_plugins + n, ..self }
    }

    /// These counts with one more candidate that holds no plugins.
    pub open spec fn one_invalid(self) -> Counts {
        Counts { invalid_candidates: self.invalid_candidates + 1, ..self }
    }

    /// Whether a [`PluginScanSummary`] can hold these counts.
    pub open spec fn fits(self) -> bool {
        &&& self.candidates <= usize::MAX
        &&& self.valid_plugins <= usize::MAX
        &&& self.invalid_candidates <= usize::MAX
    }
}

/// What a scan has gathered.
#[verifier::ext_equal]
pub struct Tally {
    pub cache: Map<Seq<u8>, Cached>,
    pub counts: Counts,
}

/// What a scan has gathered, and the events that it has sent on the way.
#[verifier::ext_equal]
pub struct Outcome {
    pub tally: Tally,
    pub events: Seq<ScanEvent>,
}

/// The line on a path that could not be read.
pub open spec fn skipped_text(path: Seq<u8>, error: Seq<char>) -> Seq<char> {
    "Plugin scan skipped "@ + path_text(path) + ": "@ + error
}

/// The line on a candidate whose cached plugins are used again.
pub open spec fn reused_text(format: Seq<char>, path: Seq<u8>, reason: Seq<char>) -> Seq<char> {
    "Reusing cached "@ + format + " plugin metadata for "@ + path_text(path) + " ("@ + reason + ")"@
}

/// The line on a candidate that holds plugins.
pub open spec fn validated_text(n: nat, format: Seq<char>, path: Seq<u8>) -> Seq<char> {
    "Validated "@ + decimal_text(n) + " "@ + format + " plugin(s) from "@ + path_text(path)
}

/// The line on a candidate that holds no plugins.
pub open spec fn empty_text(format: Seq<char>, path: Seq<u8>) -> Seq<char> {
    "No "@ + format + " plugins found in "@ + path_text(path)
}

/// The line on a candidate that was refused.
pub open spec fn invalid_text(path: Seq<u8>, error: Seq<char>) -> Seq<char> {
    "Invalid plugin "@ + path_text(path) + ": "@ + error
}

/// Why cached plugins are used where the validator found none.
pub open spec fn empty_reason(format: Seq<char>) -> Seq<char> {
    "validator returned no "@ + format + " plugins"@
}

/// Why cached plugins are used where validation failed.
pub open spec fn failed_reason(error: Seq<char>) -> Seq<char> {
    "validation failed: "@ + error
}

/// How many plugins a cache knows of a candidate that has this fingerprint.
pub open spec fn known_plugins(
    cache: Map<Seq<u8>, Cached>,
    path: Seq<u8>,
    fingerprint: PluginCandidateFingerprint,
) -> nat {
    match known(cache, path, fingerprint) {
        Some(Known::Clap(plugins)) => plugins.len(),
        Some(Known::Vst3(plugins)) => plugins.len(),
        _ => 0,
    }
}

/// A candidate that could not be read is invalid, and said to be skipped.
pub open spec fn skipped(tally: Tally, path: Seq<u8>, error: Seq<char>) -> Outcome {
    Outcome {
        tally: Tally { counts: tally.counts.one_invalid(), ..tally },
        events: seq![ScanEvent::Log(skipped_text(path, error))],
    }
}

/// An unchanged candidate is what the cache says it is.
pub open spec fn recalled(
    tally: Tally,
    path: Seq<u8>,
    fingerprint: PluginCandidateFingerprint,
) -> Outcome {
    match known(tally.cache, path, fingerprint) {
        Some(Known::Clap(plugins)) => Outcome {
            tally: Tally { counts: tally.counts.more_plugins(plugins.len()), ..tally },
            events: seq![ScanEvent::ClapPlugins(plugins)],
        },
        Some(Known::Vst3(plugins)) => Outcome {
            tally: Tally { counts: tally.counts.more_plugins(plugins.len()), ..tally },
            events: seq![ScanEvent::Vst3Plugins(plugins)],
        },
        _ => Outcome {
            tally: Tally { counts: tally.counts.one_invalid(), ..tally },
            events: seq![],
        },
    }
}

/// A candidate that no longer validates keeps the plugins that the cache knows of it, if its file
/// is the same.
pub open spec fn reused(
    tally: Tally,
    path: Seq<u8>,
    fingerprint: PluginCandidateFingerprint,
    reason: Seq<char>,
) -> Option<Outcome> {
    match known(tally.cache, path, fingerprint) {
        Some(Known::Clap(plugins)) => Some(
            Outcome {
                tally: Tally { counts: tally.counts.more_plugins(plugins.len()), ..tally },
                events: seq![
                    ScanEvent::Log(reused_text("CLAP"@, path, reason)),
                    ScanEvent::ClapPlugins(plugins),
                ],
            },
        ),
        Some(Known::Vst3(plugins)) => Some(
            Outcome {
                tally: Tally { counts: tally.counts.more_plugins(plugins.len()), ..tally },
                events: seq![
                    ScanEvent::Log(reused_text("VST3"@, path, reason)),
                    ScanEvent::Vst3Plugins(plugins),
                ],
            },
        ),
        _ => None,
    }
}

/// A candidate that validation found no plugins in: its cached plugins are used again, or else
/// it is invalid and remembered as that.
pub open spec fn rejected(
    tally: Tally,
    validator: Option<PluginCandidateFingerprint>,
    path: Seq<u8>,
    fingerprint: PluginCandidateFingerprint,
    reason: Seq<char>,
    line: Seq<char>,
) -> Outcome {
    match reused(tally, path, fingerprint, reason) {
        Some(outcome) => outcome,
        None => Outcome {
            tally: Tally {
                cache: checked(tally.cache, path, fingerprint, validator, false, seq![], seq![]),
                counts: tally.counts.one_invalid(),
            },
            events: seq![ScanEvent::Log(line)],
        },
    }
}

/// What validation makes of a candidate.
pub open spec fn judged(
    tally: Tally,
    validator: Option<PluginCandidateFingerprint>,
    path: Seq<u8>,
    fingerprint: PluginCandidateFingerprint,
    verdict: Result<Validated, Seq<char>>,
) -> Outcome {
    match verdict {
        Ok(Validated::Clap(plugins)) => if plugins.len() == 0 {
            rejected(
                tally,
                validator,
                path,
                fingerprint,
                empty_reason("CLAP"@),
                empty_text("CLAP"@, path),
            )
        } else {
            Outcome {
                tally: Tally {
                    cache: checked(
                        tally.cache,
                        path,
                        fingerprint,
                        validator,
                        true,
                        plugins,
                        seq![],
                    ),
                    counts: tally.counts.more_plugins(plugins.len()),
                },
                events: seq![
                    ScanEvent::Log(validated_text(plugins.len(), "CLAP"@, path)),
                    ScanEvent::ClapPlugins(plugins),
                ],
            }
        },
        Ok(Validated::Vst3(plugins)) => if plugins.len() == 0 {
            rejected(
                tally,
                validator,
                path,
                fingerprint,
                empty_reason("VST3"@),
                empty_text("VST3"@, path),
            )
        } else {
            Outcome {
                tally: Tally {
                    cache: checked(
                        tally.cache,
                        path,
                        fingerprint,
                        validator,
                        true,
                        seq![],
                        plugins,
                    ),
                    counts: tally.counts.more_plugins(plugins.len()),
                },
                events: seq![
                    ScanEvent::Log(validated_text(plugins.len(), "VST3"@, path)),
                    ScanEvent::Vst3Plugins(plugins),
                ],
            }
        },
        Err(error) => rejected(
            tally,
            validator,
            path,
            fingerprint,
            failed_reason(error),
            invalid_text(path, error),
        ),
    }
}

/// Returns the line on a path that could not be read.
pub(crate) fn skipped_line(path: &Path, error: &str) -> (line: String)
    ensures
        line@ == skipped_text(path_bytes(path), error@),
{
    let mut line = "Plugin scan skipped ".to_owned();
    line.append(display(path).as_str());
    line.append(": ");
    line.append(error);
    line
}

/// Returns the line on a candidate whose cached plugins are used again.
fn reused_line(format: &str, path: &Path, reason: &str) -> (line: String)
    ensures
        line@ == reused_text(format@, path_bytes(path), reason@),
{
    let mut line = "Reusing cached ".to_owned();
    line.append(format);
    line.append(" plugin metadata for ");
    line.append(display(path).as_str());
    line.append(" (");
    line.append(reason);
    line.append(")");
    line
}

/// Returns the line on a candidate that holds plugins.
pub(crate) fn validated_line(n: usize, format: &str, path: &Path) -> (line: String)
    ensures
        line@ == validated_text(n as nat, format@, path_bytes(path)),
{
    let mut line = "Validated ".to_owned();
    push_decimal(&mut line, n as u64);
    line.append(" ");
    line.append(format);
    line.append(" plugin(s) from ");
    line.append(display(path).as_str());
    line
}

/// Returns the line on a candidate that holds no plugins.
fn empty_line(format: &str, path: &Path) -> (line: String)
    ensures
        line@ == empty_text(format@, path_bytes(path)),
{
    let mut line = "No ".to_owned();
    line.append(format);
    line.append(" plugins found in ");
    line.append(display(path).as_str());
    line
}

/// Returns the line on a candidate that was refused.
pub(crate) fn invalid_line(path: &Path, error: &str) -> (line: String)
    ensures
        line@ == invalid_text(path_bytes(path), error@),
{
    let mut line = "Invalid plugin ".to_owned();
    line.append(display(path).as_str());
    line.append(": ");
    line.append(error);
    line
}

/// Returns why cached plugins are used where the validator found none.
fn empty_reason_line(format: &str) -> (line: String)
    ensures
        line@ == empty_reason(format@),
{
    let mut line = "validator returned no ".to_owned();
    line.append(format);
    line.append(" plugins");
    line
}

/// Returns why cached plugins are used where validation failed.
fn failed_reason_line(error: &str) -> (line: String)
    ensures
        line@ == failed_reason(error@),
{
    let mut line = "validation failed: ".to_owned();
    line.append(error);
    line
}

/// Sends the cached plugins of a candidate once more, if its file is the same and it held any.
/// The events are appended to those that are to be sent. Returns whether it did.
pub fn reuse_cached_valid_candidate(
    cache: &PluginScanCache,
    candidate: &Path,
    fingerprint: PluginCandidateFingerprint,
    summary: &mut PluginScanSummary,
    events: &mut Vec<PluginScanEvent>,
    reason: &str,
) -> (did: bool)
    requires
        reused(
            Tally { cache: cache@, counts: old(summary)@ },
            path_bytes(candidate),
            fingerprint,
            reason@,
        ) matches Some(outcome) ==> outcome.tally.counts.fits(),
    ensures
        match reused(
            Tally { cache: cache@, counts: old(summary)@ },
            path_bytes(candidate),
            fingerprint,
            reason@,
        ) {
            None => !did && *final(summary) == *old(summary) && *final(events) == *old(events),
            Some(outcome) => {
                &&& did
                &&& final(summary)@ == outcome.tally.counts
                &&& all_events(final(events)@) == all_events(old(events)@) + outcome.events
            },
        },
{
    let ghost sent = events@;
    match cache.cached_candidate(candidate, fingerprint) {
        Some(CachedCandidateResult::ValidClapPlugins(plugins)) => {
            summary.valid_plugins = summary.valid_plugins + plugins.len();
            events.push(PluginScanEvent::Log(reused_line("CLAP", candidate, reason)));
            events.push(PluginScanEvent::ClapPlugins(plugins));
            assert(all_events(events@) =~= all_events(sent) + seq![
                events@[sent.len() as int]@,
                events@[sent.len() + 1int]@,
            ]);
            true
        },
        Some(CachedCandidateResult::ValidVst3Plugins(plugins)) => {
            summary.valid_plugins = summary.valid_plugins + plugins.len();
            events.push(PluginScanEvent::Log(reused_line("VST3", candidate, reason)));
            events.push(PluginScanEvent::Vst3Plugins(plugins));
            assert(all_events(events@) =~= all_events(sent) + seq![
                events@[sent.len() as int]@,
                events@[sent.len() + 1int]@,
            ]);
            true
        },
        _ => false,
    }
}

/// A scan's cache and counters.
#[derive(Debug)]
pub struct Ledger {
    /// What is known of candidates.
    pub cache: PluginScanCache,
    /// What was counted.
    pub summary: PluginScanSummary,
}

impl View for Ledger {
    type V = Tally;

    open spec fn view(&self) -> Tally {
        Tally { cache: self.cache@, counts: self.summary@ }
    }
}

impl Ledger {
    /// Returns how many plugins the cache knows of a candidate that has this fingerprint.
    pub fn count_known(&self, path: &Path, fingerprint: PluginCandidateFingerprint) -> (n: usize)
        ensures
            n == known_plugins(self@.cache, path_bytes(path), fingerprint),
    {
        match self.cache.entries.get(path) {
            None => 0,
            Some(entry) => {
                if entry.fingerprint != fingerprint || !entry.valid {
                    0
                } else if entry.clap_plugins.len() > 0 {
                    entry.clap_plugins.len()
                } else {
                    entry.vst3_plugins.len()
                }
            },
        }
    }

    /// Records a candidate that could not be read.
    pub fn skip(&mut self, path: &Path, error: &str, events: &mut Vec<PluginScanEvent>)
        requires
            skipped(old(self)@, path_bytes(path), error@).tally.counts.fits(),
        ensures
            ({
                let outcome = skipped(old(self)@, path_bytes(path), error@);
                &&& final(self)@ == outcome.tally
                &&& all_events(final(events)@) == all_events(old(events)@) + outcome.events
            }),
    {
        let ghost sent = events@;
        self.summary.invalid_candidates = self.summary.invalid_candidates + 1;
        events.push(PluginScanEvent::Log(skipped_line(path, error)));
        assert(all_events(events@) =~= all_events(sent) + seq![events@[sent.len() as int]@]);
    }

    /// Records an unchanged candidate by what the cache knows of it.
    pub fn recall(
        &mut self,
        path: &Path,
        fingerprint: PluginCandidateFingerprint,
        events: &mut Vec<PluginScanEvent>,
    )
        requires
            recalled(old(self)@, path_bytes(path), fingerprint).tally.counts.fits(),
        ensures
            ({
                let outcome = recalled(old(self)@, path_bytes(path), fingerprint);
                &&& final(self)@ == outcome.tally
                &&& all_events(final(events)@) == all_events(old(events)@) + outcome.events
            }),
    {
        let ghost sent = events@;
        match self.cache.cached_candidate(path, fingerprint) {
            Some(CachedCandidateResult::ValidClapPlugins(plugins)) => {
                self.summary.valid_plugins = self.summary.valid_plugins + plugins.len();
                events.push(PluginScanEvent::ClapPlugins(plugins));
                assert(all_events(events@) =~= all_events(sent) + seq![
                    events@[sent.len() as int]@,
                ]);
            },
            Some(CachedCandidateResult::ValidVst3Plugins(plugins)) => {
                self.summary.valid_plugins = self.summary.valid_plugins + plugins.len();
                events.push(PluginScanEvent::Vst3Plugins(plugins));
                assert(all_events(events@) =~= all_events(sent) + seq![
                    events@[sent.len() as int]@,
                ]);
            },
            _ => {
                self.summary.invalid_candidates = self.summary.invalid_candidates + 1;
                assert(all_events(events@) =~= all_events(sent) + seq![]);
            },
        }
    }

    /// Records a candidate that validation found no plugins in.
    fn reject(
        &mut self,
        validator: Option<PluginCandidateFingerprint>,
        path: &Path,
        fingerprint: PluginCandidateFingerprint,
        reason: &str,
        line: String,
        events: &mut Vec<PluginScanEvent>,
    )
        requires
            rejected(
                old(self)@,
                validator,
                path_bytes(path),
                fingerprint,
                reason@,
                line@,
            ).tally.counts.fits(),
        ensures
            ({
                let outcome = rejected(
                    old(self)@,
                    validator,
                    path_bytes(path),
                    fingerprint,
                    reason@,
                    line@,
                );
                &&& final(self)@ == outcome.tally
                &&& all_events(final(events)@) == all_events(old(events)@) + outcome.events
            }),
    {
        let ghost sent = events@;
        if reuse_cached_valid_candidate(
            &self.cache,
            path,
            fingerprint,
            &mut self.summary,
            events,
            reason,
        ) {
            return ;
        }
        self.summary.invalid_candidates = self.summary.invalid_candidates + 1;
        let none_clap: Vec<ClapPluginMetadata> = Vec::new();
        let none_vst3: Vec<Vst3PluginMetadata> = Vec::new();
        assert(clap_plugins(none_clap@) =~= Seq::<ClapPlugin>::empty());
        assert(vst3_plugins(none_vst3@) =~= Seq::<Vst3Plugin>::empty());
        self.cache.mark_checked(
            path.to_path_buf(),
            fingerprint,
            validator,
            false,
            none_clap,
            none_vst3,
        );
        events.push(PluginScanEvent::Log(line));
        assert(all_events(events@) =~= all_events(sent) + seq![events@[sent.len() as int]@]);
    }

    /// Records what validation made of a candidate.
    pub fn judge(
        &mut self,
        validator: Option<PluginCandidateFingerprint>,
        path: &Path,
        fingerprint: PluginCandidateFingerprint,
        verdict: Result<ValidatedPlugins, String>,
        events: &mut Vec<PluginScanEvent>,
    )
        requires
            judged(
                old(self)@,
                validator,
                path_bytes(path),
                fingerprint,
                verdict_view(verdict),
            ).tally.counts.fits(),
        ensures
            ({
                let outcome = judged(
                    old(self)@,
                    validator,
                    path_bytes(path),
                    fingerprint,
                    verdict_view(verdict),
                );
                &&& final(self)@ == outcome.tally
                &&& all_events(final(events)@) == all_events(old(events)@) + outcome.events
            }),
            verdict matches Ok(ValidatedPlugins::Clap(plugins)) ==> plugins@.len() > 0 ==> {
                &&& final(self).summary.valid_plugins == old(self).summary.valid_plugins
                    + plugins@.len()
                &&& final(events)@.last()@ == ScanEvent::ClapPlugins(clap_plugins(plugins@))
            },
            verdict matches Ok(ValidatedPlugins::Vst3(plugins)) ==> plugins@.len() > 0 ==> {
                &&& final(self).summary.valid_plugins == old(self).summary.valid_plugins
                    + plugins@.len()
                &&& final(events)@.last()@ == ScanEvent::Vst3Plugins(vst3_plugins(plugins@))
            },
    {
        let ghost sent = events@;
        match verdict {
            Ok(ValidatedPlugins::Clap(plugins)) => {
                if plugins.is_empty() {
                    let reason = empty_reason_line("CLAP");
                    let line = empty_line("CLAP", path);
                    self.reject(validator, path, fingerprint, reason.as_str(), line, events);
                    return ;
                }
                self.summary.valid_plugins = self.summary.valid_plugins + plugins.len();
                let none: Vec<Vst3PluginMetadata> = Vec::new();
                assert(vst3_plugins(none@) =~= Seq::<Vst3Plugin>::empty());
                self.cache.mark_checked(
                    path.to_path_buf(),
                    fingerprint,
                    validator,
                    true,
                    clap::clone_plugins(&plugins),
                    none,
                );
                events.push(PluginScanEvent::Log(validated_line(plugins.len(), "CLAP", path)));
                events.push(PluginScanEvent::ClapPlugins(plugins));
                assert(all_events(events@) =~= all_events(sent) + seq![
                    events@[sent.len() as int]@,
                    events@[sent.len() + 1int]@,
                ]);
            },
            Ok(ValidatedPlugins::Vst3(plugins)) => {
                if plugins.is_empty() {
                    let reason = empty_reason_line("VST3");
                    let line = empty_line("VST3", path);
                    self.reject(validator, path, fingerprint, reason.as_str(), line, events);
                    return ;
                }
                self.summary.valid_plugins = self.summary.valid_plugins + plugins.len();
                let none: Vec<ClapPluginMetadata> = Vec::new();
                assert(clap_plugins(none@) =~= Seq::<ClapPlugin>::empty());
                self.cache.mark_checked(
                    path.to_path_buf(),
                    fingerprint,
                    validator,
                    true,
                    none,
                    vst3::clone_plugins(&plugins),
                );
                events.push(PluginScanEvent::Log(validated_line(plugins.len(), "VST3", path)));
                events.push(PluginScanEvent::Vst3Plugins(plugins));
                assert(all_events(events@) =~= all_events(sent) + seq![
                    events@[sent.len() as int]@,
                    events@[sent.len() + 1int]@,
                ]);
            },
            Err(error) => {
                let reason = failed_reason_line(error.as_str());
                let line = invalid_line(path, error.as_str());
                self.reject(validator, path, fingerprint, reason.as_str(), line, events);
            },
        }
    }
}

/// Counting adds what is counted to its own count and leaves the others; counts fit as long as
/// each of them is a number that the machine can hold.
pub proof fn law_counts_add_what_is_counted(counts: Counts, n: nat)
    ensures
        counts.more_candidates(n).candidates == counts.candidates + n,
        counts.more_candidates(n).valid_plugins == counts.valid_plugins,
        counts.more_candidates(n).invalid_candidates == counts.invalid_candidates,
        counts.more_plugins(n).candidates == counts.candidates,
        counts.more_plugins(n).valid_plugins == counts.valid_plugins + n,
        counts.more_plugins(n).invalid_candidates == counts.invalid_candidates,
        counts.one_invalid().candidates == counts.candidates,
        counts.one_invalid().valid_plugins == counts.valid_plugins,
        counts.one_invalid().invalid_candidates == counts.invalid_candidates + 1,
        counts.fits() <==> counts.candidates <= usize::MAX && counts.valid_plugins <= usize::MAX
            && counts.invalid_candidates <= usize::MAX,
{
}

/// As many plugins are known of a candidate as the cache has of it.
pub proof fn law_known_plugins_are_counted(
    cache: Map<Seq<u8>, Cached>,
    path: Seq<u8>,
    fingerprint: PluginCandidateFingerprint,
)
    ensures
        known(cache, path, fingerprint) matches Some(Known::Clap(plugins)) ==> known_plugins(
            cache,
            path,
            fingerprint,
        ) == plugins.len(),
        known(cache, path, fingerprint) matches Some(Known::Vst3(plugins)) ==> known_plugins(
            cache,
            path,
            fingerprint,
        ) == plugins.len(),
        known(cache, path, fingerprint) is None || known(cache, path, fingerprint) == Some(
            Known::Invalid,
        ) ==> known_plugins(cache, path, fingerprint) == 0,
{
}

} // verus!
