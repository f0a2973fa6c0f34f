//! Reusable background plugin scanner.

pub mod cache;
pub mod candidates;
pub mod judge;
pub mod laws;
pub mod reported;
pub mod saving;
pub mod state;
pub mod validator;
pub mod worker;

use std::path::PathBuf;
use vstd::prelude::*;

use crate::clap::{clap_plugins, ClapPlugin, ClapPluginMetadata};
use crate::paths::{buffer_bytes, path_from_text};
use crate::vst3::{vst3_plugins, Vst3Plugin, Vst3PluginMetadata};

pub use self::cache::{
    CachedCandidateResult, CachedPluginCandidate, PluginCandidateFingerprint, PluginScanCache,
};
pub use self::candidates::candidates_for_root;
pub use self::judge::reuse_cached_valid_candidate;
pub use self::state::PluginScanState;
pub use self::worker::scan_worker;

verus! {

/// Maximum number of concurrent validator subprocesses.
pub const PLUGIN_VALIDATOR_CONCURRENCY: usize = 1;

/// Maximum scanner events the app should process in one UI update.
pub const PLUGIN_SCAN_UI_EVENT_BUDGET: usize = 16;

/// Plugin binary format.
#[derive(Debug, Clone, Copy, PartialEq, Eq, Structural)]
pub enum PluginFormat {
    /// CLAP plugin.
    Clap,
    /// VST3 plugin.
    Vst3,
}

/// One plugin search root.
#[derive(Debug, PartialEq, Eq)]
pub struct PluginSearchPath {
    /// Plugin format to search for.
    pub format: PluginFormat,
    /// Filesystem search root.
    pub path: PathBuf,
    /// Whether this root participates in scans.
    pub enabled: bool,
}

impl Default for PluginSearchPath {
    fn default() -> (root: Self)
        ensures
            root.format == PluginFormat::Clap,
            buffer_bytes(root.path) == Seq::<u8>::empty(),
            root.enabled,
    {
        let path = path_from_text(String::new());
        PluginSearchPath { format: PluginFormat::Clap, path, enabled: true }
    }
}

/// Scan counters.
#[derive(Debug, Clone, Copy, PartialEq, Eq, Structural)]
pub struct PluginScanSummary {
    /// Candidate binaries seen.
    pub candidates: usize,
    /// Valid plugin descriptors found.
    pub valid_plugins: usize,
    /// Invalid candidates.
    pub invalid_candidates: usize,
}

/// The contents of a [`PluginScanSummary`].
#[verifier::ext_equal]
pub struct Counts {
    pub candidates: nat,
    pub valid_plugins: nat,
    pub invalid_candidates: nat,
}

impl View for PluginScanSummary {
    type V = Counts;

    open spec fn view(&self) -> Counts {
        Counts {
            candidates: self.candidates as nat,
            valid_plugins: self.valid_plugins as nat,
            invalid_candidates: self.invalid_candidates as nat,
        }
    }
}

impl Default for PluginScanSummary {
    fn default() -> (summary: Self)
        ensures
            summary.candidates == 0,
            summary.valid_plugins == 0,
            summary.invalid_candidates == 0,
    {
        PluginScanSummary { candidates: 0, valid_plugins: 0, invalid_candidates: 0 }
    }
}

/// Background scanner event.
#[derive(Debug)]
pub enum PluginScanEvent {
    /// Human-readable progress line.
    Log(String),
    /// Validated CLAP plugin metadata.
    ClapPlugins(Vec<ClapPluginMetadata>),
    /// Validated VST3 plugin metadata.
    Vst3Plugins(Vec<Vst3PluginMetadata>),
    /// Scan completion.
    Finished {
        /// Scan summary.
        summary: PluginScanSummary,
        /// Updated cache.
        cache: PluginScanCache,
    },
}

/// The contents of a [`PluginScanEvent`].
pub enum ScanEvent {
    Log(Seq<char>),
    ClapPlugins(Seq<ClapPlugin>),
    Vst3Plugins(Seq<Vst3Plugin>),
    Finished { counts: Counts, cache: Map<Seq<u8>, cache::Cached> },
}

impl View for PluginScanEvent {
    type V = ScanEvent;

    open spec fn view(&self) -> ScanEvent {
        match self {
            PluginScanEvent::Log(line) => ScanEvent::Log(line@),
            PluginScanEvent::ClapPlugins(plugins) => ScanEvent::ClapPlugins(clap_plugins(plugins@)),
            PluginScanEvent::Vst3Plugins(plugins) => ScanEvent::Vst3Plugins(vst3_plugins(plugins@)),
            PluginScanEvent::Finished { summary, cache } => ScanEvent::Finished {
                counts: summary@,
                cache: cache@,
            },
        }
    }
}

/// The contents of each event of a list.
pub open spec fn all_events(events: Seq<PluginScanEvent>) -> Seq<ScanEvent> {
    events.map_values(|event: PluginScanEvent| event@)
}

/// The contents of an event are its own: its line, its plugins one by one, or its counts and
/// cache.
pub proof fn law_event_is_seen_in_full(event: PluginScanEvent)
    ensures
        match event {
            PluginScanEvent::Log(line) => event@ == ScanEvent::Log(line@),
            PluginScanEvent::ClapPlugins(plugins) => event@ matches ScanEvent::ClapPlugins(list)
                && list.len() == plugins@.len() && forall|i: int|
                0 <= i < list.len() ==> #[trigger] list[i] == plugins@[i]@,
            PluginScanEvent::Vst3Plugins(plugins) => event@ matches ScanEvent::Vst3Plugins(list)
                && list.len() == plugins@.len() && forall|i: int|
                0 <= i < list.len() ==> #[trigger] list[i] == plugins@[i]@,
            PluginScanEvent::Finished { summary, cache } => event@ matches ScanEvent::Finished {
                counts,
                cache: held,
            } && counts == summary@ && held == cache@,
        },
{
}

/// The contents of a summary are its own counts.
pub proof fn law_summary_is_seen_in_full(summary: PluginScanSummary)
    ensures
        summary@.candidates == summary.candidates,
        summary@.valid_plugins == summary.valid_plugins,
        summary@.invalid_candidates == summary.invalid_candidates,
{
}

} // verus!
