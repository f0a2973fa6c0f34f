//! Background scanner of a host that runs CLAP plugins only.

pub mod cache;
pub mod laws;
pub mod reported;
pub mod state;
pub mod validator;
pub mod worker;

use std::path::PathBuf;
use vstd::prelude::*;
use vstd::string::*;

use crate::clap::{self, clap_plugins, ClapPlugin, ClapPluginMetadata};
use crate::paths::{
    buffer_bytes, path_from_text, paths_view, renamed, sorted_outcome, with_file_name, DirListing,
    Listing,
};
use crate::scan::{Counts, PluginFormat, PluginScanSummary, PluginSearchPath};

pub use self::cache::{cache_path, PluginCandidateFingerprint, PluginScanCache};
pub use self::state::PluginScanState;
pub use self::worker::scan_worker;

verus! {

/// Background scanner event.
#[derive(Debug)]
pub enum PluginScanEvent {
    /// Human-readable progress line.
    Log(String),
    /// Validated CLAP plugin metadata.
    ClapPlugins(Vec<ClapPluginMetadata>),
    /// Scan completion.
    Finished {
        /// Scan summary.
        summary: PluginScanSummary,
        /// Updated cache.
        cache: PluginScanCache,
    },
}

/// The contents of a [`PluginScanEvent`].
pub enum ScanEvent {
    Log(Seq<char>),
    ClapPlugins(Seq<ClapPlugin>),
    Finished { counts: Counts, cache: Map<Seq<u8>, cache::Cached> },
}

impl View for PluginScanEvent {
    type V = ScanEvent;

    open spec fn view(&self) -> ScanEvent {
        match self {
            PluginScanEvent::Log(line) => ScanEvent::Log(line@),
            PluginScanEvent::ClapPlugins(plugins) => ScanEvent::ClapPlugins(clap_plugins(plugins@)),
            PluginScanEvent::Finished { summary, cache } => ScanEvent::Finished {
                counts: summary@,
                cache: cache@,
            },
        }
    }
}

/// The contents of each event of a list.
pub open spec fn all_events(events: Seq<PluginScanEvent>) -> Seq<ScanEvent> {
    events.map_values(|event: PluginScanEvent| event@)
}

/// Whether a root of some format with this listing may have these candidates.
pub open spec fn may_find(
    format: PluginFormat,
    listing: Listing,
    found: Result<Seq<Seq<u8>>, Seq<char>>,
) -> bool {
    match format {
        PluginFormat::Clap => sorted_outcome(clap::found_under(listing), found),
        PluginFormat::Vst3 => found == Ok::<Seq<Seq<u8>>, Seq<char>>(seq![]),
    }
}

/// Returns the candidates under a search root, given its listing. A VST3 root has none, whatever
/// is in it.
pub fn candidates_for_root(root: &PluginSearchPath, listing: DirListing) -> (found: Result<
    Vec<PathBuf>,
    String,
>)
    ensures
        match root.format {
            PluginFormat::Clap => sorted_outcome(
                clap::found_under(listing@),
                paths_view(found),
            ),
            PluginFormat::Vst3 => paths_view(found) == Ok::<Seq<Seq<u8>>, Seq<char>>(seq![]),
        },
        may_find(root.format, listing@, paths_view(found)),
{
    match root.format {
        PluginFormat::Clap => clap::candidate_paths(listing),
        PluginFormat::Vst3 => {
            let found: Result<Vec<PathBuf>, String> = Ok(Vec::new());
            assert(paths_view(found)->Ok_0 =~= seq![]);
            found
        },
    }
}

/// The path that stands in for that of the running program where it is not known.
pub open spec fn program_fallback() -> Seq<char> {
    "lilypalooza"@
}

/// The file name of the validator on a platform whose programs have this suffix.
pub open spec fn validator_name(exe_suffix: Seq<char>) -> Seq<char> {
    "lilypalooza-plugin-validator"@ + exe_suffix
}

/// The path of the validator beside the running program, where that is known.
pub open spec fn validator_file(current_exe: Option<Seq<u8>>, exe_suffix: Seq<char>) -> Seq<u8> {
    let exe = match current_exe {
        Some(exe) => exe,
        None => vstd::utf8::encode_utf8(program_fallback()),
    };
    renamed(exe, validator_name(exe_suffix))
}

/// Returns the path of the validator: it stands beside the running program.
pub fn validator_path(current_exe: Option<PathBuf>, exe_suffix: &str) -> (path: PathBuf)
    ensures
        buffer_bytes(path) == renamed(
            match current_exe {
                Some(exe) => buffer_bytes(exe),
                None => vstd::utf8::encode_utf8(program_fallback()),
            },
            validator_name(exe_suffix@),
        ),
        buffer_bytes(path) == validator_file(
            match current_exe {
                Some(exe) => Some(buffer_bytes(exe)),
                None => None,
            },
            exe_suffix@,
        ),
{
    let exe = match current_exe {
        Some(exe) => exe,
        None => path_from_text("lilypalooza".to_owned()),
    };
    let name = "lilypalooza-plugin-validator".to_owned().concat(exe_suffix);
    with_file_name(exe.as_path(), name.as_str())
}

/// The validator stands beside the running program, under its own name with the platform's suffix,
/// and where the program is not known, beside one of the host's name.
pub proof fn law_validator_stands_beside_the_program(exe: Seq<u8>, exe_suffix: Seq<char>)
    ensures
        validator_file(Some(exe), exe_suffix) == renamed(
            exe,
            "lilypalooza-plugin-validator"@ + exe_suffix,
        ),
        validator_file(None, exe_suffix) == renamed(
            vstd::utf8::encode_utf8("lilypalooza"@),
            "lilypalooza-plugin-validator"@ + exe_suffix,
        ),
{
}

/// The contents of an event are its own: its line, its plugins one by one, or its counts and
/// cache.
pub proof fn law_event_is_seen_in_full(event: PluginScanEvent)
    ensures
        match event {
            PluginScanEvent::Log(line) => event@ == ScanEvent::Log(line@),
            PluginScanEvent::ClapPlugins(plugins) => event@ matches ScanEvent::ClapPlugins(list)
                && list.len() == plugins@.len() && forall|i: int|
                0 <= i < list.len() ==> #[trigger] list[i] == plugins@[i]@,
            PluginScanEvent::Finished { summary, cache } => event@ matches ScanEvent::Finished {
                counts,
                cache: held,
            } && counts == summary@ && held == cache@,
        },
{
}

/// A CLAP root whose entries can all be read has exactly the candidates among them, one that
/// cannot be listed is reported with its error, and a VST3 root has no candidates whatever is in
/// it.
pub proof fn law_root_has_its_candidates(
    entries: Seq<Result<Seq<u8>, Seq<char>>>,
    error: Seq<char>,
    found: Result<Seq<Seq<u8>>, Seq<char>>,
    listing: Listing,
    path: Seq<u8>,
)
    requires
        forall|i: int| 0 <= i < entries.len() ==> (#[trigger] entries[i]) is Ok,
    ensures
        may_find(PluginFormat::Clap, Listing::Entries(entries), found) ==> found is Ok && (
        found->Ok_0.contains(path) <==> clap::is_candidate(path) && entries.contains(Ok(path))),
        may_find(PluginFormat::Clap, Listing::Unreadable(error), found) ==> found == Err::<
            Seq<Seq<u8>>,
            Seq<char>,
        >(error),
        may_find(PluginFormat::Vst3, listing, found) ==> found is Ok && found->Ok_0.len() == 0,
{
    clap::law_search_hands_out_what_was_found(entries, error, found, path);
}

} // verus!
