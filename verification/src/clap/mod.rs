//! CLAP adapter and probe helpers.

pub mod descriptor;
pub mod probing;

pub use self::probing::probe;

use std::path::{Path, PathBuf};
use vstd::prelude::*;
use vstd::string::*;

use crate::paths::{
    all_bytes, all_entries, buffer_bytes, display, entry_view, file_name_of, has_extension, join,
    law_sorted_paths_are_the_same,
    joined, name_has_extension, path_bytes, path_text, paths_view, sort_paths, sorted_outcome,
    stem_text, DirListing, Listing,
};
use crate::registry::{Backend, Entry, EntryView, Role};
use crate::text::{all_texts, decimal_text, optional_text, push_decimal};

verus! {

/// Stable adapter backend format.
pub const FORMAT: &'static str = "clap";

/// One CLAP plugin discovered inside a CLAP binary or bundle.
#[derive(Debug, PartialEq, Eq)]
pub struct ClapPluginMetadata {
    /// Stable host id used by persisted processor slots.
    pub processor_id: String,
    /// CLAP plugin id from the descriptor.
    pub clap_id: String,
    /// Display name.
    pub name: String,
    /// Optional vendor.
    pub vendor: Option<String>,
    /// Optional version.
    pub version: Option<String>,
    /// Descriptor feature strings.
    pub features: Vec<String>,
    /// Registry role.
    pub role: Role,
    /// Candidate path.
    pub path: PathBuf,
    /// Resolved dynamic library path.
    pub library_path: PathBuf,
}

/// The contents of a [`ClapPluginMetadata`].
#[verifier::ext_equal]
pub struct ClapPlugin {
    pub processor_id: Seq<char>,
    pub clap_id: Seq<char>,
    pub name: Seq<char>,
    pub vendor: Option<Seq<char>>,
    pub version: Option<Seq<char>>,
    pub features: Seq<Seq<char>>,
    pub role: Role,
    pub path: Seq<u8>,
    pub library_path: Seq<u8>,
}

impl View for ClapPluginMetadata {
    type V = ClapPlugin;

    open spec fn view(&self) -> ClapPlugin {
        ClapPlugin {
            processor_id: self.processor_id@,
            clap_id: self.clap_id@,
            name: self.name@,
            vendor: optional_text(self.vendor),
            version: optional_text(self.version),
            features: all_texts(self.features@),
            role: self.role,
            path: buffer_bytes(self.path),
            library_path: buffer_bytes(self.library_path),
        }
    }
}

impl Clone for ClapPluginMetadata {
    fn clone(&self) -> (copy: Self)
        ensures
            copy@ == self@,
    {
        let features = self.features.clone();
        assert(all_texts(features@) =~= all_texts(self.features@));
        ClapPluginMetadata {
            processor_id: self.processor_id.clone(),
            clap_id: self.clap_id.clone(),
            name: self.name.clone(),
            vendor: self.vendor.clone(),
            version: self.version.clone(),
            features,
            role: self.role,
            path: self.path.as_path().to_path_buf(),
            library_path: self.library_path.as_path().to_path_buf(),
        }
    }
}

/// The contents of each plugin of a list.
pub open spec fn clap_plugins(plugins: Seq<ClapPluginMetadata>) -> Seq<ClapPlugin> {
    plugins.map_values(|plugin: ClapPluginMetadata| plugin@)
}

/// Copies a list of plugins.
pub(crate) fn clone_plugins(plugins: &Vec<ClapPluginMetadata>) -> (copy: Vec<ClapPluginMetadata>)
    ensures
        clap_plugins(copy@) == clap_plugins(plugins@),
{
    let copy = plugins.clone();
    assert(clap_plugins(copy@) =~= clap_plugins(plugins@));
    copy
}

/// Result returned by the validator process.
#[derive(Debug, PartialEq, Eq)]
pub struct ValidationReport {
    /// Validated format.
    pub format: String,
    /// Candidate path.
    pub path: PathBuf,
    /// Probe outcome.
    pub result: Result<Vec<ClapPluginMetadata>, String>,
}

impl Clone for ValidationReport {
    fn clone(&self) -> (copy: Self)
        ensures
            copy.format@ == self.format@,
            buffer_bytes(copy.path) == buffer_bytes(self.path),
            match (copy.result, self.result) {
                (Ok(plugins), Ok(same)) => clap_plugins(plugins@) == clap_plugins(same@),
                (Err(error), Err(same)) => error@ == same@,
                _ => false,
            },
    {
        ValidationReport {
            format: self.format.clone(),
            path: self.path.as_path().to_path_buf(),
            result: match &self.result {
                Ok(plugins) => Ok(clone_plugins(plugins)),
                Err(error) => Err(error.clone()),
            },
        }
    }
}

/// CLAP probe errors.
#[derive(Debug)]
pub enum ClapProbeError {
    /// Candidate path does not look like a CLAP plugin.
    NotCandidate(String),
    /// Path could not be converted for CLAP entry initialization.
    InvalidPath(String),
    /// Dynamic library loading failed.
    Load {
        /// Dynamic library path.
        path: PathBuf,
        /// Loader error.
        error: String,
    },
    /// Required CLAP entry symbol is missing.
    MissingEntry(PathBuf),
    /// CLAP version is unsupported.
    IncompatibleVersion,
    /// CLAP entry initialization failed.
    InitFailed,
    /// Required CLAP function pointer is missing.
    MissingFunction(&'static str),
    /// Required CLAP plugin factory is missing.
    MissingFactory,
    /// Plugin descriptor is invalid.
    InvalidDescriptor {
        /// Descriptor index reported by the plugin factory.
        index: u32,
    },
}

/// The contents of a [`ClapProbeError`].
pub enum ClapError {
    NotCandidate(Seq<char>),
    InvalidPath(Seq<char>),
    Load { path: Seq<u8>, error: Seq<char> },
    MissingEntry(Seq<u8>),
    IncompatibleVersion,
    InitFailed,
    MissingFunction(Seq<char>),
    MissingFactory,
    InvalidDescriptor { index: u32 },
}

impl View for ClapProbeError {
    type V = ClapError;

    open spec fn view(&self) -> ClapError {
        match self {
            ClapProbeError::NotCandidate(path) => ClapError::NotCandidate(path@),
            ClapProbeError::InvalidPath(path) => ClapError::InvalidPath(path@),
            ClapProbeError::Load { path, error } => ClapError::Load {
                path: buffer_bytes(*path),
                error: error@,
            },
            ClapProbeError::MissingEntry(path) => ClapError::MissingEntry(buffer_bytes(*path)),
            ClapProbeError::IncompatibleVersion => ClapError::IncompatibleVersion,
            ClapProbeError::InitFailed => ClapError::InitFailed,
            ClapProbeError::MissingFunction(name) => ClapError::MissingFunction(name@),
            ClapProbeError::MissingFactory => ClapError::MissingFactory,
            ClapProbeError::InvalidDescriptor { index } => ClapError::InvalidDescriptor {
                index: *index,
            },
        }
    }
}

impl ClapError {
    /// The sentence that reports the error.
    pub open spec fn text(self) -> Seq<char> {
        match self {
            ClapError::NotCandidate(path) => "not a CLAP candidate: "@ + path,
            ClapError::InvalidPath(path) => "plugin path contains an interior NUL byte: "@ + path,
            ClapError::Load { path, error } => "failed to load CLAP library "@ + path_text(path)
                + ": "@ + error,
            ClapError::MissingEntry(path) => "CLAP entry symbol is missing in "@ + path_text(path),
            ClapError::IncompatibleVersion => "CLAP version is not compatible"@,
            ClapError::InitFailed => "CLAP entry initialization failed"@,
            ClapError::MissingFunction(name) => "CLAP entry is missing required function: "@ + name,
            ClapError::MissingFactory => "CLAP plugin factory is missing"@,
            ClapError::InvalidDescriptor { index } => "CLAP plugin descriptor "@ + decimal_text(
                index as nat,
            ) + " is invalid"@,
        }
    }
}

impl ClapProbeError {
    /// Returns the sentence that reports the error.
    pub fn message(&self) -> (text: String)
        ensures
            text@ == self@.text(),
    {
        match self {
            ClapProbeError::NotCandidate(path) => {
                "not a CLAP candidate: ".to_owned().concat(path.as_str())
            },
            ClapProbeError::InvalidPath(path) => {
                "plugin path contains an interior NUL byte: ".to_owned().concat(path.as_str())
            },
            ClapProbeError::Load { path, error } => {
                let mut text = "failed to load CLAP library ".to_owned();
                text.append(display(path.as_path()).as_str());
                text.append(": ");
                text.append(error.as_str());
                text
            },
            ClapProbeError::MissingEntry(path) => {
                "CLAP entry symbol is missing in ".to_owned().concat(
                    display(path.as_path()).as_str(),
                )
            },
            ClapProbeError::IncompatibleVersion => "CLAP version is not compatible".to_owned(),
            ClapProbeError::InitFailed => "CLAP entry initialization failed".to_owned(),
            ClapProbeError::MissingFunction(name) => {
                "CLAP entry is missing required function: ".to_owned().concat(name)
            },
            ClapProbeError::MissingFactory => "CLAP plugin factory is missing".to_owned(),
            ClapProbeError::InvalidDescriptor { index } => {
                let mut text = "CLAP plugin descriptor ".to_owned();
                push_decimal(&mut text, *index as u64);
                text.append(" is invalid");
                text
            },
        }
    }
}

/// Whether a path with these bytes is a CLAP candidate: its file name ends in `.clap`.
pub open spec fn is_candidate(path: Seq<u8>) -> bool {
    name_has_extension(file_name_of(path), FORMAT@)
}

/// Returns true when a path is a CLAP candidate.
#[must_use]
pub fn is_clap_candidate(path: &Path) -> (r: bool)
    ensures
        r == is_candidate(path_bytes(path)),
{
    has_extension(path, FORMAT)
}

/// The candidates among directory entries as far as they could be read, or the first read error.
pub open spec fn candidates_among(entries: Seq<Result<Seq<u8>, Seq<char>>>) -> Result<
    Seq<Seq<u8>>,
    Seq<char>,
>
    decreases entries.len(),
{
    if entries.len() == 0 {
        Ok(seq![])
    } else {
        match candidates_among(entries.drop_last()) {
            Err(error) => Err(error),
            Ok(found) => match entries.last() {
                Err(error) => Err(error),
                Ok(path) => if is_candidate(path) {
                    Ok(found.push(path))
                } else {
                    Ok(found)
                },
            },
        }
    }
}

/// What is found directly under a root with this listing, before it is sorted.
pub open spec fn found_under(listing: Listing) -> Result<Seq<Seq<u8>>, Seq<char>> {
    match listing {
        Listing::NotADirectory => Ok(seq![]),
        Listing::Unreadable(error) => Err(error),
        Listing::Entries(entries) => candidates_among(entries),
    }
}

proof fn lemma_error_stays(entries: Seq<Result<Seq<u8>, Seq<char>>>, n: int)
    requires
        0 <= n <= entries.len(),
        candidates_among(entries.take(n)) is Err,
    ensures
        candidates_among(entries) == candidates_among(entries.take(n)),
    decreases entries.len(),
{
    if n < entries.len() {
        assert(entries.drop_last().take(n) == entries.take(n));
        lemma_error_stays(entries.drop_last(), n);
    } else {
        assert(entries.take(n) == entries);
    }
}

/// A listing without read errors yields its CLAP candidates, all of them and nothing else; any
/// other yields an error.
pub proof fn law_listing_yields_candidates(entries: Seq<Result<Seq<u8>, Seq<char>>>)
    ensures
        candidates_among(entries) is Err <==> exists|i: int|
            0 <= i < entries.len() && (#[trigger] entries[i]) is Err,
        candidates_among(entries) matches Ok(found) ==> {
            &&& forall|i: int|
                0 <= i < found.len() ==> is_candidate(#[trigger] found[i]) && entries.contains(
                    Ok(found[i]),
                )
            &&& forall|i: int|
                0 <= i < entries.len() && (#[trigger] entries[i]) is Ok && is_candidate(
                    entries[i]->Ok_0,
                ) ==> found.contains(entries[i]->Ok_0)
        },
    decreases entries.len(),
{
    if entries.len() > 0 {
        let earlier = entries.drop_last();
        let last = entries.len() - 1;
        law_listing_yields_candidates(earlier);
        if candidates_among(earlier) is Err {
            let i = choose|i: int| 0 <= i < earlier.len() && (#[trigger] earlier[i]) is Err;
            assert(entries[i] is Err);
        } else if entries[last] is Err {
            assert(candidates_among(entries) is Err);
        } else {
            let before = candidates_among(earlier)->Ok_0;
            let found = candidates_among(entries)->Ok_0;
            assert forall|i: int| 0 <= i < entries.len() implies (#[trigger] entries[i]) is Ok by {
                if i < last {
                    assert(earlier[i] is Ok);
                }
            }
            assert forall|i: int| 0 <= i < found.len() implies is_candidate(
                #[trigger] found[i],
            ) && entries.contains(Ok(found[i])) by {
                if i < before.len() {
                    assert(found[i] == before[i]);
                    assert(earlier.contains(Ok(before[i])));
                    let j = choose|j: int|
                        0 <= j < earlier.len() && earlier[j] == Ok::<Seq<u8>, Seq<char>>(before[i]);
                    assert(entries[j] == Ok::<Seq<u8>, Seq<char>>(found[i]));
                } else {
                    assert(entries[last] == Ok::<Seq<u8>, Seq<char>>(found[i]));
                }
            }
            assert forall|i: int|
                0 <= i < entries.len() && (#[trigger] entries[i]) is Ok && is_candidate(
                    entries[i]->Ok_0,
                ) implies found.contains(entries[i]->Ok_0) by {
                if i < last {
                    assert(earlier[i] is Ok);
                    assert(before.contains(entries[i]->Ok_0));
                    let j = choose|j: int|
                        0 <= j < before.len() && before[j] == entries[i]->Ok_0;
                    assert(found[j] == entries[i]->Ok_0);
                } else {
                    assert(found[found.len() - 1] == entries[i]->Ok_0);
                }
            }
        }
    }
}

/// Finds CLAP candidates directly under one root, given the listing of that root.
pub fn candidate_paths(listing: DirListing) -> (found: Result<Vec<PathBuf>, String>)
    ensures
        sorted_outcome(found_under(listing@), paths_view(found)),
{
    let entries = match listing {
        DirListing::NotADirectory => {
            let mut none: Vec<PathBuf> = Vec::new();
            assert(all_bytes(none@) =~= seq![]);
            sort_paths(&mut none);
            return Ok(none);
        },
        DirListing::Unreadable(error) => return Err(error),
        DirListing::Entries(entries) => entries,
    };
    let ghost all = all_entries(entries@);
    let mut candidates: Vec<PathBuf> = Vec::new();
    assert(all_bytes(candidates@) =~= seq![]);
    for i in 0..entries.len()
        invariant
            all == all_entries(entries@),
            listing@ == Listing::Entries(all),
            candidates_among(all.take(i as int)) == Ok::<Seq<Seq<u8>>, Seq<char>>(
                all_bytes(candidates@),
            ),
    {
        proof {
            assert(all.take(i + 1).drop_last() == all.take(i as int));
            assert(all.take(i + 1).last() == entry_view(entries@[i as int]));
        }
        match &entries[i] {
            Ok(path) => {
                if is_clap_candidate(path.as_path()) {
                    let ghost before = candidates@;
                    candidates.push(path.as_path().to_path_buf());
                    assert(all_bytes(candidates@) =~= all_bytes(before).push(buffer_bytes(*path)));
                }
            },
            Err(error) => {
                proof {
                    lemma_error_stays(all, i + 1);
                }
                return Err(error.clone());
            },
        }
    }
    assert(all.take(entries@.len() as int) == all);
    sort_paths(&mut candidates);
    Ok(candidates)
}

/// The stable processor id of a plugin in the path with these bytes.
pub open spec fn processor_id(path: Seq<u8>, clap_id: Seq<char>) -> Seq<char> {
    FORMAT@ + ":"@ + path_text(path) + "#"@ + clap_id
}

/// Builds the stable global processor id for one CLAP plugin.
#[must_use]
pub fn stable_processor_id(path: &Path, clap_id: &str) -> (id: String)
    ensures
        id@ == processor_id(path_bytes(path), clap_id@),
{
    let mut id = FORMAT.to_owned();
    id.append(":");
    id.append(display(path).as_str());
    id.append("#");
    id.append(clap_id);
    id
}

/// Where a macOS bundle at this path keeps its binary.
pub open spec fn bundle_binary(path: Seq<u8>) -> Seq<u8> {
    joined(
        joined(joined(path, "Contents"@), "MacOS"@),
        stem_text(file_name_of(path)),
    )
}

/// Returns where a macOS bundle at `path` keeps its binary.
pub fn macos_bundle_binary(path: &Path) -> (binary: PathBuf)
    ensures
        buffer_bytes(binary) == bundle_binary(path_bytes(path)),
{
    let stem = crate::paths::file_stem(path);
    let contents = join(path, "Contents");
    let macos = join(contents.as_path(), "MacOS");
    join(macos.as_path(), stem.as_str())
}

/// The dynamic library of a candidate: the bundle binary where that is a file, else the
/// candidate itself.
pub open spec fn library_of(path: Seq<u8>, bundle_binary_is_file: bool) -> Seq<u8> {
    if bundle_binary_is_file {
        bundle_binary(path)
    } else {
        path
    }
}

/// Resolves the actual dynamic library path for a CLAP candidate, given whether
/// [`macos_bundle_binary`] of it is a file.
#[must_use]
pub fn resolve_clap_library_path(path: &Path, bundle_binary_is_file: bool) -> (library: PathBuf)
    ensures
        buffer_bytes(library) == library_of(path_bytes(path), bundle_binary_is_file),
{
    if bundle_binary_is_file {
        macos_bundle_binary(path)
    } else {
        path.to_path_buf()
    }
}

/// The registry entry of a CLAP plugin.
pub open spec fn entry_of(plugin: ClapPlugin) -> EntryView {
    EntryView {
        id: plugin.processor_id,
        name: plugin.name,
        backend: Backend::Clap,
        role: plugin.role,
        vendor: None,
        descriptor_name: plugin.name,
        editor: None,
    }
}

/// Describes one CLAP plugin to the registry.
pub fn registry_entry_for_plugin(plugin: ClapPluginMetadata) -> (entry: Entry)
    ensures
        entry@ == entry_of(plugin@),
        entry.id@ == plugin.processor_id@,
        entry.name@ == plugin.name@,
        entry.role == plugin.role,
        entry.backend == Backend::Clap,
{
    Entry {
        id: plugin.processor_id,
        descriptor_name: plugin.name.clone(),
        name: plugin.name,
        backend: Backend::Clap,
        role: plugin.role,
        vendor: None,
        editor: None,
    }
}

/// Makes the registry entries for validated CLAP plugins, in the order given.
pub fn register_plugins(plugins: Vec<ClapPluginMetadata>) -> (entries: Vec<Entry>)
    ensures
        entries@.len() == plugins@.len(),
        forall|i: int|
            0 <= i < entries@.len() ==> (#[trigger] entries@[i])@ == entry_of(plugins@[i]@),
{
    let mut entries: Vec<Entry> = Vec::new();
    for i in 0..plugins.len()
        invariant
            entries@.len() == i,
            forall|j: int| 0 <= j < i ==> (#[trigger] entries@[j])@ == entry_of(plugins@[j]@),
    {
        entries.push(registry_entry_for_plugin(plugins[i].clone()));
    }
    entries
}

/// Why a CLAP runtime cannot be made yet.
pub const RUNTIME_MISSING: &'static str = "CLAP runtime instantiation is not implemented yet";

/// A plugin is registered under its own id and name, with the role that probing gave it, as a CLAP
/// plugin without an editor: instruments as instruments, effects as effects.
pub proof fn law_entry_is_the_plugin(plugin: ClapPlugin)
    ensures
        entry_of(plugin).id == plugin.processor_id,
        entry_of(plugin).name == plugin.name,
        entry_of(plugin).descriptor_name == plugin.name,
        entry_of(plugin).backend == Backend::Clap,
        entry_of(plugin).role == plugin.role,
        entry_of(plugin).role is Instrument <==> plugin.role is Instrument,
        entry_of(plugin).role is Effect <==> plugin.role is Effect,
        entry_of(plugin).vendor is None,
        entry_of(plugin).editor is None,
{
}

/// A processor id names the format, the path as it is shown and the plugin, in this order: it
/// begins with the first, ends with the last, and the path stands between them.
pub proof fn law_processor_id_names_path_and_plugin(path: Seq<u8>, clap_id: Seq<char>)
    ensures
        ({
            let id = processor_id(path, clap_id);
            let shown = path_text(path);
            &&& id.len() == 5 + shown.len() + 1 + clap_id.len()
            &&& id.take(5) == "clap:"@
            &&& id.subrange(5, 5 + shown.len() as int) == shown
            &&& id[5 + shown.len() as int] == '#'
            &&& id.skip(6 + shown.len() as int) == clap_id
        }),
{
    reveal_strlit("clap");
    reveal_strlit(":");
    reveal_strlit("clap:");
    reveal_strlit("#");
    let id = processor_id(path, clap_id);
    let shown = path_text(path);
    assert(id.take(5) =~= "clap:"@);
    assert(id.subrange(5, 5 + shown.len() as int) =~= shown);
    assert(id.skip(6 + shown.len() as int) =~= clap_id);
}

/// The library of a candidate is the binary of its own name under `Contents/MacOS` where that is a
/// file, and the candidate itself where it is not.
pub proof fn law_library_is_bundle_binary_or_candidate(path: Seq<u8>)
    ensures
        library_of(path, true) == joined(
            joined(joined(path, "Contents"@), "MacOS"@),
            stem_text(file_name_of(path)),
        ),
        library_of(path, false) == path,
{
}

/// The candidates of two listings, one read after the other, are those of the first and then those
/// of the second: none is lost, none is doubled, and each keeps its place.
pub proof fn law_candidates_keep_their_places(
    a: Seq<Result<Seq<u8>, Seq<char>>>,
    b: Seq<Result<Seq<u8>, Seq<char>>>,
    path: Seq<u8>,
    error: Seq<char>,
)
    ensures
        candidates_among(a) is Ok && candidates_among(b) is Ok ==> candidates_among(a + b) == Ok::<
            Seq<Seq<u8>>,
            Seq<char>,
        >(candidates_among(a)->Ok_0 + candidates_among(b)->Ok_0),
        candidates_among(a) is Err ==> candidates_among(a + b) == candidates_among(a),
        candidates_among(a) is Ok && candidates_among(b) is Err ==> candidates_among(a + b)
            == candidates_among(b),
        is_candidate(path) ==> candidates_among(seq![Ok(path)]) == Ok::<Seq<Seq<u8>>, Seq<char>>(
            seq![path],
        ),
        !is_candidate(path) ==> candidates_among(seq![Ok(path)]) == Ok::<
            Seq<Seq<u8>>,
            Seq<char>,
        >(seq![]),
        candidates_among(seq![Err(error)]) == Err::<Seq<Seq<u8>>, Seq<char>>(error),
    decreases b.len(),
{
    reveal_with_fuel(candidates_among, 2);
    let one = seq![Ok::<Seq<u8>, Seq<char>>(path)];
    assert(one.drop_last() =~= Seq::empty());
    assert(Seq::<Seq<u8>>::empty().push(path) =~= seq![path]);
    assert(seq![Err::<Seq<u8>, Seq<char>>(error)].drop_last() =~= Seq::empty());
    if b.len() == 0 {
        assert(a + b =~= a);
        if candidates_among(a) is Ok {
            assert(candidates_among(a)->Ok_0 + Seq::<Seq<u8>>::empty()
                =~= candidates_among(a)->Ok_0);
        }
    } else {
        law_candidates_keep_their_places(a, b.drop_last(), path, error);
        assert((a + b).drop_last() =~= a + b.drop_last());
        if candidates_among(a) is Ok && candidates_among(b) is Ok {
            assert(candidates_among(a + b)->Ok_0 =~= candidates_among(a)->Ok_0
                + candidates_among(b)->Ok_0);
        }
    }
}

/// A root that is no directory has no candidates, one that cannot be listed is reported with its
/// error, and what a search hands out is what was found, each path as often, in path order.
pub proof fn law_search_hands_out_what_was_found(
    entries: Seq<Result<Seq<u8>, Seq<char>>>,
    error: Seq<char>,
    outcome: Result<Seq<Seq<u8>>, Seq<char>>,
    path: Seq<u8>,
)
    ensures
        found_under(Listing::NotADirectory) == Ok::<Seq<Seq<u8>>, Seq<char>>(seq![]),
        found_under(Listing::Unreadable(error)) == Err::<Seq<Seq<u8>>, Seq<char>>(error),
        (forall|i: int| 0 <= i < entries.len() ==> (#[trigger] entries[i]) is Ok)
            && sorted_outcome(found_under(Listing::Entries(entries)), outcome) ==> outcome is Ok
            && (outcome->Ok_0.contains(path) <==> is_candidate(path) && entries.contains(Ok(path))),
{
    if (forall|i: int| 0 <= i < entries.len() ==> (#[trigger] entries[i]) is Ok)
        && sorted_outcome(found_under(Listing::Entries(entries)), outcome) {
        law_listing_yields_candidates(entries);
        let found = candidates_among(entries)->Ok_0;
        law_sorted_paths_are_the_same(found, outcome->Ok_0);
        if found.contains(path) {
            let i = choose|i: int| 0 <= i < found.len() && found[i] == path;
            assert(is_candidate(found[i]));
        }
        if is_candidate(path) && entries.contains(Ok(path)) {
            let i = choose|i: int|
                0 <= i < entries.len() && entries[i] == Ok::<Seq<u8>, Seq<char>>(path);
            assert(entries[i] is Ok && is_candidate(entries[i]->Ok_0));
        }
        assert(outcome->Ok_0.contains(path) <==> found.contains(path));
    }
}

/// Every report of a failure says what failed, with the path, the error, the function or the index
/// that it is about.
pub proof fn law_failure_names_its_cause(
    shown: Seq<char>,
    path: Seq<u8>,
    error: Seq<char>,
    index: u32,
)
    ensures
        ClapError::NotCandidate(shown).text() == "not a CLAP candidate: "@ + shown,
        ClapError::InvalidPath(shown).text() == "plugin path contains an interior NUL byte: "@
            + shown,
        (ClapError::Load { path, error }).text() == "failed to load CLAP library "@
            + path_text(path) + ": "@ + error,
        ClapError::MissingEntry(path).text() == "CLAP entry symbol is missing in "@ + path_text(
            path,
        ),
        ClapError::IncompatibleVersion.text() == "CLAP version is not compatible"@,
        ClapError::InitFailed.text() == "CLAP entry initialization failed"@,
        ClapError::MissingFunction(error).text() == "CLAP entry is missing required function: "@
            + error,
        ClapError::MissingFactory.text() == "CLAP plugin factory is missing"@,
        (ClapError::InvalidDescriptor { index }).text() == "CLAP plugin descriptor "@
            + decimal_text(index as nat) + " is invalid"@,
{
}

/// The contents of a plugin's metadata are its own, item for item.
pub proof fn law_metadata_is_seen_in_full(plugin: ClapPluginMetadata)
    ensures
        plugin@.processor_id == plugin.processor_id@,
        plugin@.clap_id == plugin.clap_id@,
        plugin@.name == plugin.name@,
        plugin@.vendor is Some <==> plugin.vendor is Some,
        plugin.vendor matches Some(vendor) ==> plugin@.vendor == Some(vendor@),
        plugin@.version is Some <==> plugin.version is Some,
        plugin.version matches Some(version) ==> plugin@.version == Some(version@),
        plugin@.features.len() == plugin.features@.len(),
        forall|i: int|
            0 <= i < plugin.features@.len() ==> #[trigger] plugin@.features[i]
                == plugin.features@[i]@,
        plugin@.role == plugin.role,
        plugin@.path == buffer_bytes(plugin.path),
        plugin@.library_path == buffer_bytes(plugin.library_path),
{
}

} // verus!
