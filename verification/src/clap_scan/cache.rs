//! What earlier scans found, so that unchanged binaries are not validated again.

use std::path::{Path, PathBuf};
use vstd::prelude::*;
use vstd::string::*;

use crate::clap::{self, clap_plugins, ClapPlugin, ClapPluginMetadata};
use crate::path_map::{
    all_stored, contents, law_listed_map_is_rebuilt, lemma_contents_insert, lists, rebuilt,
    with_entry, PathEntry, PathMap, Stored,
};
use crate::paths::{buffer_bytes, join, joined, path_bytes, path_class};
use crate::scan::cache::FileFacts;
use crate::scan::saving::{CacheSave, SaveAction, SaveTurn};

verus! {

/// Candidate file fingerprint.
#[derive(Debug, Clone, Copy, PartialEq, Eq, Structural)]
pub struct PluginCandidateFingerprint {
    /// Last modification in milliseconds after the Unix epoch.
    pub modified_millis: u128,
    /// File length in bytes.
    pub len: u64,
}

/// The time that a fingerprint keeps: the epoch for one that is not known.
pub open spec fn kept_millis(modified_millis: Option<u128>) -> u128 {
    match modified_millis {
        None => 0,
        Some(millis) => millis,
    }
}

impl PluginCandidateFingerprint {
    /// Builds a fingerprint from what the file system says about a path, or passes its error on.
    /// A time that is not known counts as the epoch.
    pub fn from_path(facts: Result<FileFacts, String>) -> (fingerprint: Result<Self, String>)
        ensures
            match facts {
                Err(error) => fingerprint == Err::<Self, String>(error),
                Ok(f) => fingerprint matches Ok(print) && print.len == f.len
                    && print.modified_millis == match f.modified_millis {
                    None => 0,
                    Some(millis) => millis,
                },
            },
            facts matches Ok(f) ==> fingerprint->Ok_0.modified_millis == kept_millis(
                f.modified_millis,
            ),
    {
        match facts {
            Err(error) => Err(error),
            Ok(f) => {
                let modified_millis: u128 = match f.modified_millis {
                    None => 0,
                    Some(millis) => millis,
                };
                Ok(PluginCandidateFingerprint { modified_millis, len: f.len })
            },
        }
    }
}

/// What a scan found out about one candidate.
#[derive(Debug, PartialEq, Eq)]
pub struct CachedPluginCandidate {
    /// Fingerprint of the candidate when it was validated.
    pub fingerprint: PluginCandidateFingerprint,
    /// Whether it was valid.
    pub valid: bool,
    /// Its plugins.
    pub clap_plugins: Vec<ClapPluginMetadata>,
}

/// The contents of a [`CachedPluginCandidate`].
#[verifier::ext_equal]
pub struct Candidate {
    pub fingerprint: PluginCandidateFingerprint,
    pub valid: bool,
    pub clap_plugins: Seq<ClapPlugin>,
}

impl View for CachedPluginCandidate {
    type V = Candidate;

    open spec fn view(&self) -> Candidate {
        Candidate {
            fingerprint: self.fingerprint,
            valid: self.valid,
            clap_plugins: clap_plugins(self.clap_plugins@),
        }
    }
}

/// The contents of one cache entry, with the spelling that the path was first stored under.
pub type Cached = PathEntry<Candidate>;

/// Persistent scan cache.
#[derive(Debug)]
pub struct PluginScanCache {
    /// The candidates by their paths.
    pub entries: PathMap<CachedPluginCandidate>,
}

impl View for PluginScanCache {
    type V = Map<Seq<u8>, Cached>;

    open spec fn view(&self) -> Map<Seq<u8>, Cached> {
        contents(self.entries@)
    }
}

impl Default for PluginScanCache {
    fn default() -> (cache: Self)
        ensures
            cache@ == Map::<Seq<u8>, Cached>::empty(),
    {
        let cache = PluginScanCache { entries: PathMap::new() };
        assert(cache@ =~= Map::<Seq<u8>, Cached>::empty());
        cache
    }
}

/// Whether a candidate has changed since it was cached, or was never cached.
pub open spec fn stale(
    cache: Map<Seq<u8>, Cached>,
    path: Seq<u8>,
    fingerprint: PluginCandidateFingerprint,
) -> bool {
    let key = path_class(path);
    !cache.contains_key(key) || cache[key].value.fingerprint != fingerprint
}

/// The plugins that a cache knows of a valid candidate that has this fingerprint.
pub open spec fn known(
    cache: Map<Seq<u8>, Cached>,
    path: Seq<u8>,
    fingerprint: PluginCandidateFingerprint,
) -> Option<Seq<ClapPlugin>> {
    let key = path_class(path);
    if cache.contains_key(key) && cache[key].value.valid && cache[key].value.fingerprint
        == fingerprint {
        Some(cache[key].value.clap_plugins)
    } else {
        None
    }
}

/// A cache after a candidate was checked.
pub open spec fn checked(
    cache: Map<Seq<u8>, Cached>,
    path: Seq<u8>,
    fingerprint: PluginCandidateFingerprint,
    valid: bool,
    clap_plugins: Seq<ClapPlugin>,
) -> Map<Seq<u8>, Cached> {
    with_entry(
        cache,
        PathEntry {
            path,
            value: Candidate { fingerprint, valid, clap_plugins },
        },
    )
}

/// The file of the cache in the directory of the user's configuration, if there is one.
pub open spec fn cache_file(config_dir: Option<Seq<u8>>) -> Result<Seq<u8>, Seq<char>> {
    match config_dir {
        Some(dir) => Ok(joined(dir, "plugin-cache.ron"@)),
        None => Err("Failed to resolve user config directory"@),
    }
}

/// Returns the file of the cache in the directory of the user's configuration.
pub fn cache_path(config_dir: Option<&Path>) -> (path: Result<PathBuf, String>)
    ensures
        match (path, cache_file(
            match config_dir {
                Some(dir) => Some(path_bytes(dir)),
                None => None,
            },
        )) {
            (Ok(p), Ok(file)) => buffer_bytes(p) == file,
            (Err(e), Err(error)) => e@ == error,
            _ => false,
        },
{
    match config_dir {
        Some(dir) => Ok(join(dir, "plugin-cache.ron")),
        None => Err("Failed to resolve user config directory".to_owned()),
    }
}

impl PluginScanCache {
    /// Makes the scan cache from the candidates that its file lists, if it could be found, read
    /// and parsed.
    pub fn load(parsed: Option<Vec<(PathBuf, CachedPluginCandidate)>>) -> (cache: Self)
        ensures
            match parsed {
                Some(entries) => cache@ == rebuilt(all_stored(entries@)),
                None => cache@ == Map::<Seq<u8>, Cached>::empty(),
            },
    {
        match parsed {
            Some(entries) => PluginScanCache::from_entries(entries),
            None => PluginScanCache::default(),
        }
    }

    /// Starts to save the scan cache to its file, where its entries are to be written, each once;
    /// or passes the error on that there is no such file.
    pub fn save(&self, path: Result<PathBuf, String>) -> (started: Result<
        (
            CacheSave<(PathBuf, CachedPluginCandidate)>,
            SaveAction<(PathBuf, CachedPluginCandidate)>,
        ),
        String,
    >)
        ensures
            match path {
                Err(error) => started matches Err(e) && e@ == error@,
                Ok(p) => {
                    &&& started matches Ok(r)
                    &&& lists(all_stored(r.0@.entries), self@)
                    &&& (SaveTurn { save: r.0@, request: r.1@ }) == SaveTurn::started(
                        buffer_bytes(p),
                        r.0@.entries,
                    )
                },
            },
    {
        match path {
            Err(error) => Err(error),
            Ok(path) => Ok(CacheSave::start(path.as_path(), self.to_entries())),
        }
    }

    /// Returns whether a candidate has changed since the cached scan.
    pub fn is_stale(&self, path: &Path, fingerprint: PluginCandidateFingerprint) -> (r: bool)
        ensures
            r == stale(self@, path_bytes(path), fingerprint),
    {
        match self.entries.get(path) {
            None => true,
            Some(entry) => entry.fingerprint != fingerprint,
        }
    }

    /// Stores a checked candidate.
    pub fn mark_checked(
        &mut self,
        path: PathBuf,
        fingerprint: PluginCandidateFingerprint,
        valid: bool,
        clap_plugins: Vec<ClapPluginMetadata>,
    )
        ensures
            final(self)@ == checked(
                old(self)@,
                buffer_bytes(path),
                fingerprint,
                valid,
                clap::clap_plugins(clap_plugins@),
            ),
    {
        let candidate = CachedPluginCandidate { fingerprint, valid, clap_plugins };
        proof {
            lemma_contents_insert(self.entries@, buffer_bytes(path), candidate);
        }
        self.entries.insert(path, candidate);
    }

    /// Returns the plugins of a valid candidate that has not changed.
    pub fn cached_clap_plugins(
        &self,
        path: &Path,
        fingerprint: PluginCandidateFingerprint,
    ) -> (plugins: Option<Vec<ClapPluginMetadata>>)
        ensures
            match known(self@, path_bytes(path), fingerprint) {
                None => plugins is None,
                Some(k) => plugins matches Some(p) && clap_plugins(p@) == k,
            },
    {
        match self.entries.get(path) {
            None => None,
            Some(entry) => {
                if entry.valid && entry.fingerprint == fingerprint {
                    Some(clap::clone_plugins(&entry.clap_plugins))
                } else {
                    None
                }
            },
        }
    }
}

/// A candidate that was checked is not stale for the same fingerprint, and is for every other; its
/// plugins are known as long as it was valid. What is known of other paths stays as it was.
pub proof fn law_checked_is_remembered(
    cache: Map<Seq<u8>, Cached>,
    path: Seq<u8>,
    fingerprint: PluginCandidateFingerprint,
    valid: bool,
    clap_plugins: Seq<ClapPlugin>,
    other: Seq<u8>,
    now: PluginCandidateFingerprint,
)
    ensures
        ({
            let after = checked(cache, path, fingerprint, valid, clap_plugins);
            if path_class(other) == path_class(path) {
                &&& stale(after, other, now) <==> now != fingerprint
                &&& known(after, other, now) == if valid && now == fingerprint {
                    Some(clap_plugins)
                } else {
                    None
                }
            } else {
                &&& stale(after, other, now) == stale(cache, other, now)
                &&& known(after, other, now) == known(cache, other, now)
            }
        }),
{
}

impl Clone for CachedPluginCandidate {
    fn clone(&self) -> (copy: Self)
        ensures
            copy@ == self@,
    {
        CachedPluginCandidate {
            fingerprint: self.fingerprint,
            valid: self.valid,
            clap_plugins: clap::clone_plugins(&self.clap_plugins),
        }
    }
}

impl Stored for CachedPluginCandidate {
    fn copied(&self) -> (copy: Self) {
        self.clone()
    }
}

impl PluginScanCache {
    /// Returns the stored candidates, each under the path that it was first stored under.
    pub fn to_entries(&self) -> (entries: Vec<(PathBuf, CachedPluginCandidate)>)
        ensures
            lists(all_stored(entries@), self@),
    {
        self.entries.to_entries()
    }

    /// Makes a cache of listed candidates.
    pub fn from_entries(entries: Vec<(PathBuf, CachedPluginCandidate)>) -> (cache: Self)
        ensures
            cache@ == rebuilt(all_stored(entries@)),
    {
        PluginScanCache { entries: PathMap::from_entries(entries) }
    }
}

impl Clone for PluginScanCache {
    fn clone(&self) -> (copy: Self)
        ensures
            copy@ == self@,
    {
        let entries = self.to_entries();
        proof {
            law_listed_map_is_rebuilt(all_stored(entries@), self@);
        }
        PluginScanCache::from_entries(entries)
    }
}

/// A fingerprint keeps the time of a file as it is, and a time that is not known as the epoch.
pub proof fn law_fingerprint_keeps_the_time(millis: u128)
    ensures
        kept_millis(Some(millis)) == millis,
        kept_millis(None) == 0,
{
}

/// The cache is kept in a file of its own name in the directory of the user's configuration;
/// without that directory there is no such file, and that is said.
pub proof fn law_cache_file_is_in_the_configuration(dir: Seq<u8>)
    ensures
        cache_file(Some(dir)) == Ok::<Seq<u8>, Seq<char>>(joined(dir, "plugin-cache.ron"@)),
        cache_file(None) == Err::<Seq<u8>, Seq<char>>("Failed to resolve user config directory"@),
{
}

/// A candidate that was checked is held with everything that was found out about it, under every
/// spelling of its path; the spelling that it was first stored under stays.
pub proof fn law_checked_candidate_is_held(
    cache: Map<Seq<u8>, Cached>,
    path: Seq<u8>,
    fingerprint: PluginCandidateFingerprint,
    valid: bool,
    clap_plugins: Seq<ClapPlugin>,
    spelling: Seq<u8>,
)
    requires
        path_class(spelling) == path_class(path),
    ensures
        ({
            let after = checked(cache, path, fingerprint, valid, clap_plugins);
            let held = after[path_class(spelling)];
            &&& after.contains_key(path_class(spelling))
            &&& held.value.fingerprint == fingerprint
            &&& held.value.valid == valid
            &&& held.value.clap_plugins == clap_plugins
            &&& cache.contains_key(path_class(path)) ==> held.path == cache[path_class(path)].path
            &&& !cache.contains_key(path_class(path)) ==> held.path == path
        }),
{
}

/// A candidate is known, with its plugins, exactly if it is cached as valid with its fingerprint,
/// and stale exactly if it is not cached with it.
pub proof fn law_known_by_its_fingerprint(
    cache: Map<Seq<u8>, Cached>,
    path: Seq<u8>,
    fingerprint: PluginCandidateFingerprint,
)
    ensures
        ({
            let key = path_class(path);
            let held = cache[key].value;
            let unchanged = cache.contains_key(key) && held.fingerprint == fingerprint;
            &&& stale(cache, path, fingerprint) <==> !unchanged
            &&& known(cache, path, fingerprint) is Some <==> unchanged && held.valid
            &&& known(cache, path, fingerprint) matches Some(plugins) ==> plugins
                == held.clap_plugins
        }),
{
}

/// The contents of a cached candidate are its own, item for item.
pub proof fn law_candidate_is_seen_in_full(candidate: CachedPluginCandidate)
    ensures
        candidate@.fingerprint == candidate.fingerprint,
        candidate@.valid == candidate.valid,
        candidate@.clap_plugins.len() == candidate.clap_plugins@.len(),
        forall|i: int|
            0 <= i < candidate.clap_plugins@.len() ==> #[trigger] candidate@.clap_plugins[i]
                == candidate.clap_plugins@[i]@,
{
}

} // verus!
