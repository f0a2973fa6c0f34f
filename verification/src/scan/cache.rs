//! What earlier scans found, so that unchanged binaries are not validated again.

use std::path::{Path, PathBuf};
use vstd::prelude::*;

use super::saving::{CacheSave, SaveAction, SaveTurn};
use crate::clap::{self, clap_plugins, ClapPlugin, ClapPluginMetadata};
use crate::path_map::{
    all_stored, contents, law_listed_map_is_rebuilt, lemma_contents_insert, lists, rebuilt,
    with_entry, PathEntry, PathMap, Stored,
};
use crate::paths::{buffer_bytes, path_bytes, path_class};
use crate::vst3::{self, vst3_plugins, Vst3Plugin, Vst3PluginMetadata};

verus! {

/// Candidate file fingerprint.
#[derive(Debug, Clone, Copy, PartialEq, Eq, Structural)]
pub struct PluginCandidateFingerprint {
    /// Last modification in milliseconds after the Unix epoch.
    pub modified_millis: u64,
    /// File length in bytes.
    pub len: u64,
}

/// What the file system says about a candidate.
pub struct FileFacts {
    /// Last modification in milliseconds after the Unix epoch, where it is known and not before.
    pub modified_millis: Option<u128>,
    /// File length in bytes.
    pub len: u64,
}

/// The time that a fingerprint keeps: the epoch for one that is not known, the largest for one
/// that is too large.
pub open spec fn kept_millis(modified_millis: Option<u128>) -> u64 {
    match modified_millis {
        None => 0,
        Some(millis) => if millis <= u64::MAX {
            millis as u64
        } else {
            u64::MAX
        },
    }
}

impl PluginCandidateFingerprint {
    /// Builds a fingerprint from what the file system says about a path, or passes its error on.
    /// A time that is not known counts as the epoch, one that is too large as the largest.
    pub fn from_path(facts: Result<FileFacts, String>) -> (fingerprint: Result<Self, String>)
        ensures
            match facts {
                Err(error) => fingerprint == Err::<Self, String>(error),
                Ok(f) => fingerprint matches Ok(print) && print.len == f.len
                    && print.modified_millis == match f.modified_millis {
                    None => 0,
                    Some(millis) => if millis <= u64::MAX {
                        millis as u64
                    } else {
                        u64::MAX
                    },
                },
            },
            facts matches Ok(f) ==> fingerprint->Ok_0.modified_millis == kept_millis(
                f.modified_millis,
            ),
    {
        match facts {
            Err(error) => Err(error),
            Ok(f) => {
                let modified_millis: u64 = match f.modified_millis {
                    None => 0,
                    Some(millis) => {
                        if millis <= u64::MAX as u128 {
                            millis as u64
                        } else {
                            u64::MAX
                        }
                    },
                };
                Ok(PluginCandidateFingerprint { modified_millis, len: f.len })
            },
        }
    }
}

/// What a scan found out about one candidate.
#[derive(Debug, PartialEq, Eq)]
pub struct CachedPluginCandidate {
    /// Fingerprint of the candidate when it was validated.
    pub fingerprint: PluginCandidateFingerprint,
    /// Fingerprint of the validator that validated it.
    pub validator_fingerprint: Option<PluginCandidateFingerprint>,
    /// Whether it holds plugins.
    pub valid: bool,
    /// Its CLAP plugins.
    pub clap_plugins: Vec<ClapPluginMetadata>,
    /// Its VST3 plugins.
    pub vst3_plugins: Vec<Vst3PluginMetadata>,
}

/// The contents of a [`CachedPluginCandidate`].
#[verifier::ext_equal]
pub struct Candidate {
    pub fingerprint: PluginCandidateFingerprint,
    pub validator_fingerprint: Option<PluginCandidateFingerprint>,
    pub valid: bool,
    pub clap_plugins: Seq<ClapPlugin>,
    pub vst3_plugins: Seq<Vst3Plugin>,
}

impl View for CachedPluginCandidate {
    type V = Candidate;

    open spec fn view(&self) -> Candidate {
        Candidate {
            fingerprint: self.fingerprint,
            validator_fingerprint: self.validator_fingerprint,
            valid: self.valid,
            clap_plugins: clap_plugins(self.clap_plugins@),
            vst3_plugins: vst3_plugins(self.vst3_plugins@),
        }
    }
}

/// The contents of one cache entry, with the spelling that the path was first stored under.
pub type Cached = PathEntry<Candidate>;

/// Persistent scan cache.
#[derive(Debug)]
pub struct PluginScanCache {
    /// The candidates by their paths.
    pub entries: PathMap<CachedPluginCandidate>,
}

impl View for PluginScanCache {
    type V = Map<Seq<u8>, Cached>;

    open spec fn view(&self) -> Map<Seq<u8>, Cached> {
        contents(self.entries@)
    }
}

impl Default for PluginScanCache {
    fn default() -> (cache: Self)
        ensures
            cache@ == Map::<Seq<u8>, Cached>::empty(),
    {
        let cache = PluginScanCache { entries: PathMap::new() };
        assert(cache@ =~= Map::<Seq<u8>, Cached>::empty());
        cache
    }
}

/// Result of looking a candidate up.
#[derive(Debug)]
pub enum CachedCandidateResult {
    /// It holds CLAP plugins.
    ValidClapPlugins(Vec<ClapPluginMetadata>),
    /// It holds VST3 plugins.
    ValidVst3Plugins(Vec<Vst3PluginMetadata>),
    /// It holds no plugins.
    Invalid,
}

/// The contents of a [`CachedCandidateResult`].
pub enum Known {
    Clap(Seq<ClapPlugin>),
    Vst3(Seq<Vst3Plugin>),
    Invalid,
}

impl View for CachedCandidateResult {
    type V = Known;

    open spec fn view(&self) -> Known {
        match self {
            CachedCandidateResult::ValidClapPlugins(plugins) => Known::Clap(clap_plugins(plugins@)),
            CachedCandidateResult::ValidVst3Plugins(plugins) => Known::Vst3(vst3_plugins(plugins@)),
            CachedCandidateResult::Invalid => Known::Invalid,
        }
    }
}

/// Whether a candidate has changed since it was cached, or was never cached.
pub open spec fn changed(
    cache: Map<Seq<u8>, Cached>,
    path: Seq<u8>,
    fingerprint: PluginCandidateFingerprint,
) -> bool {
    let key = path_class(path);
    !(cache.contains_key(key) && cache[key].value.fingerprint == fingerprint)
}

/// Whether a candidate has changed since it was cached, or was validated by another validator,
/// or was never cached.
pub open spec fn stale(
    cache: Map<Seq<u8>, Cached>,
    path: Seq<u8>,
    fingerprint: PluginCandidateFingerprint,
    validator: Option<PluginCandidateFingerprint>,
) -> bool {
    changed(cache, path, fingerprint) || cache[path_class(path)].value.validator_fingerprint
        != validator
}

/// What a cache knows of a candidate that has this fingerprint.
pub open spec fn known(
    cache: Map<Seq<u8>, Cached>,
    path: Seq<u8>,
    fingerprint: PluginCandidateFingerprint,
) -> Option<Known> {
    let key = path_class(path);
    if !cache.contains_key(key) || cache[key].value.fingerprint != fingerprint {
        None
    } else if cache[key].value.valid && cache[key].value.clap_plugins.len() > 0 {
        Some(Known::Clap(cache[key].value.clap_plugins))
    } else if cache[key].value.valid && cache[key].value.vst3_plugins.len() > 0 {
        Some(Known::Vst3(cache[key].value.vst3_plugins))
    } else {
        Some(Known::Invalid)
    }
}

/// A cache after a candidate was checked.
pub open spec fn checked(
    cache: Map<Seq<u8>, Cached>,
    path: Seq<u8>,
    fingerprint: PluginCandidateFingerprint,
    validator_fingerprint: Option<PluginCandidateFingerprint>,
    valid: bool,
    clap_plugins: Seq<ClapPlugin>,
    vst3_plugins: Seq<Vst3Plugin>,
) -> Map<Seq<u8>, Cached> {
    with_entry(
        cache,
        PathEntry {
            path,
            value: Candidate {
                fingerprint,
                validator_fingerprint,
                valid,
                clap_plugins,
                vst3_plugins,
            },
        },
    )
}

/// Whether two optional fingerprints are equal.
fn same_validator(
    a: Option<PluginCandidateFingerprint>,
    b: Option<PluginCandidateFingerprint>,
) -> (same: bool)
    ensures
        same == (a == b),
{
    match (a, b) {
        (Some(x), Some(y)) => x == y,
        (None, None) => true,
        _ => false,
    }
}

impl PluginScanCache {
    /// Makes the scan cache from the candidates that its file lists, if it could be read and
    /// parsed.
    #[must_use]
    pub fn load_from(parsed: Option<Vec<(PathBuf, CachedPluginCandidate)>>) -> (cache: Self)
        ensures
            match parsed {
                Some(entries) => cache@ == rebuilt(all_stored(entries@)),
                None => cache@ == Map::<Seq<u8>, Cached>::empty(),
            },
    {
        match parsed {
            Some(entries) => PluginScanCache::from_entries(entries),
            None => PluginScanCache::default(),
        }
    }

    /// Starts to save the scan cache to `path`: its entries are to be written there, each once.
    pub fn save_to(&self, path: &Path) -> (r: (
        CacheSave<(PathBuf, CachedPluginCandidate)>,
        SaveAction<(PathBuf, CachedPluginCandidate)>,
    ))
        ensures
            lists(all_stored(r.0@.entries), self@),
            (SaveTurn { save: r.0@, request: r.1@ }) == SaveTurn::started(
                path_bytes(path),
                r.0@.entries,
            ),
    {
        CacheSave::start(path, self.to_entries())
    }

    /// Returns whether a candidate has changed since the cached scan.
    #[must_use]
    pub fn is_stale(&self, path: &Path, fingerprint: PluginCandidateFingerprint) -> (r: bool)
        ensures
            r == changed(self@, path_bytes(path), fingerprint),
    {
        match self.entries.get(path) {
            None => true,
            Some(entry) => entry.fingerprint != fingerprint,
        }
    }

    /// Returns whether a candidate has changed since the cached scan for this validator.
    #[must_use]
    pub fn is_stale_for_validator(
        &self,
        path: &Path,
        fingerprint: PluginCandidateFingerprint,
        validator_fingerprint: Option<PluginCandidateFingerprint>,
    ) -> (r: bool)
        ensures
            r == stale(self@, path_bytes(path), fingerprint, validator_fingerprint),
    {
        match self.entries.get(path) {
            None => true,
            Some(entry) => entry.fingerprint != fingerprint || !same_validator(
                entry.validator_fingerprint,
                validator_fingerprint,
            ),
        }
    }

    /// Stores a checked candidate.
    pub fn mark_checked(
        &mut self,
        path: PathBuf,
        fingerprint: PluginCandidateFingerprint,
        validator_fingerprint: Option<PluginCandidateFingerprint>,
        valid: bool,
        clap_plugins: Vec<ClapPluginMetadata>,
        vst3_plugins: Vec<Vst3PluginMetadata>,
    )
        ensures
            final(self)@ == checked(
                old(self)@,
                buffer_bytes(path),
                fingerprint,
                validator_fingerprint,
                valid,
                clap::clap_plugins(clap_plugins@),
                vst3::vst3_plugins(vst3_plugins@),
            ),
    {
        let candidate = CachedPluginCandidate {
            fingerprint,
            validator_fingerprint,
            valid,
            clap_plugins,
            vst3_plugins,
        };
        proof {
            lemma_contents_insert(self.entries@, buffer_bytes(path), candidate);
        }
        self.entries.insert(path, candidate);
    }

    /// Returns what is known of a candidate that has not changed.
    pub fn cached_candidate(
        &self,
        path: &Path,
        fingerprint: PluginCandidateFingerprint,
    ) -> (result: Option<CachedCandidateResult>)
        ensures
            match known(self@, path_bytes(path), fingerprint) {
                None => result is None,
                Some(k) => result matches Some(r) && r@ == k,
            },
    {
        match self.entries.get(path) {
            None => None,
            Some(entry) => {
                if entry.fingerprint != fingerprint {
                    None
                } else if entry.valid && !entry.clap_plugins.is_empty() {
                    Some(
                        CachedCandidateResult::ValidClapPlugins(
                            clap::clone_plugins(&entry.clap_plugins),
                        ),
                    )
                } else if entry.valid && !entry.vst3_plugins.is_empty() {
                    Some(
                        CachedCandidateResult::ValidVst3Plugins(
                            vst3::clone_plugins(&entry.vst3_plugins),
                        ),
                    )
                } else {
                    Some(CachedCandidateResult::Invalid)
                }
            },
        }
    }
}

/// A candidate that was checked has changed exactly if its fingerprint is another one, whatever
/// validator checked it; it is stale for a validator exactly if its fingerprint or that of the
/// validator is another one.
pub proof fn law_checked_is_fresh(
    cache: Map<Seq<u8>, Cached>,
    path: Seq<u8>,
    fingerprint: PluginCandidateFingerprint,
    validator: Option<PluginCandidateFingerprint>,
    valid: bool,
    clap_plugins: Seq<ClapPlugin>,
    vst3_plugins: Seq<Vst3Plugin>,
    now: PluginCandidateFingerprint,
    validator_now: Option<PluginCandidateFingerprint>,
)
    ensures
        changed(
            checked(cache, path, fingerprint, validator, valid, clap_plugins, vst3_plugins),
            path,
            now,
        ) <==> now != fingerprint,
        stale(
            checked(cache, path, fingerprint, validator, valid, clap_plugins, vst3_plugins),
            path,
            now,
            validator_now,
        ) <==> now != fingerprint || validator_now != validator,
{
}

/// Checking one candidate leaves what is known of every other path as it was.
pub proof fn law_checked_leaves_others(
    cache: Map<Seq<u8>, Cached>,
    path: Seq<u8>,
    fingerprint: PluginCandidateFingerprint,
    validator: Option<PluginCandidateFingerprint>,
    valid: bool,
    clap_plugins: Seq<ClapPlugin>,
    vst3_plugins: Seq<Vst3Plugin>,
    other: Seq<u8>,
    now: PluginCandidateFingerprint,
    validator_now: Option<PluginCandidateFingerprint>,
)
    requires
        path_class(other) != path_class(path),
    ensures
        ({
            let after = checked(
                cache,
                path,
                fingerprint,
                validator,
                valid,
                clap_plugins,
                vst3_plugins,
            );
            &&& changed(after, other, now) == changed(cache, other, now)
            &&& stale(after, other, now, validator_now) == stale(cache, other, now, validator_now)
            &&& known(after, other, now) == known(cache, other, now)
        }),
{
}

/// Plugins that were stored for a candidate are handed out again as long as it has not changed,
/// whatever validator asks.
pub proof fn law_checked_plugins_are_known(
    cache: Map<Seq<u8>, Cached>,
    path: Seq<u8>,
    fingerprint: PluginCandidateFingerprint,
    validator: Option<PluginCandidateFingerprint>,
    clap_plugins: Seq<ClapPlugin>,
    vst3_plugins: Seq<Vst3Plugin>,
)
    ensures
        clap_plugins.len() > 0 ==> known(
            checked(cache, path, fingerprint, validator, true, clap_plugins, vst3_plugins),
            path,
            fingerprint,
        ) == Some(Known::Clap(clap_plugins)),
        vst3_plugins.len() > 0 ==> known(
            checked(cache, path, fingerprint, validator, true, seq![], vst3_plugins),
            path,
            fingerprint,
        ) == Some(Known::Vst3(vst3_plugins)),
        known(
            checked(cache, path, fingerprint, validator, false, clap_plugins, vst3_plugins),
            path,
            fingerprint,
        ) == Some(Known::Invalid),
{
}

impl Clone for CachedPluginCandidate {
    fn clone(&self) -> (copy: Self)
        ensures
            copy@ == self@,
    {
        CachedPluginCandidate {
            fingerprint: self.fingerprint,
            validator_fingerprint: self.validator_fingerprint,
            valid: self.valid,
            clap_plugins: clap::clone_plugins(&self.clap_plugins),
            vst3_plugins: vst3::clone_plugins(&self.vst3_plugins),
        }
    }
}

impl Stored for CachedPluginCandidate {
    fn copied(&self) -> (copy: Self) {
        self.clone()
    }
}

impl PluginScanCache {
    /// Returns the stored candidates, each under the path that it was first stored under.
    pub fn to_entries(&self) -> (entries: Vec<(PathBuf, CachedPluginCandidate)>)
        ensures
            lists(all_stored(entries@), self@),
    {
        self.entries.to_entries()
    }

    /// Makes a cache of listed candidates.
    pub fn from_entries(entries: Vec<(PathBuf, CachedPluginCandidate)>) -> (cache: Self)
        ensures
            cache@ == rebuilt(all_stored(entries@)),
    {
        PluginScanCache { entries: PathMap::from_entries(entries) }
    }
}

impl Clone for PluginScanCache {
    fn clone(&self) -> (copy: Self)
        ensures
            copy@ == self@,
    {
        let entries = self.to_entries();
        proof {
            law_listed_map_is_rebuilt(all_stored(entries@), self@);
        }
        PluginScanCache::from_entries(entries)
    }
}

/// A fingerprint keeps the time of a file as it is, as long as it fits: two files that were
/// changed at different times have different fingerprints, and a later time is never taken for an
/// earlier one.
pub proof fn law_fingerprint_keeps_the_time(a: u128, b: u128)
    ensures
        a <= u64::MAX ==> kept_millis(Some(a)) == a,
        a > u64::MAX ==> kept_millis(Some(a)) == u64::MAX,
        a <= b ==> kept_millis(Some(a)) <= kept_millis(Some(b)),
        a != b && a <= u64::MAX && b <= u64::MAX ==> kept_millis(Some(a)) != kept_millis(Some(b)),
        kept_millis(None) == 0,
{
}

/// A candidate that was checked is held with everything that was found out about it, under every
/// spelling of its path; the spelling that it was first stored under stays.
pub proof fn law_checked_candidate_is_held(
    cache: Map<Seq<u8>, Cached>,
    path: Seq<u8>,
    fingerprint: PluginCandidateFingerprint,
    validator: Option<PluginCandidateFingerprint>,
    valid: bool,
    clap_plugins: Seq<ClapPlugin>,
    vst3_plugins: Seq<Vst3Plugin>,
    spelling: Seq<u8>,
)
    requires
        path_class(spelling) == path_class(path),
    ensures
        ({
            let after = checked(
                cache,
                path,
                fingerprint,
                validator,
                valid,
                clap_plugins,
                vst3_plugins,
            );
            let held = after[path_class(spelling)];
            &&& after.contains_key(path_class(spelling))
            &&& held.value.fingerprint == fingerprint
            &&& held.value.validator_fingerprint == validator
            &&& held.value.valid == valid
            &&& held.value.clap_plugins == clap_plugins
            &&& held.value.vst3_plugins == vst3_plugins
            &&& cache.contains_key(path_class(path)) ==> held.path == cache[path_class(path)].path
            &&& !cache.contains_key(path_class(path)) ==> held.path == path
        }),
{
}

/// A candidate is known by the fingerprint that it was cached with and no other: as one with its
/// plugins if it is valid and has any, and as one without plugins if not. A candidate that is not
/// cached is not known, has changed, and is stale.
pub proof fn law_known_by_its_fingerprint(
    cache: Map<Seq<u8>, Cached>,
    path: Seq<u8>,
    fingerprint: PluginCandidateFingerprint,
    validator: Option<PluginCandidateFingerprint>,
)
    ensures
        ({
            let key = path_class(path);
            let held = cache[key].value;
            let unchanged = cache.contains_key(key) && held.fingerprint == fingerprint;
            let found = known(cache, path, fingerprint);
            &&& !unchanged ==> found is None && changed(cache, path, fingerprint) && stale(
                cache,
                path,
                fingerprint,
                validator,
            )
            &&& unchanged ==> {
                &&& found is Some
                &&& !changed(cache, path, fingerprint)
                &&& stale(cache, path, fingerprint, validator) <==> held.validator_fingerprint
                    != validator
                &&& found == Some(Known::Invalid) <==> !held.valid || held.clap_plugins.len() == 0
                    && held.vst3_plugins.len() == 0
                &&& held.valid && held.clap_plugins.len() > 0 ==> found == Some(
                    Known::Clap(held.clap_plugins),
                )
                &&& held.valid && held.clap_plugins.len() == 0 && held.vst3_plugins.len() > 0
                    ==> found == Some(Known::Vst3(held.vst3_plugins))
            }
        }),
{
}

/// The contents of a cached candidate are its own, item for item.
pub proof fn law_candidate_is_seen_in_full(candidate: CachedPluginCandidate)
    ensures
        candidate@.fingerprint == candidate.fingerprint,
        candidate@.validator_fingerprint == candidate.validator_fingerprint,
        candidate@.valid == candidate.valid,
        candidate@.clap_plugins.len() == candidate.clap_plugins@.len(),
        forall|i: int|
            0 <= i < candidate.clap_plugins@.len() ==> #[trigger] candidate@.clap_plugins[i]
                == candidate.clap_plugins@[i]@,
        candidate@.vst3_plugins.len() == candidate.vst3_plugins@.len(),
        forall|i: int|
            0 <= i < candidate.vst3_plugins@.len() ==> #[trigger] candidate@.vst3_plugins[i]
                == candidate.vst3_plugins@[i]@,
{
}

} // verus!
