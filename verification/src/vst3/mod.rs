//! VST3 plugin adapter.

pub mod class_info;
pub mod editor;
pub mod midi;
pub mod module;
pub mod probing;
pub mod runtime;
pub mod store;
pub mod walk;

pub use self::probing::probe;
pub use self::store::register_plugins;
pub use self::walk::candidate_paths;

use std::path::{Path, PathBuf};
use vstd::prelude::*;
use vstd::string::*;

use crate::paths::{
    buffer_bytes, display, file_name_of, file_stem, has_extension, join, joined,
    name_has_extension, path_bytes, path_text, stem_text,
};
use crate::registry::{Backend, EditorDescriptor, EditorSize, Entry, EntryView, Role};
use crate::text::optional_text;

verus! {

/// VST3 plugin format id used by the validator.
pub const FORMAT: &'static str = "vst3";

/// Validated VST3 plugin metadata.
#[derive(Debug, PartialEq, Eq)]
pub struct Vst3PluginMetadata {
    /// Stable processor id.
    pub processor_id: String,
    /// VST3 processor class id as lowercase hex.
    pub class_id: String,
    /// User-visible plugin name.
    pub name: String,
    /// User-visible vendor, when reported by the plugin.
    pub vendor: Option<String>,
    /// User-visible version, when reported by the plugin.
    pub version: Option<String>,
    /// Raw VST3 subcategory string.
    pub category: Option<String>,
    /// Mixer processor role inferred from VST3 subcategories.
    pub role: Role,
    /// Candidate path, usually the `.vst3` bundle or file.
    pub path: PathBuf,
    /// Native dynamic library path inside the candidate.
    pub library_path: PathBuf,
}

/// The contents of a [`Vst3PluginMetadata`].
#[verifier::ext_equal]
pub struct Vst3Plugin {
    pub processor_id: Seq<char>,
    pub class_id: Seq<char>,
    pub name: Seq<char>,
    pub vendor: Option<Seq<char>>,
    pub version: Option<Seq<char>>,
    pub category: Option<Seq<char>>,
    pub role: Role,
    pub path: Seq<u8>,
    pub library_path: Seq<u8>,
}

impl View for Vst3PluginMetadata {
    type V = Vst3Plugin;

    open spec fn view(&self) -> Vst3Plugin {
        Vst3Plugin {
            processor_id: self.processor_id@,
            class_id: self.class_id@,
            name: self.name@,
            vendor: optional_text(self.vendor),
            version: optional_text(self.version),
            category: optional_text(self.category),
            role: self.role,
            path: buffer_bytes(self.path),
            library_path: buffer_bytes(self.library_path),
        }
    }
}

impl Clone for Vst3PluginMetadata {
    fn clone(&self) -> (copy: Self)
        ensures
            copy@ == self@,
    {
        Vst3PluginMetadata {
            processor_id: self.processor_id.clone(),
            class_id: self.class_id.clone(),
            name: self.name.clone(),
            vendor: self.vendor.clone(),
            version: self.version.clone(),
            category: self.category.clone(),
            role: self.role,
            path: self.path.as_path().to_path_buf(),
            library_path: self.library_path.as_path().to_path_buf(),
        }
    }
}

/// The contents of each plugin of a list.
pub open spec fn vst3_plugins(plugins: Seq<Vst3PluginMetadata>) -> Seq<Vst3Plugin> {
    plugins.map_values(|plugin: Vst3PluginMetadata| plugin@)
}

/// Copies a list of plugins.
pub(crate) fn clone_plugins(plugins: &Vec<Vst3PluginMetadata>) -> (copy: Vec<Vst3PluginMetadata>)
    ensures
        vst3_plugins(copy@) == vst3_plugins(plugins@),
{
    let copy = plugins.clone();
    assert(vst3_plugins(copy@) =~= vst3_plugins(plugins@));
    copy
}

/// Structured validation report emitted by the validator helper.
#[derive(Debug, PartialEq, Eq)]
pub struct ValidationReport {
    /// Plugin format.
    pub format: String,
    /// Candidate path.
    pub path: PathBuf,
    /// Validation result.
    pub result: Result<Vec<Vst3PluginMetadata>, String>,
}

impl Clone for ValidationReport {
    fn clone(&self) -> (copy: Self)
        ensures
            copy.format@ == self.format@,
            buffer_bytes(copy.path) == buffer_bytes(self.path),
            match (copy.result, self.result) {
                (Ok(plugins), Ok(same)) => vst3_plugins(plugins@) == vst3_plugins(same@),
                (Err(error), Err(same)) => error@ == same@,
                _ => false,
            },
    {
        ValidationReport {
            format: self.format.clone(),
            path: self.path.as_path().to_path_buf(),
            result: match &self.result {
                Ok(plugins) => Ok(clone_plugins(plugins)),
                Err(error) => Err(error.clone()),
            },
        }
    }
}

/// VST3 probing error.
#[derive(Debug)]
pub enum Vst3ProbeError {
    /// Candidate is not a VST3 file or bundle.
    NotCandidate(PathBuf),
    /// VST3 binary path could not be resolved.
    MissingLibrary(PathBuf),
    /// Dynamic library could not be loaded.
    LoadLibrary {
        /// Library path.
        path: PathBuf,
        /// Loader error.
        error: String,
    },
    /// Required exported symbol is missing.
    MissingExport(&'static str),
    /// Plugin factory export returned null.
    MissingFactory,
    /// Factory exposed no VST3 audio processor classes.
    NoPluginClasses,
}

/// The contents of a [`Vst3ProbeError`].
pub enum Vst3Error {
    NotCandidate(Seq<u8>),
    MissingLibrary(Seq<u8>),
    LoadLibrary { path: Seq<u8>, error: Seq<char> },
    MissingExport(Seq<char>),
    MissingFactory,
    NoPluginClasses,
}

impl View for Vst3ProbeError {
    type V = Vst3Error;

    open spec fn view(&self) -> Vst3Error {
        match self {
            Vst3ProbeError::NotCandidate(path) => Vst3Error::NotCandidate(buffer_bytes(*path)),
            Vst3ProbeError::MissingLibrary(path) => Vst3Error::MissingLibrary(buffer_bytes(*path)),
            Vst3ProbeError::LoadLibrary { path, error } => Vst3Error::LoadLibrary {
                path: buffer_bytes(*path),
                error: error@,
            },
            Vst3ProbeError::MissingExport(name) => Vst3Error::MissingExport(name@),
            Vst3ProbeError::MissingFactory => Vst3Error::MissingFactory,
            Vst3ProbeError::NoPluginClasses => Vst3Error::NoPluginClasses,
        }
    }
}

impl Vst3Error {
    /// The sentence that reports the error.
    pub open spec fn text(self) -> Seq<char> {
        match self {
            Vst3Error::NotCandidate(path) => "not a VST3 candidate: "@ + path_text(path),
            Vst3Error::MissingLibrary(path) => "VST3 binary not found for "@ + path_text(path),
            Vst3Error::LoadLibrary { path, error } => "failed to load VST3 library "@ + path_text(
                path,
            ) + ": "@ + error,
            Vst3Error::MissingExport(name) => "missing VST3 export `"@ + name + "`"@,
            Vst3Error::MissingFactory => "VST3 factory export returned null"@,
            Vst3Error::NoPluginClasses => "no VST3 audio processor classes found"@,
        }
    }
}

impl Vst3ProbeError {
    /// Returns the sentence that reports the error.
    pub fn message(&self) -> (text: String)
        ensures
            text@ == self@.text(),
    {
        match self {
            Vst3ProbeError::NotCandidate(path) => {
                "not a VST3 candidate: ".to_owned().concat(display(path.as_path()).as_str())
            },
            Vst3ProbeError::MissingLibrary(path) => {
                "VST3 binary not found for ".to_owned().concat(display(path.as_path()).as_str())
            },
            Vst3ProbeError::LoadLibrary { path, error } => {
                let mut text = "failed to load VST3 library ".to_owned();
                text.append(display(path.as_path()).as_str());
                text.append(": ");
                text.append(error.as_str());
                text
            },
            Vst3ProbeError::MissingExport(name) => {
                let mut text = "missing VST3 export `".to_owned();
                text.append(name);
                text.append("`");
                text
            },
            Vst3ProbeError::MissingFactory => "VST3 factory export returned null".to_owned(),
            Vst3ProbeError::NoPluginClasses => "no VST3 audio processor classes found".to_owned(),
        }
    }
}

/// Whether a path with these bytes is a VST3 candidate: its file name ends in `.vst3`.
pub open spec fn is_candidate(path: Seq<u8>) -> bool {
    name_has_extension(file_name_of(path), FORMAT@)
}

/// Returns whether `path` looks like a VST3 candidate.
#[must_use]
pub fn is_vst3_candidate(path: &Path) -> (r: bool)
    ensures
        r == is_candidate(path_bytes(path)),
{
    has_extension(path, FORMAT)
}

/// Operating system family that a plugin binary is looked up for.
#[derive(Debug, Clone, Copy, PartialEq, Eq, Structural)]
pub enum Platform {
    /// macOS.
    MacOs,
    /// Windows.
    Windows,
    /// Any other Unix.
    Unix,
}

/// Where a bundle may keep its binary, in the order in which the places are tried.
pub open spec fn binary_candidates(platform: Platform, path: Seq<u8>, stem: Seq<char>) -> Seq<
    Seq<u8>,
> {
    let contents = joined(path, "Contents"@);
    match platform {
        Platform::MacOs => seq![joined(joined(contents, "MacOS"@), stem)],
        Platform::Windows => seq![
            joined(joined(contents, "x86_64-win"@), stem + ".vst3"@),
            joined(path, stem + ".vst3"@),
        ],
        Platform::Unix => seq![
            joined(joined(contents, "x86_64-linux"@), stem + ".so"@),
            joined(path, stem + ".so"@),
        ],
    }
}

/// Returns where a bundle may keep its binary, in the order in which the places are tried.
pub fn platform_vst3_binary_candidates(platform: Platform, path: &Path, stem: &str) -> (places: Vec<
    PathBuf,
>)
    ensures
        crate::paths::all_bytes(places@) == binary_candidates(platform, path_bytes(path), stem@),
{
    let contents = join(path, "Contents");
    let mut places: Vec<PathBuf> = Vec::new();
    match platform {
        Platform::MacOs => {
            places.push(join(join(contents.as_path(), "MacOS").as_path(), stem));
        },
        Platform::Windows => {
            let name = stem.to_owned().concat(".vst3");
            places.push(join(join(contents.as_path(), "x86_64-win").as_path(), name.as_str()));
            places.push(join(path, name.as_str()));
        },
        Platform::Unix => {
            let name = stem.to_owned().concat(".so");
            places.push(join(join(contents.as_path(), "x86_64-linux").as_path(), name.as_str()));
            places.push(join(path, name.as_str()));
        },
    }
    assert(crate::paths::all_bytes(places@) =~= binary_candidates(
        platform,
        path_bytes(path),
        stem@,
    ));
    places
}

/// Where the binary of a candidate may be.
pub open spec fn library_candidates_of(platform: Platform, path: Seq<u8>) -> Seq<Seq<u8>> {
    binary_candidates(platform, path, stem_text(file_name_of(path)))
}

/// Returns where the binary of a candidate may be.
pub fn library_candidates(platform: Platform, path: &Path) -> (places: Vec<PathBuf>)
    ensures
        crate::paths::all_bytes(places@) == library_candidates_of(platform, path_bytes(path)),
{
    let stem = file_stem(path);
    platform_vst3_binary_candidates(platform, path, stem.as_str())
}

/// The first of some paths that exists.
pub open spec fn first_existing(places: Seq<Seq<u8>>, existing: Seq<bool>) -> Option<Seq<u8>>
    decreases places.len(),
{
    if places.len() == 0 || existing.len() == 0 {
        None
    } else if existing.first() {
        Some(places.first())
    } else {
        first_existing(places.drop_first(), existing.drop_first())
    }
}

/// The dynamic library of a candidate: the candidate itself if it is a file, else the first
/// place that exists, else the candidate.
pub open spec fn library_of(
    platform: Platform,
    path: Seq<u8>,
    is_file: bool,
    existing: Seq<bool>,
) -> Seq<u8> {
    if is_file {
        path
    } else {
        match first_existing(library_candidates_of(platform, path), existing) {
            Some(place) => place,
            None => path,
        }
    }
}

/// Resolves the dynamic library path for a VST3 candidate, given whether the candidate is a file
/// and which of its [`library_candidates`] exist.
#[must_use]
pub fn resolve_vst3_library_path(
    platform: Platform,
    path: &Path,
    is_file: bool,
    existing: &Vec<bool>,
) -> (library: PathBuf)
    ensures
        buffer_bytes(library) == library_of(platform, path_bytes(path), is_file, existing@),
{
    if is_file {
        return path.to_path_buf();
    }
    let places = library_candidates(platform, path);
    let ghost all = crate::paths::all_bytes(places@);
    assert(all.skip(0) =~= all);
    assert(existing@.skip(0) =~= existing@);
    let mut i: usize = 0;
    while i < places.len() && i < existing.len()
        invariant
            i <= places@.len(),
            i <= existing@.len(),
            all == crate::paths::all_bytes(places@),
            all == library_candidates_of(platform, path_bytes(path)),
            !is_file,
            first_existing(all, existing@) == first_existing(
                all.skip(i as int),
                existing@.skip(i as int),
            ),
        decreases places@.len() - i,
    {
        if existing[i] {
            return places[i].as_path().to_path_buf();
        }
        assert(all.skip(i as int).drop_first() =~= all.skip(i + 1));
        assert(existing@.skip(i as int).drop_first() =~= existing@.skip(i + 1));
        i = i + 1;
    }
    path.to_path_buf()
}

/// The stable processor id of a class in the path with these bytes.
pub open spec fn processor_id(path: Seq<u8>, class_id: Seq<char>) -> Seq<char> {
    "vst3:"@ + path_text(path) + "#"@ + class_id
}

/// Builds a stable processor id from a VST3 path and class id.
#[must_use]
pub fn stable_processor_id(path: &Path, class_id: &str) -> (id: String)
    ensures
        id@ == processor_id(path_bytes(path), class_id@),
{
    let mut id = "vst3:".to_owned();
    id.append(display(path).as_str());
    id.append("#");
    id.append(class_id);
    id
}

/// The editor that every VST3 plugin is registered with.
pub open spec fn default_editor() -> EditorDescriptor {
    EditorDescriptor {
        default_size: EditorSize { width: 640, height: 480 },
        min_size: None,
        resizable: true,
    }
}

/// Returns the editor that every VST3 plugin is registered with.
pub fn default_vst3_editor_descriptor() -> (editor: EditorDescriptor)
    ensures
        editor == default_editor(),
{
    EditorDescriptor {
        default_size: EditorSize { width: 640, height: 480 },
        min_size: None,
        resizable: true,
    }
}

/// The registry entry of a VST3 plugin.
pub open spec fn entry_of(plugin: Vst3Plugin) -> EntryView {
    EntryView {
        id: plugin.processor_id,
        name: plugin.name,
        backend: Backend::Vst3,
        role: plugin.role,
        vendor: plugin.vendor,
        descriptor_name: plugin.name,
        editor: Some(default_editor()),
    }
}

/// Describes one VST3 plugin to the registry.
pub fn registry_entry_for_plugin(plugin: Vst3PluginMetadata) -> (entry: Entry)
    ensures
        entry@ == entry_of(plugin@),
        entry.id@ == plugin.processor_id@,
        entry.name@ == plugin.name@,
        entry.role == plugin.role,
        entry.backend == Backend::Vst3,
{
    Entry {
        id: plugin.processor_id,
        descriptor_name: plugin.name.clone(),
        name: plugin.name,
        backend: Backend::Vst3,
        role: plugin.role,
        vendor: plugin.vendor,
        editor: Some(default_vst3_editor_descriptor()),
    }
}

/// A plugin is registered under its own id and name, with the role that probing gave it, as a VST3
/// plugin of its vendor with an editor that can be resized: instruments as instruments, effects as
/// effects.
pub proof fn law_entry_is_the_plugin(plugin: Vst3Plugin)
    ensures
        entry_of(plugin).id == plugin.processor_id,
        entry_of(plugin).name == plugin.name,
        entry_of(plugin).descriptor_name == plugin.name,
        entry_of(plugin).vendor == plugin.vendor,
        entry_of(plugin).backend == Backend::Vst3,
        entry_of(plugin).role == plugin.role,
        entry_of(plugin).role is Instrument <==> plugin.role is Instrument,
        entry_of(plugin).role is Effect <==> plugin.role is Effect,
        entry_of(plugin).editor matches Some(editor) && {
            &&& editor.default_size.width == 640
            &&& editor.default_size.height == 480
            &&& editor.min_size is None
            &&& editor.resizable
        },
{
}

/// A bundle is searched for the binary of its own name where its platform keeps it, under
/// `Contents`, and but for macOS in the bundle itself after that; nowhere else.
pub proof fn law_binary_is_looked_for_in_the_bundle(path: Seq<u8>, stem: Seq<char>)
    ensures
        binary_candidates(Platform::MacOs, path, stem).len() == 1,
        binary_candidates(Platform::MacOs, path, stem)[0] == joined(
            joined(joined(path, "Contents"@), "MacOS"@),
            stem,
        ),
        binary_candidates(Platform::Windows, path, stem).len() == 2,
        binary_candidates(Platform::Windows, path, stem)[0] == joined(
            joined(joined(path, "Contents"@), "x86_64-win"@),
            stem + ".vst3"@,
        ),
        binary_candidates(Platform::Windows, path, stem)[1] == joined(path, stem + ".vst3"@),
        binary_candidates(Platform::Unix, path, stem).len() == 2,
        binary_candidates(Platform::Unix, path, stem)[0] == joined(
            joined(joined(path, "Contents"@), "x86_64-linux"@),
            stem + ".so"@,
        ),
        binary_candidates(Platform::Unix, path, stem)[1] == joined(path, stem + ".so"@),
{
}

proof fn lemma_first_existing(places: Seq<Seq<u8>>, existing: Seq<bool>, at: int)
    requires
        places.len() == existing.len(),
        0 <= at <= existing.len(),
        forall|i: int| 0 <= i < at ==> !#[trigger] existing[i],
        at < existing.len() ==> existing[at],
    ensures
        first_existing(places, existing) == if at < places.len() {
            Some(places[at])
        } else {
            None
        },
    decreases places.len(),
{
    if places.len() > 0 {
        if at > 0 {
            assert(!existing[0]);
            assert forall|i: int| 0 <= i < at - 1 implies !#[trigger] existing.drop_first()[i] by {
                assert(!existing[i + 1]);
            }
            lemma_first_existing(places.drop_first(), existing.drop_first(), at - 1);
        }
    }
}

/// A candidate that is a file is its own library. One that is not has the first of its places that
/// exists, before all later ones, and is its own library where none exists.
pub proof fn law_library_is_the_first_place(
    platform: Platform,
    path: Seq<u8>,
    existing: Seq<bool>,
    at: int,
)
    requires
        existing.len() == library_candidates_of(platform, path).len(),
        0 <= at <= existing.len(),
        forall|i: int| 0 <= i < at ==> !#[trigger] existing[i],
        at < existing.len() ==> existing[at],
    ensures
        library_of(platform, path, true, existing) == path,
        at < existing.len() ==> library_of(platform, path, false, existing)
            == library_candidates_of(platform, path)[at],
        at == existing.len() ==> library_of(platform, path, false, existing) == path,
        file_name_of(path) matches Some(name) ==> library_candidates_of(platform, path)
            == binary_candidates(platform, path, stem_text(Some(name))),
{
    lemma_first_existing(library_candidates_of(platform, path), existing, at);
}

/// A processor id names the format, the path as it is shown and the class, in this order: it
/// begins with the first, ends with the last, and the path stands between them.
pub proof fn law_processor_id_names_path_and_class(path: Seq<u8>, class_id: Seq<char>)
    ensures
        ({
            let id = processor_id(path, class_id);
            let shown = path_text(path);
            &&& id.len() == 5 + shown.len() + 1 + class_id.len()
            &&& id.take(5) == "vst3:"@
            &&& id.subrange(5, 5 + shown.len() as int) == shown
            &&& id[5 + shown.len() as int] == '#'
            &&& id.skip(6 + shown.len() as int) == class_id
        }),
{
    reveal_strlit("vst3:");
    reveal_strlit("#");
    let id = processor_id(path, class_id);
    let shown = path_text(path);
    assert(id.take(5) =~= "vst3:"@);
    assert(id.subrange(5, 5 + shown.len() as int) =~= shown);
    assert(id.skip(6 + shown.len() as int) =~= class_id);
}

/// Every report of a failure names what failed, at its end: the path, the loader's error, or the
/// export in its quotes.
pub proof fn law_failure_names_its_cause(path: Seq<u8>, error: Seq<char>, name: Seq<char>)
    ensures
        Vst3Error::NotCandidate(path).text() == "not a VST3 candidate: "@ + path_text(path),
        Vst3Error::MissingLibrary(path).text() == "VST3 binary not found for "@ + path_text(path),
        (Vst3Error::LoadLibrary { path, error }).text() == "failed to load VST3 library "@
            + path_text(path) + ": "@ + error,
        Vst3Error::MissingExport(name).text() == "missing VST3 export `"@ + name + "`"@,
        Vst3Error::MissingFactory.text() == "VST3 factory export returned null"@,
        Vst3Error::NoPluginClasses.text() == "no VST3 audio processor classes found"@,
{
}

/// The contents of a plugin's metadata are its own, item for item.
pub proof fn law_metadata_is_seen_in_full(plugin: Vst3PluginMetadata)
    ensures
        plugin@.processor_id == plugin.processor_id@,
        plugin@.class_id == plugin.class_id@,
        plugin@.name == plugin.name@,
        plugin@.vendor is Some <==> plugin.vendor is Some,
        plugin.vendor matches Some(vendor) ==> plugin@.vendor == Some(vendor@),
        plugin@.version is Some <==> plugin.version is Some,
        plugin.version matches Some(version) ==> plugin@.version == Some(version@),
        plugin@.category is Some <==> plugin.category is Some,
        plugin.category matches Some(category) ==> plugin@.category == Some(category@),
        plugin@.role == plugin.role,
        plugin@.path == buffer_bytes(plugin.path),
        plugin@.library_path == buffer_bytes(plugin.library_path),
{
}

} // verus!
