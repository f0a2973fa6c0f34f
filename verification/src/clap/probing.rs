//! Probing a CLAP binary, one request to the plugin at a time.
//!
//! [`ClapProbe`] decides what is asked of the plugin and what its answers come to. Whoever drives
//! it carries out each [`ClapAction`] and hands the answer back as a [`ClapEvent`].

use std::path::{Path, PathBuf};
use vstd::prelude::*;

use super::descriptor::{
    is_compatible, metadata_from_descriptor, plugin_of, version_is_compatible, ClapVersion,
    Descriptor, DescriptorFacts,
};
use super::{
    bundle_binary, clap_plugins, is_candidate, is_clap_candidate, library_of, macos_bundle_binary,
    resolve_clap_library_path, ClapError, ClapPlugin, ClapPluginMetadata, ClapProbeError,
};
use crate::paths::{buffer_bytes, display, path_bytes, path_text};
use crate::text::has_nul;

verus! {

/// What the `clap_entry` symbol of a library offers.
#[derive(Debug, Clone, Copy, PartialEq, Eq, Structural)]
pub struct EntryFacts {
    /// CLAP version of the entry.
    pub clap_version: ClapVersion,
    /// Whether `init` is set.
    pub has_init: bool,
    /// Whether `deinit` is set.
    pub has_deinit: bool,
    /// Whether `get_factory` is set.
    pub has_get_factory: bool,
}

/// What a plugin factory offers.
#[derive(Debug, Clone, Copy, PartialEq, Eq, Structural)]
pub struct FactoryFacts {
    /// Whether `get_plugin_count` is set.
    pub has_get_plugin_count: bool,
    /// Whether `get_plugin_descriptor` is set.
    pub has_get_plugin_descriptor: bool,
}

/// What a probe wants done next.
pub enum ClapAction {
    /// Check whether this path is a file.
    CheckBundle(PathBuf),
    /// Load this dynamic library.
    LoadLibrary(PathBuf),
    /// Look up `clap_entry`.
    ReadEntry,
    /// Call `init` with this path.
    CallInit(String),
    /// Ask the entry for its plugin factory.
    GetFactory,
    /// Ask the factory how many plugins it has.
    CountPlugins,
    /// Ask the factory for one descriptor.
    ReadDescriptor(u32),
    /// Call `deinit`.
    CallDeinit,
    /// Nothing more: this is the outcome.
    Finish(Result<Vec<ClapPluginMetadata>, ClapProbeError>),
    /// The event was not the answer to the last action; that answer is still awaited.
    Wait,
}

/// The answer to a [`ClapAction`].
pub enum ClapEvent {
    /// Whether the path is a file.
    BundleChecked(bool),
    /// The library was loaded, or the loader's error.
    LibraryLoaded(Result<(), String>),
    /// The entry, unless the symbol is missing or null.
    EntryRead(Option<EntryFacts>),
    /// What `init` returned.
    Initialized(bool),
    /// The factory, unless it is null.
    FactoryRead(Option<FactoryFacts>),
    /// The number of plugins.
    PluginsCounted(u32),
    /// The descriptor, unless it is null.
    DescriptorRead(Option<DescriptorFacts>),
    /// `deinit` has returned.
    Deinitialized,
}

/// The outcome of a probe.
pub type Outcome = Result<Seq<ClapPlugin>, ClapError>;

/// The contents of a probe's outcome.
pub open spec fn outcome_view(outcome: Result<Vec<ClapPluginMetadata>, ClapProbeError>) -> Outcome {
    match outcome {
        Ok(plugins) => Ok(clap_plugins(plugins@)),
        Err(error) => Err(error@),
    }
}

/// The contents of a [`ClapAction`].
pub enum Request {
    CheckBundle(Seq<u8>),
    LoadLibrary(Seq<u8>),
    ReadEntry,
    CallInit(Seq<char>),
    GetFactory,
    CountPlugins,
    ReadDescriptor(u32),
    CallDeinit,
    Finish(Outcome),
    Wait,
}

impl View for ClapAction {
    type V = Request;

    open spec fn view(&self) -> Request {
        match self {
            ClapAction::CheckBundle(path) => Request::CheckBundle(buffer_bytes(*path)),
            ClapAction::LoadLibrary(path) => Request::LoadLibrary(buffer_bytes(*path)),
            ClapAction::ReadEntry => Request::ReadEntry,
            ClapAction::CallInit(path) => Request::CallInit(path@),
            ClapAction::GetFactory => Request::GetFactory,
            ClapAction::CountPlugins => Request::CountPlugins,
            ClapAction::ReadDescriptor(index) => Request::ReadDescriptor(*index),
            ClapAction::CallDeinit => Request::CallDeinit,
            ClapAction::Finish(outcome) => Request::Finish(outcome_view(*outcome)),
            ClapAction::Wait => Request::Wait,
        }
    }
}

/// The contents of a [`ClapEvent`].
pub enum Answer {
    BundleChecked(bool),
    LibraryLoaded(Result<(), Seq<char>>),
    EntryRead(Option<EntryFacts>),
    Initialized(bool),
    FactoryRead(Option<FactoryFacts>),
    PluginsCounted(u32),
    DescriptorRead(Option<Descriptor>),
    Deinitialized,
}

impl View for ClapEvent {
    type V = Answer;

    open spec fn view(&self) -> Answer {
        match self {
            ClapEvent::BundleChecked(is_file) => Answer::BundleChecked(*is_file),
            ClapEvent::LibraryLoaded(loaded) => Answer::LibraryLoaded(
                match loaded {
                    Ok(done) => Ok(*done),
                    Err(error) => Err(error@),
                },
            ),
            ClapEvent::EntryRead(entry) => Answer::EntryRead(*entry),
            ClapEvent::Initialized(ok) => Answer::Initialized(*ok),
            ClapEvent::FactoryRead(factory) => Answer::FactoryRead(*factory),
            ClapEvent::PluginsCounted(count) => Answer::PluginsCounted(*count),
            ClapEvent::DescriptorRead(descriptor) => Answer::DescriptorRead(
                match descriptor {
                    Some(facts) => Some(facts@),
                    None => None,
                },
            ),
            ClapEvent::Deinitialized => Answer::Deinitialized,
        }
    }
}

/// How far a probe has come.
enum Stage {
    Bundle,
    Library,
    Entry,
    Init,
    Factory,
    Count,
    Describe { count: u32, index: u32, plugins: Vec<ClapPluginMetadata> },
    Deinit { outcome: Result<Vec<ClapPluginMetadata>, ClapProbeError> },
    Finished,
}

/// The contents of a probe's stage.
pub enum Progress {
    Bundle,
    Library,
    Entry,
    Init,
    Factory,
    Count,
    Describe { count: u32, index: u32, plugins: Seq<ClapPlugin> },
    Deinit { outcome: Outcome },
    Finished,
}

/// A probe of one CLAP candidate.
pub struct ClapProbe {
    path: PathBuf,
    library_path: PathBuf,
    stage: Stage,
}

/// The contents of a [`ClapProbe`].
pub struct Probe {
    pub path: Seq<u8>,
    pub library_path: Seq<u8>,
    pub progress: Progress,
}

impl View for Stage {
    type V = Progress;

    closed spec fn view(&self) -> Progress {
        match self {
            Stage::Bundle => Progress::Bundle,
            Stage::Library => Progress::Library,
            Stage::Entry => Progress::Entry,
            Stage::Init => Progress::Init,
            Stage::Factory => Progress::Factory,
            Stage::Count => Progress::Count,
            Stage::Describe { count, index, plugins } => Progress::Describe {
                count: *count,
                index: *index,
                plugins: clap_plugins(plugins@),
            },
            Stage::Deinit { outcome } => Progress::Deinit { outcome: outcome_view(*outcome) },
            Stage::Finished => Progress::Finished,
        }
    }
}

impl View for ClapProbe {
    type V = Probe;

    closed spec fn view(&self) -> Probe {
        Probe {
            path: buffer_bytes(self.path),
            library_path: buffer_bytes(self.library_path),
            progress: self.stage@,
        }
    }
}

impl Probe {
    /// The probe at another stage, and what it then asks for.
    pub open spec fn at(self, progress: Progress, request: Request) -> (Probe, Request) {
        (Probe { progress, ..self }, request)
    }

    /// The probe ended with an error before the plugin was initialized.
    pub open spec fn fail(self, error: ClapError) -> (Probe, Request) {
        self.at(Progress::Finished, Request::Finish(Err(error)))
    }

    /// The probe with an outcome, which it announces once the plugin is shut down again.
    pub open spec fn wind_down(self, outcome: Outcome) -> (Probe, Request) {
        self.at(Progress::Deinit { outcome }, Request::CallDeinit)
    }

    /// The probe before the descriptor with this index.
    pub open spec fn describe(self, count: u32, index: u32, plugins: Seq<ClapPlugin>) -> (
        Probe,
        Request,
    ) {
        if index < count {
            self.at(Progress::Describe { count, index, plugins }, Request::ReadDescriptor(index))
        } else {
            self.wind_down(Ok(plugins))
        }
    }

    /// What an answer makes of the probe, and what it asks for next.
    pub open spec fn after(self, answer: Answer) -> (Probe, Request) {
        match (self.progress, answer) {
            (Progress::Bundle, Answer::BundleChecked(is_file)) => {
                let library_path = library_of(self.path, is_file);
                let resolved = Probe { library_path, ..self };
                if path_text(self.path).contains('\0') {
                    resolved.fail(ClapError::InvalidPath(path_text(self.path)))
                } else {
                    resolved.at(Progress::Library, Request::LoadLibrary(library_path))
                }
            },
            (Progress::Library, Answer::LibraryLoaded(loaded)) => match loaded {
                Ok(_) => self.at(Progress::Entry, Request::ReadEntry),
                Err(error) => self.fail(ClapError::Load { path: self.library_path, error }),
            },
            (Progress::Entry, Answer::EntryRead(entry)) => match entry {
                None => self.fail(ClapError::MissingEntry(self.library_path)),
                Some(facts) => if !is_compatible(facts.clap_version) {
                    self.fail(ClapError::IncompatibleVersion)
                } else if !facts.has_init {
                    self.fail(ClapError::MissingFunction("init"@))
                } else if !facts.has_deinit {
                    self.fail(ClapError::MissingFunction("deinit"@))
                } else if !facts.has_get_factory {
                    self.fail(ClapError::MissingFunction("get_factory"@))
                } else {
                    self.at(Progress::Init, Request::CallInit(path_text(self.path)))
                },
            },
            (Progress::Init, Answer::Initialized(ok)) => if ok {
                self.at(Progress::Factory, Request::GetFactory)
            } else {
                self.fail(ClapError::InitFailed)
            },
            (Progress::Factory, Answer::FactoryRead(factory)) => match factory {
                None => self.wind_down(Err(ClapError::MissingFactory)),
                Some(facts) => if !facts.has_get_plugin_count {
                    self.wind_down(Err(ClapError::MissingFunction("get_plugin_count"@)))
                } else if !facts.has_get_plugin_descriptor {
                    self.wind_down(Err(ClapError::MissingFunction("get_plugin_descriptor"@)))
                } else {
                    self.at(Progress::Count, Request::CountPlugins)
                },
            },
            (Progress::Count, Answer::PluginsCounted(count)) => self.describe(count, 0, seq![]),
            (Progress::Describe { count, index, plugins }, Answer::DescriptorRead(descriptor)) => {
                let plugin = match descriptor {
                    Some(d) => plugin_of(self.path, self.library_path, d),
                    None => None,
                };
                match plugin {
                    None => self.wind_down(Err(ClapError::InvalidDescriptor { index })),
                    Some(p) => self.describe(
                        count,
                        if index < count {
                            (index + 1) as u32
                        } else {
                            count
                        },
                        plugins.push(p),
                    ),
                }
            },
            (Progress::Deinit { outcome }, Answer::Deinitialized) => self.at(
                Progress::Finished,
                Request::Finish(outcome),
            ),
            _ => (self, Request::Wait),
        }
    }
}

/// A fresh probe of a path, and what it asks for first.
pub open spec fn first(path: Seq<u8>) -> (Probe, Request) {
    let probe = Probe { path, library_path: path, progress: Progress::Bundle };
    if is_candidate(path) {
        (probe, Request::CheckBundle(bundle_binary(path)))
    } else {
        probe.fail(ClapError::NotCandidate(path_text(path)))
    }
}

/// Starts to probe one CLAP candidate. Run it in the validator process, not in the host.
pub fn probe(path: &Path) -> (started: (ClapProbe, ClapAction))
    ensures
        (started.0@, started.1@) == first(path_bytes(path)),
{
    let candidate = is_clap_candidate(path);
    let stage = if candidate {
        Stage::Bundle
    } else {
        Stage::Finished
    };
    let probe = ClapProbe { path: path.to_path_buf(), library_path: path.to_path_buf(), stage };
    if candidate {
        (probe, ClapAction::CheckBundle(macos_bundle_binary(path)))
    } else {
        (probe, ClapAction::Finish(Err(ClapProbeError::NotCandidate(display(path)))))
    }
}

impl ClapProbe {
    /// Ends the probe with an error.
    fn fail(&mut self, error: ClapProbeError) -> (action: ClapAction)
        ensures
            (final(self)@, action@) == old(self)@.fail(error@),
    {
        self.stage = Stage::Finished;
        ClapAction::Finish(Err(error))
    }

    /// Keeps an outcome until the plugin is shut down.
    fn wind_down(
        &mut self,
        outcome: Result<Vec<ClapPluginMetadata>, ClapProbeError>,
    ) -> (action: ClapAction)
        ensures
            (final(self)@, action@) == old(self)@.wind_down(outcome_view(outcome)),
    {
        self.stage = Stage::Deinit { outcome };
        ClapAction::CallDeinit
    }

    /// Moves on to the descriptor with this index.
    fn describe(&mut self, count: u32, index: u32, plugins: Vec<ClapPluginMetadata>) -> (action:
        ClapAction)
        ensures
            (final(self)@, action@) == old(self)@.describe(count, index, clap_plugins(plugins@)),
    {
        if index < count {
            self.stage = Stage::Describe { count, index, plugins };
            ClapAction::ReadDescriptor(index)
        } else {
            self.wind_down(Ok(plugins))
        }
    }

    /// Checks what `clap_entry` offers.
    fn check_entry(&mut self, entry: Option<EntryFacts>) -> (action: ClapAction)
        requires
            old(self)@.progress is Entry,
        ensures
            (final(self)@, action@) == old(self)@.after(Answer::EntryRead(entry)),
    {
        match entry {
            None => {
                let library_path = self.library_path.as_path().to_path_buf();
                self.fail(ClapProbeError::MissingEntry(library_path))
            },
            Some(facts) => {
                if !version_is_compatible(facts.clap_version) {
                    self.fail(ClapProbeError::IncompatibleVersion)
                } else if !facts.has_init {
                    self.fail(ClapProbeError::MissingFunction("init"))
                } else if !facts.has_deinit {
                    self.fail(ClapProbeError::MissingFunction("deinit"))
                } else if !facts.has_get_factory {
                    self.fail(ClapProbeError::MissingFunction("get_factory"))
                } else {
                    self.stage = Stage::Init;
                    ClapAction::CallInit(display(self.path.as_path()))
                }
            },
        }
    }

    /// Checks what the factory offers.
    fn probe_initialized_factory(&mut self, factory: Option<FactoryFacts>) -> (action: ClapAction)
        requires
            old(self)@.progress is Factory,
        ensures
            (final(self)@, action@) == old(self)@.after(Answer::FactoryRead(factory)),
    {
        match factory {
            None => self.wind_down(Err(ClapProbeError::MissingFactory)),
            Some(facts) => {
                if !facts.has_get_plugin_count {
                    self.wind_down(Err(ClapProbeError::MissingFunction("get_plugin_count")))
                } else if !facts.has_get_plugin_descriptor {
                    self.wind_down(Err(ClapProbeError::MissingFunction("get_plugin_descriptor")))
                } else {
                    self.stage = Stage::Count;
                    ClapAction::CountPlugins
                }
            },
        }
    }

    /// Takes the answer to the last action and decides what to do next.
    pub fn resume(&mut self, event: ClapEvent) -> (action: ClapAction)
        ensures
            (final(self)@, action@) == old(self)@.after(event@),
    {
        let mut stage = Stage::Finished;
        std::mem::swap(&mut stage, &mut self.stage);
        match (stage, event) {
            (Stage::Bundle, ClapEvent::BundleChecked(is_file)) => {
                self.library_path = resolve_clap_library_path(self.path.as_path(), is_file);
                let text = display(self.path.as_path());
                if has_nul(text.as_str()) {
                    self.fail(ClapProbeError::InvalidPath(text))
                } else {
                    self.stage = Stage::Library;
                    ClapAction::LoadLibrary(self.library_path.as_path().to_path_buf())
                }
            },
            (Stage::Library, ClapEvent::LibraryLoaded(loaded)) => {
                match loaded {
                    Ok(_) => {
                        self.stage = Stage::Entry;
                        ClapAction::ReadEntry
                    },
                    Err(error) => {
                        let path = self.library_path.as_path().to_path_buf();
                        self.fail(ClapProbeError::Load { path, error })
                    },
                }
            },
            (Stage::Entry, ClapEvent::EntryRead(entry)) => {
                self.stage = Stage::Entry;
                self.check_entry(entry)
            },
            (Stage::Init, ClapEvent::Initialized(ok)) => {
                if ok {
                    self.stage = Stage::Factory;
                    ClapAction::GetFactory
                } else {
                    self.fail(ClapProbeError::InitFailed)
                }
            },
            (Stage::Factory, ClapEvent::FactoryRead(factory)) => {
                self.stage = Stage::Factory;
                self.probe_initialized_factory(factory)
            },
            (Stage::Count, ClapEvent::PluginsCounted(count)) => {
                let plugins: Vec<ClapPluginMetadata> = Vec::new();
                assert(clap_plugins(plugins@) =~= seq![]);
                self.describe(count, 0, plugins)
            },
            (
                Stage::Describe { count, index, plugins },
                ClapEvent::DescriptorRead(descriptor),
            ) => {
                let mut plugins = plugins;
                let ghost before = plugins@;
                let read = match &descriptor {
                    Some(facts) => metadata_from_descriptor(
                        self.path.as_path(),
                        self.library_path.as_path(),
                        facts,
                        index,
                    ),
                    None => Err(ClapProbeError::InvalidDescriptor { index }),
                };
                match read {
                    Ok(metadata) => {
                        plugins.push(metadata);
                        assert(clap_plugins(plugins@) =~= clap_plugins(before).push(metadata@));
                        let next: u32 = if index < count {
                            index + 1
                        } else {
                            count
                        };
                        self.describe(count, next, plugins)
                    },
                    Err(error) => self.wind_down(Err(error)),
                }
            },
            (Stage::Deinit { outcome }, ClapEvent::Deinitialized) => ClapAction::Finish(outcome),
            (stage, _) => {
                self.stage = stage;
                ClapAction::Wait
            },
        }
    }
}

/// A CLAP binary as a probe meets it: its answer to each question.
pub struct Binary {
    pub bundle_binary_is_file: bool,
    pub loaded: Result<(), Seq<char>>,
    pub entry: Option<EntryFacts>,
    pub initialized: bool,
    pub factory: Option<FactoryFacts>,
    pub count: u32,
    pub descriptors: spec_fn(u32) -> Option<Descriptor>,
}

impl Binary {
    /// The binary's answer to a request.
    pub open spec fn answer(self, request: Request) -> Answer {
        match request {
            Request::CheckBundle(_) => Answer::BundleChecked(self.bundle_binary_is_file),
            Request::LoadLibrary(_) => Answer::LibraryLoaded(self.loaded),
            Request::ReadEntry => Answer::EntryRead(self.entry),
            Request::CallInit(_) => Answer::Initialized(self.initialized),
            Request::GetFactory => Answer::FactoryRead(self.factory),
            Request::CountPlugins => Answer::PluginsCounted(self.count),
            Request::ReadDescriptor(index) => Answer::DescriptorRead((self.descriptors)(index)),
            _ => Answer::Deinitialized,
        }
    }

    /// The requests that the binary sees from a request on, at most `limit` of them.
    pub open spec fn requests(self, probe: Probe, request: Request, limit: nat) -> Seq<Request>
        decreases limit,
    {
        if limit == 0 {
            seq![]
        } else if request is Finish {
            seq![request]
        } else {
            let (next, then) = probe.after(self.answer(request));
            seq![request] + self.requests(next, then, (limit - 1) as nat)
        }
    }

    /// The plugins of the descriptors from `index` on, or the first of them that is invalid.
    pub open spec fn described(
        self,
        path: Seq<u8>,
        library_path: Seq<u8>,
        index: u32,
        plugins: Seq<ClapPlugin>,
    ) -> Outcome
        decreases self.count - index,
    {
        if index >= self.count {
            Ok(plugins)
        } else {
            let plugin = match (self.descriptors)(index) {
                Some(d) => plugin_of(path, library_path, d),
                None => None,
            };
            match plugin {
                Some(p) => self.described(path, library_path, (index + 1) as u32, plugins.push(p)),
                None => Err(ClapError::InvalidDescriptor { index }),
            }
        }
    }

    /// Whether the binary is initialized in the course of a probe of this path.
    pub open spec fn gets_initialized(self, path: Seq<u8>) -> bool {
        &&& is_candidate(path)
        &&& !path_text(path).contains('\0')
        &&& self.loaded is Ok
        &&& self.entry matches Some(facts)
        &&& is_compatible(facts.clap_version)
        &&& facts.has_init
        &&& facts.has_deinit
        &&& facts.has_get_factory
        &&& self.initialized
    }

    /// What a probe of this path finds.
    pub open spec fn outcome(self, path: Seq<u8>) -> Outcome {
        let library_path = library_of(path, self.bundle_binary_is_file);
        if !is_candidate(path) {
            Err(ClapError::NotCandidate(path_text(path)))
        } else if path_text(path).contains('\0') {
            Err(ClapError::InvalidPath(path_text(path)))
        } else if self.loaded is Err {
            Err(ClapError::Load { path: library_path, error: self.loaded->Err_0 })
        } else if self.entry is None {
            Err(ClapError::MissingEntry(library_path))
        } else if !is_compatible(self.entry->0.clap_version) {
            Err(ClapError::IncompatibleVersion)
        } else if !self.entry->0.has_init {
            Err(ClapError::MissingFunction("init"@))
        } else if !self.entry->0.has_deinit {
            Err(ClapError::MissingFunction("deinit"@))
        } else if !self.entry->0.has_get_factory {
            Err(ClapError::MissingFunction("get_factory"@))
        } else if !self.initialized {
            Err(ClapError::InitFailed)
        } else if self.factory is None {
            Err(ClapError::MissingFactory)
        } else if !self.factory->0.has_get_plugin_count {
            Err(ClapError::MissingFunction("get_plugin_count"@))
        } else if !self.factory->0.has_get_plugin_descriptor {
            Err(ClapError::MissingFunction("get_plugin_descriptor"@))
        } else {
            self.described(path, library_path, 0, seq![])
        }
    }
}

/// How often a request occurs.
pub open spec fn times(requests: Seq<Request>, request: Request) -> nat
    decreases requests.len(),
{
    if requests.len() == 0 {
        0
    } else {
        times(requests.drop_first(), request) + if requests.first() == request {
            1nat
        } else {
            0
        }
    }
}

proof fn lemma_times_step(first: Request, rest: Seq<Request>, request: Request)
    ensures
        times(seq![first] + rest, request) == times(rest, request) + if first == request {
            1nat
        } else {
            0
        },
{
    assert((seq![first] + rest).drop_first() =~= rest);
}

proof fn lemma_last_step(first: Request, rest: Seq<Request>)
    requires
        rest.len() > 0,
    ensures
        (seq![first] + rest).last() == rest.last(),
{
}

/// One request earlier: the rest of the run decides the end and the count, unless the request
/// is the counted one.
proof fn lemma_one_request(binary: Binary, probe: Probe, request: Request, limit: nat)
    requires
        limit > 1,
        !(request is Finish),
    ensures
        ({
            let (next, then) = probe.after(binary.answer(request));
            let rest = binary.requests(next, then, (limit - 1) as nat);
            let all = binary.requests(probe, request, limit);
            &&& rest.len() > 0 ==> all.last() == rest.last()
            &&& all.len() > 0
            &&& times(all, Request::CallDeinit) == times(rest, Request::CallDeinit) + if request
                == Request::CallDeinit {
                1nat
            } else {
                0
            }
        }),
{
    let (next, then) = probe.after(binary.answer(request));
    let rest = binary.requests(next, then, (limit - 1) as nat);
    lemma_times_step(request, rest, Request::CallDeinit);
    if rest.len() > 0 {
        lemma_last_step(request, rest);
    }
}

proof fn lemma_finish(binary: Binary, probe: Probe, request: Request, limit: nat)
    requires
        limit > 0,
        request is Finish,
    ensures
        binary.requests(probe, request, limit).last() == request,
        binary.requests(probe, request, limit).len() > 0,
        times(binary.requests(probe, request, limit), Request::CallDeinit) == 0,
{
    let all = binary.requests(probe, request, limit);
    assert(all == seq![request]);
    assert(times(all.drop_first(), Request::CallDeinit) == 0);
}

proof fn lemma_wind_down(binary: Binary, probe: Probe, outcome: Outcome, limit: nat)
    requires
        limit > 1,
    ensures
        ({
            let (next, then) = probe.wind_down(outcome);
            let all = binary.requests(next, then, limit);
            &&& all.len() > 0
            &&& all.last() == Request::Finish(outcome)
            &&& times(all, Request::CallDeinit) == 1
        }),
{
    let (next, then) = probe.wind_down(outcome);
    lemma_one_request(binary, next, then, limit);
    let (done, last) = next.after(binary.answer(then));
    lemma_finish(binary, done, last, (limit - 1) as nat);
}

proof fn lemma_described(
    binary: Binary,
    probe: Probe,
    index: u32,
    plugins: Seq<ClapPlugin>,
    limit: nat,
)
    requires
        index <= binary.count,
        limit > binary.count - index + 1,
    ensures
        ({
            let (next, then) = probe.describe(binary.count, index, plugins);
            let all = binary.requests(next, then, limit);
            &&& all.len() > 0
            &&& all.last() == Request::Finish(
                binary.described(probe.path, probe.library_path, index, plugins),
            )
            &&& times(all, Request::CallDeinit) == 1
        }),
    decreases binary.count - index,
{
    let (next, then) = probe.describe(binary.count, index, plugins);
    if index < binary.count {
        lemma_one_request(binary, next, then, limit);
        let plugin = match (binary.descriptors)(index) {
            Some(d) => plugin_of(probe.path, probe.library_path, d),
            None => None,
        };
        match plugin {
            Some(p) => {
                lemma_described(
                    binary,
                    next,
                    (index + 1) as u32,
                    plugins.push(p),
                    (limit - 1) as nat,
                );
            },
            None => {
                lemma_wind_down(
                    binary,
                    next,
                    Err(ClapError::InvalidDescriptor { index }),
                    (limit - 1) as nat,
                );
            },
        }
    } else {
        lemma_wind_down(binary, probe, Ok(plugins), limit);
    }
}

/// A probe comes to an end, and its outcome is the plugins of the binary or the first thing that
/// is wrong with it. The binary is shut down exactly once if it was initialized, and is not asked
/// to shut down if it was not.
pub proof fn law_probe_outcome(binary: Binary, path: Seq<u8>)
    ensures
        ({
            let (probe, request) = first(path);
            let all = binary.requests(probe, request, (binary.count + 9) as nat);
            &&& all.len() > 0
            &&& all.last() == Request::Finish(binary.outcome(path))
            &&& times(all, Request::CallDeinit) == if binary.gets_initialized(path) {
                1nat
            } else {
                0
            }
        }),
{
    let limit = (binary.count + 9) as nat;
    let (p0, r0) = first(path);
    if r0 is Finish {
        lemma_finish(binary, p0, r0, limit);
    } else {
        lemma_one_request(binary, p0, r0, limit);
        let (p1, r1) = p0.after(binary.answer(r0));
        if r1 is Finish {
            lemma_finish(binary, p1, r1, (limit - 1) as nat);
        } else {
            lemma_one_request(binary, p1, r1, (limit - 1) as nat);
            let (p2, r2) = p1.after(binary.answer(r1));
            if r2 is Finish {
                lemma_finish(binary, p2, r2, (limit - 2) as nat);
            } else {
                lemma_one_request(binary, p2, r2, (limit - 2) as nat);
                let (p3, r3) = p2.after(binary.answer(r2));
                if r3 is Finish {
                    lemma_finish(binary, p3, r3, (limit - 3) as nat);
                } else {
                    lemma_one_request(binary, p3, r3, (limit - 3) as nat);
                    let (p4, r4) = p3.after(binary.answer(r3));
                    if r4 is Finish {
                        lemma_finish(binary, p4, r4, (limit - 4) as nat);
                    } else {
                        lemma_one_request(binary, p4, r4, (limit - 4) as nat);
                        let (p5, r5) = p4.after(binary.answer(r4));
                        if r5 is CallDeinit {
                            lemma_wind_down(
                                binary,
                                p4,
                                p5.progress->outcome,
                                (limit - 5) as nat,
                            );
                        } else {
                            lemma_one_request(binary, p5, r5, (limit - 5) as nat);
                            lemma_described(binary, p5, 0, seq![], (limit - 6) as nat);
                        }
                    }
                }
            }
        }
    }
}

proof fn lemma_all_described(
    binary: Binary,
    path: Seq<u8>,
    library_path: Seq<u8>,
    index: u32,
    plugins: Seq<ClapPlugin>,
)
    requires
        index <= binary.count,
        plugins.len() == index,
        forall|i: u32|
            index <= i < binary.count ==> ((#[trigger] (binary.descriptors)(i)) matches Some(d)
                && plugin_of(path, library_path, d) is Some),
    ensures
        binary.described(path, library_path, index, plugins) matches Ok(all) && {
            &&& all.len() == binary.count
            &&& forall|i: int| 0 <= i < plugins.len() ==> all[i] == #[trigger] plugins[i]
            &&& forall|i: u32|
                index <= i < binary.count ==> plugin_of(
                    path,
                    library_path,
                    (#[trigger] (binary.descriptors)(i))->0,
                ) == Some(all[i as int])
        },
    decreases binary.count - index,
{
    if index < binary.count {
        let d = (binary.descriptors)(index)->0;
        let p = plugin_of(path, library_path, d)->0;
        lemma_all_described(binary, path, library_path, (index + 1) as u32, plugins.push(p));
        let all = binary.described(path, library_path, index, plugins)->Ok_0;
        assert forall|i: int| 0 <= i < plugins.len() implies all[i] == #[trigger] plugins[i] by {
            assert(plugins.push(p)[i] == plugins[i]);
        }
        assert(plugins.push(p)[index as int] == p);
    }
}

proof fn lemma_fault_described(
    binary: Binary,
    path: Seq<u8>,
    library_path: Seq<u8>,
    index: u32,
    plugins: Seq<ClapPlugin>,
    at: u32,
)
    requires
        index <= at < binary.count,
        forall|i: u32|
            index <= i < at ==> ((#[trigger] (binary.descriptors)(i)) matches Some(d) && plugin_of(
                path,
                library_path,
                d,
            ) is Some),
        (binary.descriptors)(at) matches Some(d) ==> plugin_of(path, library_path, d) is None,
    ensures
        binary.described(path, library_path, index, plugins) == Err::<Seq<ClapPlugin>, ClapError>(
            ClapError::InvalidDescriptor { index: at },
        ),
    decreases at - index,
{
    if index < at {
        let d = (binary.descriptors)(index)->0;
        let p = plugin_of(path, library_path, d)->0;
        lemma_fault_described(
            binary,
            path,
            library_path,
            (index + 1) as u32,
            plugins.push(p),
            at,
        );
    }
}

/// How a probe of a path ends.
pub open spec fn end_of_probe(binary: Binary, path: Seq<u8>) -> Request {
    let (probe, request) = first(path);
    binary.requests(probe, request, (binary.count + 9) as nat).last()
}

/// Whether a binary can be asked for its plugins: it loads, its entry is compatible and complete,
/// it initializes, and it has a complete factory.
pub open spec fn is_usable(binary: Binary) -> bool {
    &&& binary.loaded is Ok
    &&& binary.entry matches Some(entry)
    &&& entry.clap_version.major >= 1
    &&& entry.has_init && entry.has_deinit && entry.has_get_factory
    &&& binary.initialized
    &&& binary.factory matches Some(factory)
    &&& factory.has_get_plugin_count && factory.has_get_plugin_descriptor
}

/// A probe of a CLAP candidate that can be asked finds one plugin for each descriptor of its
/// factory, as the descriptor describes it and in the order of the descriptors.
pub proof fn law_probe_finds_every_plugin(binary: Binary, path: Seq<u8>)
    requires
        is_candidate(path),
        !path_text(path).contains('\0'),
        is_usable(binary),
        forall|i: u32|
            i < binary.count ==> ((#[trigger] (binary.descriptors)(i)) matches Some(d) && plugin_of(
                path,
                library_of(path, binary.bundle_binary_is_file),
                d,
            ) is Some),
    ensures
        end_of_probe(binary, path) matches Request::Finish(Ok(plugins)) && {
            &&& plugins.len() == binary.count
            &&& forall|i: u32|
                i < binary.count ==> plugin_of(
                    path,
                    library_of(path, binary.bundle_binary_is_file),
                    (#[trigger] (binary.descriptors)(i))->0,
                ) == Some(plugins[i as int])
        },
{
    law_probe_outcome(binary, path);
    let library = library_of(path, binary.bundle_binary_is_file);
    lemma_all_described(binary, path, library, 0, seq![]);
}

/// A probe ends with the first descriptor that is none, or describes no plugin: not even the
/// plugins before it are handed out.
pub proof fn law_probe_stops_at_a_bad_descriptor(binary: Binary, path: Seq<u8>, at: u32)
    requires
        is_candidate(path),
        !path_text(path).contains('\0'),
        is_usable(binary),
        at < binary.count,
        forall|i: u32|
            i < at ==> ((#[trigger] (binary.descriptors)(i)) matches Some(d) && plugin_of(
                path,
                library_of(path, binary.bundle_binary_is_file),
                d,
            ) is Some),
        (binary.descriptors)(at) matches Some(d) ==> plugin_of(
            path,
            library_of(path, binary.bundle_binary_is_file),
            d,
        ) is None,
    ensures
        end_of_probe(binary, path) == Request::Finish(
            Err(ClapError::InvalidDescriptor { index: at }),
        ),
{
    law_probe_outcome(binary, path);
    let library = library_of(path, binary.bundle_binary_is_file);
    lemma_fault_described(binary, path, library, 0, seq![], at);
}

/// A probe fails with the first thing that is wrong with the path or the binary, and says which
/// function is missing.
pub proof fn law_probe_names_the_fault(binary: Binary, path: Seq<u8>)
    ensures
        ({
            let end = end_of_probe(binary, path);
            let library = library_of(path, binary.bundle_binary_is_file);
            let failed = |error: ClapError| end == Request::Finish(Err(error));
            &&& !is_candidate(path) ==> failed(ClapError::NotCandidate(path_text(path)))
            &&& is_candidate(path) ==> {
                &&& path_text(path).contains('\0') ==> failed(
                    ClapError::InvalidPath(path_text(path)),
                )
                &&& !path_text(path).contains('\0') ==> {
                    &&& binary.loaded is Err ==> failed(
                        ClapError::Load { path: library, error: binary.loaded->Err_0 },
                    )
                    &&& binary.loaded is Ok && binary.entry is None ==> failed(
                        ClapError::MissingEntry(library),
                    )
                    &&& binary.loaded is Ok && binary.entry is Some ==> {
                        let entry = binary.entry->0;
                        &&& entry.clap_version.major == 0 ==> failed(ClapError::IncompatibleVersion)
                        &&& entry.clap_version.major >= 1 ==> {
                            &&& !entry.has_init ==> failed(ClapError::MissingFunction("init"@))
                            &&& entry.has_init && !entry.has_deinit ==> failed(
                                ClapError::MissingFunction("deinit"@),
                            )
                            &&& entry.has_init && entry.has_deinit && !entry.has_get_factory
                                ==> failed(ClapError::MissingFunction("get_factory"@))
                            &&& entry.has_init && entry.has_deinit && entry.has_get_factory
                                && !binary.initialized ==> failed(ClapError::InitFailed)
                        }
                    }
                }
            }
            &&& binary.gets_initialized(path) ==> {
                &&& binary.factory is None ==> failed(ClapError::MissingFactory)
                &&& binary.factory matches Some(factory) ==> {
                    &&& !factory.has_get_plugin_count ==> failed(
                        ClapError::MissingFunction("get_plugin_count"@),
                    )
                    &&& factory.has_get_plugin_count && !factory.has_get_plugin_descriptor
                        ==> failed(ClapError::MissingFunction("get_plugin_descriptor"@))
                }
            }
        }),
{
    law_probe_outcome(binary, path);
}

/// A probe asks about the candidate that it was given: whether its bundle has a binary, to load
/// its library, and to initialize it with its path as it is shown.
pub proof fn law_probe_asks_about_its_candidate(path: Seq<u8>, is_file: bool, entry: EntryFacts)
    requires
        is_candidate(path),
        !path_text(path).contains('\0'),
        entry.clap_version.major >= 1,
        entry.has_init && entry.has_deinit && entry.has_get_factory,
    ensures
        ({
            let (probe, check) = first(path);
            let (checked, load) = probe.after(Answer::BundleChecked(is_file));
            let (loaded, read) = checked.after(Answer::LibraryLoaded(Ok(())));
            let (entered, init) = loaded.after(Answer::EntryRead(Some(entry)));
            &&& check == Request::CheckBundle(library_of(path, true))
            &&& load == Request::LoadLibrary(library_of(path, is_file))
            &&& read == Request::ReadEntry
            &&& init == Request::CallInit(path_text(path))
            &&& entered.after(Answer::Initialized(true)).1 == Request::GetFactory
        }),
{
}

/// A binary whose `init` succeeded is shut down exactly once, whatever is wrong with it after
/// that; one that was not initialized, or whose `init` failed, is not asked to shut down.
pub proof fn law_initialized_binary_is_shut_down(binary: Binary, path: Seq<u8>)
    ensures
        ({
            let (probe, request) = first(path);
            let all = binary.requests(probe, request, (binary.count + 9) as nat);
            let entered = is_candidate(path) && !path_text(path).contains('\0')
                && binary.loaded is Ok && (binary.entry matches Some(entry)
                && entry.clap_version.major >= 1 && entry.has_init && entry.has_deinit
                && entry.has_get_factory);
            &&& entered && binary.initialized ==> times(all, Request::CallDeinit) == 1
            &&& !(entered && binary.initialized) ==> times(all, Request::CallDeinit) == 0
        }),
{
    law_probe_outcome(binary, path);
}

/// Plugins are handed out only after the binary was shut down, and what is handed out then is what
/// was kept until then.
pub proof fn law_outcome_waits_for_the_shutdown(probe: Probe, answer: Answer)
    ensures
        probe.after(answer).1 matches Request::Finish(outcome) ==> {
            &&& outcome is Ok ==> probe.progress is Deinit && answer is Deinitialized
            &&& probe.progress matches Progress::Deinit { outcome: kept } ==> outcome == kept
        },
        probe.progress matches Progress::Deinit { outcome } ==> probe.after(
            Answer::Deinitialized,
        ).1 == Request::Finish(outcome),
        probe.after(answer).1 is Wait ==> probe.after(answer).0 == probe,
        probe.after(answer).0.path == probe.path,
{
}

/// An answer to something else than what was asked for last changes nothing, and neither does one
/// after the end.
pub proof fn law_odd_answer_changes_nothing(probe: Probe, answer: Answer)
    requires
        match probe.progress {
            Progress::Bundle => !(answer is BundleChecked),
            Progress::Library => !(answer is LibraryLoaded),
            Progress::Entry => !(answer is EntryRead),
            Progress::Init => !(answer is Initialized),
            Progress::Factory => !(answer is FactoryRead),
            Progress::Count => !(answer is PluginsCounted),
            Progress::Describe { .. } => !(answer is DescriptorRead),
            Progress::Deinit { .. } => !(answer is Deinitialized),
            Progress::Finished => true,
        },
    ensures
        probe.after(answer) == (probe, Request::Wait),
{
}

} // verus!
