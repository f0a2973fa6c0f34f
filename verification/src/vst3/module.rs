//! Loading a VST3 module, one call into its library at a time.

use std::path::{Path, PathBuf};
use vstd::prelude::*;

use super::{Platform, Vst3Error, Vst3ProbeError};
use crate::path_map::{with_entry, PathEntry, PathMap};
use crate::paths::{buffer_bytes, path_bytes, path_class};

verus! {

/// Export that returns a module's factory.
pub const FACTORY_EXPORT: &'static str = "GetPluginFactory";

/// What loading asks for.
#[derive(Debug)]
pub enum ModuleAction {
    /// Open a dynamic library.
    Open(PathBuf),
    /// Call the optional export that initializes the module, if the library has it.
    CallEntry(&'static str),
    /// Look an export up.
    FindExport(&'static str),
    /// Call the export that was found.
    CallFactory,
    /// Nothing: the module is loaded.
    Loaded,
    /// Nothing: the module could not be loaded.
    Failed(Vst3ProbeError),
    /// The answer to the last request, which the given one was not.
    Wait,
}

/// The answer to a request.
#[derive(Debug)]
pub enum ModuleReply {
    /// Whether the library was opened.
    Opened(Result<(), String>),
    /// What the initializer returned, where the library has one.
    Entered(Option<bool>),
    /// Whether the export is there.
    Found(bool),
    /// Whether the factory is not null.
    Factory(bool),
}

/// The contents of a [`ModuleAction`].
pub enum ModuleRequest {
    Open(Seq<u8>),
    CallEntry(Seq<char>),
    FindExport(Seq<char>),
    CallFactory,
    Loaded,
    Failed(Vst3Error),
    Wait,
}

impl View for ModuleAction {
    type V = ModuleRequest;

    open spec fn view(&self) -> ModuleRequest {
        match self {
            ModuleAction::Open(path) => ModuleRequest::Open(buffer_bytes(*path)),
            ModuleAction::CallEntry(name) => ModuleRequest::CallEntry(name@),
            ModuleAction::FindExport(name) => ModuleRequest::FindExport(name@),
            ModuleAction::CallFactory => ModuleRequest::CallFactory,
            ModuleAction::Loaded => ModuleRequest::Loaded,
            ModuleAction::Failed(error) => ModuleRequest::Failed(error@),
            ModuleAction::Wait => ModuleRequest::Wait,
        }
    }
}

/// The contents of a [`ModuleReply`].
pub enum ModuleAnswer {
    Opened(Result<(), Seq<char>>),
    Entered(Option<bool>),
    Found(bool),
    Factory(bool),
}

impl View for ModuleReply {
    type V = ModuleAnswer;

    open spec fn view(&self) -> ModuleAnswer {
        match self {
            ModuleReply::Opened(Ok(())) => ModuleAnswer::Opened(Ok(())),
            ModuleReply::Opened(Err(error)) => ModuleAnswer::Opened(Err(error@)),
            ModuleReply::Entered(entered) => ModuleAnswer::Entered(*entered),
            ModuleReply::Found(found) => ModuleAnswer::Found(*found),
            ModuleReply::Factory(factory) => ModuleAnswer::Factory(*factory),
        }
    }
}

/// The optional export that initializes a module on some platform.
pub open spec fn entry_name(platform: Platform) -> Seq<char> {
    match platform {
        Platform::MacOs => "BundleEntry"@,
        Platform::Windows => "InitDll"@,
        Platform::Unix => "ModuleEntry"@,
    }
}

/// Returns the optional export that initializes a module on some platform.
pub fn entry_export(platform: Platform) -> (name: &'static str)
    ensures
        name@ == entry_name(platform),
{
    match platform {
        Platform::MacOs => "BundleEntry",
        Platform::Windows => "InitDll",
        Platform::Unix => "ModuleEntry",
    }
}

/// What loading waits for.
#[derive(Debug, Clone, Copy, PartialEq, Eq, Structural)]
pub enum ModuleStage {
    /// The library.
    Open,
    /// The initializer.
    Enter,
    /// The factory export.
    Find,
    /// The factory.
    Factory,
    /// Nothing.
    Done,
}

/// A module that is being loaded.
#[derive(Debug)]
pub struct ModuleLoad {
    platform: Platform,
    library_path: PathBuf,
    stage: ModuleStage,
}

/// The contents of a [`ModuleLoad`].
pub struct Load {
    pub platform: Platform,
    pub library_path: Seq<u8>,
    pub stage: ModuleStage,
}

impl View for ModuleLoad {
    type V = Load;

    closed spec fn view(&self) -> Load {
        Load {
            platform: self.platform,
            library_path: buffer_bytes(self.library_path),
            stage: self.stage,
        }
    }
}

/// A module that begins to be loaded, and what that asks for first.
pub open spec fn first(platform: Platform, library_path: Seq<u8>) -> (Load, ModuleRequest) {
    (
        Load { platform, library_path, stage: ModuleStage::Open },
        ModuleRequest::Open(library_path),
    )
}

impl Load {
    /// Goes on to wait for something else.
    pub open spec fn at(self, stage: ModuleStage, request: ModuleRequest) -> (Load, ModuleRequest) {
        (Load { stage, ..self }, request)
    }

    /// What loading does with an answer.
    pub open spec fn after(self, answer: ModuleAnswer) -> (Load, ModuleRequest) {
        match (self.stage, answer) {
            (ModuleStage::Open, ModuleAnswer::Opened(Ok(()))) => self.at(
                ModuleStage::Enter,
                ModuleRequest::CallEntry(entry_name(self.platform)),
            ),
            (ModuleStage::Open, ModuleAnswer::Opened(Err(error))) => self.at(
                ModuleStage::Done,
                ModuleRequest::Failed(Vst3Error::LoadLibrary { path: self.library_path, error }),
            ),
            (ModuleStage::Enter, ModuleAnswer::Entered(Some(false))) => self.at(
                ModuleStage::Done,
                ModuleRequest::Failed(Vst3Error::MissingExport(entry_name(self.platform))),
            ),
            (ModuleStage::Enter, ModuleAnswer::Entered(_)) => self.at(
                ModuleStage::Find,
                ModuleRequest::FindExport(FACTORY_EXPORT@),
            ),
            (ModuleStage::Find, ModuleAnswer::Found(true)) => self.at(
                ModuleStage::Factory,
                ModuleRequest::CallFactory,
            ),
            (ModuleStage::Find, ModuleAnswer::Found(false)) => self.at(
                ModuleStage::Done,
                ModuleRequest::Failed(Vst3Error::MissingExport(FACTORY_EXPORT@)),
            ),
            (ModuleStage::Factory, ModuleAnswer::Factory(true)) => self.at(
                ModuleStage::Done,
                ModuleRequest::Loaded,
            ),
            (ModuleStage::Factory, ModuleAnswer::Factory(false)) => self.at(
                ModuleStage::Done,
                ModuleRequest::Failed(Vst3Error::MissingFactory),
            ),
            _ => (self, ModuleRequest::Wait),
        }
    }
}

/// Starts to load the module of a dynamic library.
pub fn load_module_uncached(platform: Platform, library_path: &Path) -> (started: (
    ModuleLoad,
    ModuleAction,
))
    ensures
        (started.0@, started.1@) == first(platform, path_bytes(library_path)),
{
    let load = ModuleLoad {
        platform,
        library_path: library_path.to_path_buf(),
        stage: ModuleStage::Open,
    };
    (load, ModuleAction::Open(library_path.to_path_buf()))
}

/// Finds the module of a dynamic library among those that are loaded, or starts to load it.
pub fn load_module<'a, M>(
    modules: &'a PathMap<M>,
    platform: Platform,
    library_path: &Path,
) -> (found: Result<&'a M, (ModuleLoad, ModuleAction)>)
    ensures
        match found {
            Ok(module) => modules@.contains_key(path_class(path_bytes(library_path))) && *module
                == modules@[path_class(path_bytes(library_path))].value,
            Err(started) => !modules@.contains_key(path_class(path_bytes(library_path))) && (
                started.0@,
                started.1@,
            ) == first(platform, path_bytes(library_path)),
        },
{
    match modules.get(library_path) {
        Some(module) => Ok(module),
        None => Err(load_module_uncached(platform, library_path)),
    }
}

/// A module that was loaded and stored is found again under every spelling of its library's path,
/// and is not loaded again; what is stored under other paths stays.
pub proof fn law_loaded_module_is_found<M>(
    modules: Map<Seq<u8>, PathEntry<M>>,
    path: Seq<u8>,
    module: M,
    other: Seq<u8>,
)
    ensures
        ({
            let after = with_entry(modules, PathEntry { path, value: module });
            if path_class(other) == path_class(path) {
                after.contains_key(path_class(other)) && after[path_class(other)].value == module
            } else {
                &&& after.contains_key(path_class(other)) == modules.contains_key(
                    path_class(other),
                )
                &&& after[path_class(other)] == modules[path_class(other)]
            }
        }),
{
}

impl ModuleLoad {
    /// Ends loading with an error.
    fn fail(&mut self, error: Vst3ProbeError) -> (action: ModuleAction)
        ensures
            (final(self)@, action@) == old(self)@.at(
                ModuleStage::Done,
                ModuleRequest::Failed(error@),
            ),
    {
        self.stage = ModuleStage::Done;
        ModuleAction::Failed(error)
    }

    /// Takes the answer to the last request.
    pub fn resume(&mut self, reply: ModuleReply) -> (action: ModuleAction)
        ensures
            (final(self)@, action@) == old(self)@.after(reply@),
    {
        match (self.stage, reply) {
            (ModuleStage::Open, ModuleReply::Opened(Ok(()))) => {
                self.stage = ModuleStage::Enter;
                ModuleAction::CallEntry(entry_export(self.platform))
            },
            (ModuleStage::Open, ModuleReply::Opened(Err(error))) => {
                let path = self.library_path.as_path().to_path_buf();
                self.fail(Vst3ProbeError::LoadLibrary { path, error })
            },
            (ModuleStage::Enter, ModuleReply::Entered(entered)) => {
                match entered {
                    Some(false) => {
                        let name = entry_export(self.platform);
                        self.fail(Vst3ProbeError::MissingExport(name))
                    },
                    _ => {
                        self.stage = ModuleStage::Find;
                        ModuleAction::FindExport(FACTORY_EXPORT)
                    },
                }
            },
            (ModuleStage::Find, ModuleReply::Found(found)) => {
                if found {
                    self.stage = ModuleStage::Factory;
                    ModuleAction::CallFactory
                } else {
                    self.fail(Vst3ProbeError::MissingExport(FACTORY_EXPORT))
                }
            },
            (ModuleStage::Factory, ModuleReply::Factory(factory)) => {
                if factory {
                    self.stage = ModuleStage::Done;
                    ModuleAction::Loaded
                } else {
                    self.fail(Vst3ProbeError::MissingFactory)
                }
            },
            _ => ModuleAction::Wait,
        }
    }
}

/// A dynamic library as loading meets it.
pub struct Library {
    pub opened: Result<(), Seq<char>>,
    pub entered: Option<bool>,
    pub has_factory_export: bool,
    pub factory: bool,
}

impl Library {
    /// The library's answer to a request.
    pub open spec fn answer(self, request: ModuleRequest) -> ModuleAnswer {
        match request {
            ModuleRequest::Open(_) => ModuleAnswer::Opened(self.opened),
            ModuleRequest::CallEntry(_) => ModuleAnswer::Entered(self.entered),
            ModuleRequest::FindExport(_) => ModuleAnswer::Found(self.has_factory_export),
            _ => ModuleAnswer::Factory(self.factory),
        }
    }

    /// Loading after a number of answers, up to its end.
    pub open spec fn run(self, turn: (Load, ModuleRequest), answers: nat) -> (Load, ModuleRequest)
        decreases answers,
    {
        if answers == 0 || turn.1 is Loaded || turn.1 is Failed {
            turn
        } else {
            self.run(turn.0.after(self.answer(turn.1)), (answers - 1) as nat)
        }
    }

    /// What is wrong with the library, if anything is.
    pub open spec fn fault(self, platform: Platform, library_path: Seq<u8>) -> Option<Vst3Error> {
        if self.opened is Err {
            Some(Vst3Error::LoadLibrary { path: library_path, error: self.opened->Err_0 })
        } else if self.entered == Some(false) {
            Some(Vst3Error::MissingExport(entry_name(platform)))
        } else if !self.has_factory_export {
            Some(Vst3Error::MissingExport(FACTORY_EXPORT@))
        } else if !self.factory {
            Some(Vst3Error::MissingFactory)
        } else {
            None
        }
    }
}

/// A module is loaded exactly when its library opens, an initializer that it has succeeds, and it
/// exports a factory that is not null; otherwise the first of these that fails is reported. The
/// factory is asked for only after the initializer.
pub proof fn law_load_outcome(library: Library, platform: Platform, library_path: Seq<u8>)
    ensures
        library.run(first(platform, library_path), 4).1 == match library.fault(
            platform,
            library_path,
        ) {
            Some(error) => ModuleRequest::Failed(error),
            None => ModuleRequest::Loaded,
        },
        library.fault(platform, library_path) is None ==> library.run(
            first(platform, library_path),
            1,
        ).1 is CallEntry && library.run(first(platform, library_path), 3).1 is CallFactory,
{
    reveal_with_fuel(Library::run, 5);
}

/// A module is opened at its own library path, initialized by the export that its platform has for
/// that, and asked for its factory by `GetPluginFactory`, whatever the initializer is; an
/// initializer that is missing does no harm.
pub proof fn law_load_asks_for_its_exports(
    library: Library,
    platform: Platform,
    library_path: Seq<u8>,
)
    requires
        library.opened is Ok,
        library.entered != Some(false),
    ensures
        ({
            let start = first(platform, library_path);
            &&& library.run(start, 0).1 == ModuleRequest::Open(library_path)
            &&& library.run(start, 1).1 == ModuleRequest::CallEntry(
                match platform {
                    Platform::MacOs => "BundleEntry"@,
                    Platform::Windows => "InitDll"@,
                    Platform::Unix => "ModuleEntry"@,
                },
            )
            &&& library.run(start, 2).1 == ModuleRequest::FindExport("GetPluginFactory"@)
            &&& library.has_factory_export ==> library.run(start, 3).1
                == ModuleRequest::CallFactory
            &&& library.has_factory_export && library.factory ==> library.run(start, 4).1
                == ModuleRequest::Loaded
        }),
{
    reveal_with_fuel(Library::run, 5);
}

/// A library that does not open is reported with its path and the loader's error, an initializer
/// that fails and a factory export that is missing by their names, and a factory that is null as
/// that.
pub proof fn law_load_names_the_fault(library: Library, platform: Platform, library_path: Seq<u8>)
    ensures
        ({
            let end = library.run(first(platform, library_path), 4).1;
            let failed = |error: Vst3Error| end == ModuleRequest::Failed(error);
            let entered = library.opened is Ok && library.entered != Some(false);
            &&& library.opened is Err ==> failed(
                Vst3Error::LoadLibrary { path: library_path, error: library.opened->Err_0 },
            )
            &&& library.opened is Ok && library.entered == Some(false) ==> failed(
                Vst3Error::MissingExport(
                    match platform {
                        Platform::MacOs => "BundleEntry"@,
                        Platform::Windows => "InitDll"@,
                        Platform::Unix => "ModuleEntry"@,
                    },
                ),
            )
            &&& entered && !library.has_factory_export ==> failed(
                Vst3Error::MissingExport("GetPluginFactory"@),
            )
            &&& entered && library.has_factory_export && !library.factory ==> failed(
                Vst3Error::MissingFactory,
            )
        }),
{
    reveal_with_fuel(Library::run, 5);
}

/// An answer to something else than what was asked for last changes nothing, and neither does one
/// after the end.
pub proof fn law_odd_answer_changes_nothing(load: Load, answer: ModuleAnswer)
    requires
        match load.stage {
            ModuleStage::Open => !(answer is Opened),
            ModuleStage::Enter => !(answer is Entered),
            ModuleStage::Find => !(answer is Found),
            ModuleStage::Factory => !(answer is Factory),
            ModuleStage::Done => true,
        },
    ensures
        load.after(answer) == (load, ModuleRequest::Wait),
{
}

} // verus!
