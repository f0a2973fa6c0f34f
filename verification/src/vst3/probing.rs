//! Probing a VST3 candidate, one request to the outside at a time.

use std::path::{Path, PathBuf};
use vstd::prelude::*;

use super::class_info::{
    class_plugin, class_plugins, law_every_class_is_listed, vst3_factory_plugins, ClassFacts,
};
use super::{
    is_candidate, is_vst3_candidate, library_candidates, library_candidates_of, library_of,
    resolve_vst3_library_path, vst3_plugins, Platform, Vst3Error, Vst3Plugin, Vst3PluginMetadata,
    Vst3ProbeError,
};
use crate::paths::{all_bytes, buffer_bytes, path_bytes};

verus! {

/// What a probe asks for.
pub enum Vst3Action {
    /// Find out whether a candidate is a file, and which of some paths exist.
    Inspect {
        /// The candidate.
        path: PathBuf,
        /// Where its library may be.
        places: Vec<PathBuf>,
    },
    /// Find out whether a path exists.
    CheckLibrary(PathBuf),
    /// Load the module of a library.
    LoadModule {
        /// The candidate.
        path: PathBuf,
        /// Its library.
        library_path: PathBuf,
    },
    /// Ask the factory how many classes it has.
    CountClasses,
    /// Ask the factory for its first classes, this many.
    ReadClasses(i32),
    /// Nothing: this is what was found.
    Finish(Result<Vec<Vst3PluginMetadata>, Vst3ProbeError>),
    /// The answer to the last request, which the given one was not.
    Wait,
}

/// The answer to a request.
pub enum Vst3Event {
    /// What a candidate is.
    Inspected {
        /// Whether it is a file.
        is_file: bool,
        /// Which of the places exist.
        existing: Vec<bool>,
    },
    /// Whether the library exists.
    LibraryChecked(bool),
    /// Whether the module was loaded.
    ModuleLoaded(Result<(), Vst3ProbeError>),
    /// How many classes the factory says it has.
    ClassesCounted(i32),
    /// The classes.
    ClassesRead(Vec<ClassFacts>),
}

/// The contents of a probe's outcome.
pub type Outcome = Result<Seq<Vst3Plugin>, Vst3Error>;

/// The contents of a probe's outcome.
pub open spec fn outcome_view(
    outcome: Result<Vec<Vst3PluginMetadata>, Vst3ProbeError>,
) -> Outcome {
    match outcome {
        Ok(plugins) => Ok(vst3_plugins(plugins@)),
        Err(error) => Err(error@),
    }
}

/// The contents of a [`Vst3Action`].
pub enum Request {
    Inspect { path: Seq<u8>, places: Seq<Seq<u8>> },
    CheckLibrary(Seq<u8>),
    LoadModule { path: Seq<u8>, library_path: Seq<u8> },
    CountClasses,
    ReadClasses(i32),
    Finish(Outcome),
    Wait,
}

impl View for Vst3Action {
    type V = Request;

    open spec fn view(&self) -> Request {
        match self {
            Vst3Action::Inspect { path, places } => Request::Inspect {
                path: buffer_bytes(*path),
                places: all_bytes(places@),
            },
            Vst3Action::CheckLibrary(path) => Request::CheckLibrary(buffer_bytes(*path)),
            Vst3Action::LoadModule { path, library_path } => Request::LoadModule {
                path: buffer_bytes(*path),
                library_path: buffer_bytes(*library_path),
            },
            Vst3Action::CountClasses => Request::CountClasses,
            Vst3Action::ReadClasses(count) => Request::ReadClasses(*count),
            Vst3Action::Finish(outcome) => Request::Finish(outcome_view(*outcome)),
            Vst3Action::Wait => Request::Wait,
        }
    }
}

/// The contents of a [`Vst3Event`].
pub enum Answer {
    Inspected { is_file: bool, existing: Seq<bool> },
    LibraryChecked(bool),
    ModuleLoaded(Result<(), Vst3Error>),
    ClassesCounted(i32),
    ClassesRead(Seq<ClassFacts>),
}

impl View for Vst3Event {
    type V = Answer;

    open spec fn view(&self) -> Answer {
        match self {
            Vst3Event::Inspected { is_file, existing } => Answer::Inspected {
                is_file: *is_file,
                existing: existing@,
            },
            Vst3Event::LibraryChecked(exists) => Answer::LibraryChecked(*exists),
            Vst3Event::ModuleLoaded(Ok(())) => Answer::ModuleLoaded(Ok(())),
            Vst3Event::ModuleLoaded(Err(error)) => Answer::ModuleLoaded(Err(error@)),
            Vst3Event::ClassesCounted(count) => Answer::ClassesCounted(*count),
            Vst3Event::ClassesRead(classes) => Answer::ClassesRead(classes@),
        }
    }
}

/// What a probe waits for.
#[derive(Debug, Clone, Copy, PartialEq, Eq, Structural)]
pub enum ProbeStage {
    /// What the candidate is.
    Inspect,
    /// Whether the library exists.
    Library,
    /// The module.
    Module,
    /// The number of classes.
    Count,
    /// The classes.
    Classes,
    /// Nothing.
    Finished,
}

/// A probe of one VST3 candidate.
pub struct Vst3Probe {
    platform: Platform,
    path: PathBuf,
    library_path: PathBuf,
    stage: ProbeStage,
}

/// The contents of a [`Vst3Probe`].
pub struct Probe {
    pub platform: Platform,
    pub path: Seq<u8>,
    pub library_path: Seq<u8>,
    pub stage: ProbeStage,
}

impl View for Vst3Probe {
    type V = Probe;

    closed spec fn view(&self) -> Probe {
        Probe {
            platform: self.platform,
            path: buffer_bytes(self.path),
            library_path: buffer_bytes(self.library_path),
            stage: self.stage,
        }
    }
}

/// A fresh probe of a path, and what it asks for first.
pub open spec fn first(platform: Platform, path: Seq<u8>) -> (Probe, Request) {
    let probe = Probe { platform, path, library_path: path, stage: ProbeStage::Inspect };
    if is_candidate(path) {
        (probe, Request::Inspect { path, places: library_candidates_of(platform, path) })
    } else {
        probe.finish(Err(Vst3Error::NotCandidate(path)))
    }
}

impl Probe {
    /// Ends the probe.
    pub open spec fn finish(self, outcome: Outcome) -> (Probe, Request) {
        (Probe { stage: ProbeStage::Finished, ..self }, Request::Finish(outcome))
    }

    /// What a probe does with an answer.
    pub open spec fn after(self, answer: Answer) -> (Probe, Request) {
        match (self.stage, answer) {
            (ProbeStage::Inspect, Answer::Inspected { is_file, existing }) => {
                let library_path = library_of(self.platform, self.path, is_file, existing);
                (
                    Probe { library_path, stage: ProbeStage::Library, ..self },
                    Request::CheckLibrary(library_path),
                )
            },
            (ProbeStage::Library, Answer::LibraryChecked(exists)) => if exists {
                (
                    Probe { stage: ProbeStage::Module, ..self },
                    Request::LoadModule { path: self.path, library_path: self.library_path },
                )
            } else {
                self.finish(Err(Vst3Error::MissingLibrary(self.path)))
            },
            (ProbeStage::Module, Answer::ModuleLoaded(Ok(()))) => (
                Probe { stage: ProbeStage::Count, ..self },
                Request::CountClasses,
            ),
            (ProbeStage::Module, Answer::ModuleLoaded(Err(error))) => self.finish(Err(error)),
            (ProbeStage::Count, Answer::ClassesCounted(count)) => (
                Probe { stage: ProbeStage::Classes, ..self },
                Request::ReadClasses(
                    if count < 0 {
                        0
                    } else {
                        count
                    },
                ),
            ),
            (ProbeStage::Classes, Answer::ClassesRead(classes)) => {
                let plugins = class_plugins(classes, self.path, self.library_path);
                self.finish(
                    if plugins.len() == 0 {
                        Err(Vst3Error::NoPluginClasses)
                    } else {
                        Ok(plugins)
                    },
                )
            },
            _ => (self, Request::Wait),
        }
    }
}

/// Starts to probe a VST3 candidate in-process.
pub fn probe(platform: Platform, path: &Path) -> (started: (Vst3Probe, Vst3Action))
    ensures
        (started.0@, started.1@) == first(platform, path_bytes(path)),
{
    let candidate = is_vst3_candidate(path);
    let stage = if candidate {
        ProbeStage::Inspect
    } else {
        ProbeStage::Finished
    };
    let probe = Vst3Probe {
        platform,
        path: path.to_path_buf(),
        library_path: path.to_path_buf(),
        stage,
    };
    if candidate {
        let places = library_candidates(platform, path);
        (probe, Vst3Action::Inspect { path: path.to_path_buf(), places })
    } else {
        (probe, Vst3Action::Finish(Err(Vst3ProbeError::NotCandidate(path.to_path_buf()))))
    }
}

impl Vst3Probe {
    /// Ends the probe.
    fn finish(&mut self, outcome: Result<Vec<Vst3PluginMetadata>, Vst3ProbeError>) -> (action:
        Vst3Action)
        ensures
            (final(self)@, action@) == old(self)@.finish(outcome_view(outcome)),
    {
        self.stage = ProbeStage::Finished;
        Vst3Action::Finish(outcome)
    }

    /// Takes the answer to the last request.
    pub fn resume(&mut self, event: Vst3Event) -> (action: Vst3Action)
        ensures
            (final(self)@, action@) == old(self)@.after(event@),
    {
        match (self.stage, event) {
            (ProbeStage::Inspect, Vst3Event::Inspected { is_file, existing }) => {
                self.library_path = resolve_vst3_library_path(
                    self.platform,
                    self.path.as_path(),
                    is_file,
                    &existing,
                );
                self.stage = ProbeStage::Library;
                Vst3Action::CheckLibrary(self.library_path.as_path().to_path_buf())
            },
            (ProbeStage::Library, Vst3Event::LibraryChecked(exists)) => {
                if exists {
                    self.stage = ProbeStage::Module;
                    Vst3Action::LoadModule {
                        path: self.path.as_path().to_path_buf(),
                        library_path: self.library_path.as_path().to_path_buf(),
                    }
                } else {
                    let path = self.path.as_path().to_path_buf();
                    self.finish(Err(Vst3ProbeError::MissingLibrary(path)))
                }
            },
            (ProbeStage::Module, Vst3Event::ModuleLoaded(loaded)) => {
                match loaded {
                    Ok(()) => {
                        self.stage = ProbeStage::Count;
                        Vst3Action::CountClasses
                    },
                    Err(error) => self.finish(Err(error)),
                }
            },
            (ProbeStage::Count, Vst3Event::ClassesCounted(count)) => {
                self.stage = ProbeStage::Classes;
                Vst3Action::ReadClasses(
                    if count < 0 {
                        0
                    } else {
                        count
                    },
                )
            },
            (ProbeStage::Classes, Vst3Event::ClassesRead(classes)) => {
                let plugins = vst3_factory_plugins(
                    &classes,
                    self.path.as_path(),
                    self.library_path.as_path(),
                );
                assert(vst3_plugins(plugins@).len() == plugins@.len());
                if plugins.is_empty() {
                    self.finish(Err(Vst3ProbeError::NoPluginClasses))
                } else {
                    self.finish(Ok(plugins))
                }
            },
            _ => Vst3Action::Wait,
        }
    }
}

/// A VST3 candidate as a probe meets it: its answer to each question.
pub struct Candidate {
    pub is_file: bool,
    pub existing: Seq<bool>,
    pub library_exists: spec_fn(Seq<u8>) -> bool,
    pub loaded: spec_fn(Seq<u8>) -> Result<(), Vst3Error>,
    pub count: i32,
    pub classes: spec_fn(int) -> ClassFacts,
}

impl Candidate {
    /// The classes that the candidate's factory says it has.
    pub open spec fn all_classes(self) -> Seq<ClassFacts> {
        Seq::new(
            if self.count < 0 {
                0
            } else {
                self.count as nat
            },
            self.classes,
        )
    }

    /// The candidate's answer to a request.
    pub open spec fn answer(self, request: Request) -> Answer {
        match request {
            Request::Inspect { .. } => Answer::Inspected {
                is_file: self.is_file,
                existing: self.existing,
            },
            Request::CheckLibrary(path) => Answer::LibraryChecked((self.library_exists)(path)),
            Request::LoadModule { library_path, .. } => Answer::ModuleLoaded(
                (self.loaded)(library_path),
            ),
            Request::CountClasses => Answer::ClassesCounted(self.count),
            Request::ReadClasses(count) => Answer::ClassesRead(
                Seq::new(count as nat, self.classes),
            ),
            _ => Answer::ClassesRead(seq![]),
        }
    }

    /// A probe after a number of answers, up to its end.
    pub open spec fn run(self, turn: (Probe, Request), answers: nat) -> (Probe, Request)
        decreases answers,
    {
        if answers == 0 || turn.1 is Finish {
            turn
        } else {
            self.run(turn.0.after(self.answer(turn.1)), (answers - 1) as nat)
        }
    }

    /// What a probe of this path finds.
    pub open spec fn outcome(self, platform: Platform, path: Seq<u8>) -> Outcome {
        let library_path = library_of(platform, path, self.is_file, self.existing);
        let plugins = class_plugins(self.all_classes(), path, library_path);
        if !is_candidate(path) {
            Err(Vst3Error::NotCandidate(path))
        } else if !(self.library_exists)(library_path) {
            Err(Vst3Error::MissingLibrary(path))
        } else if (self.loaded)(library_path) is Err {
            Err((self.loaded)(library_path)->Err_0)
        } else if plugins.len() == 0 {
            Err(Vst3Error::NoPluginClasses)
        } else {
            Ok(plugins)
        }
    }
}

/// A probe comes to an end after at most five answers, and its outcome is the audio processors
/// among the classes of the candidate's factory, or the first thing that is wrong with it; a
/// probe never succeeds without a plugin.
pub proof fn law_probe_outcome(candidate: Candidate, platform: Platform, path: Seq<u8>)
    ensures
        candidate.run(first(platform, path), 5).1 == Request::Finish(
            candidate.outcome(platform, path),
        ),
        candidate.outcome(platform, path) matches Ok(plugins) ==> plugins.len() > 0,
{
    reveal_with_fuel(Candidate::run, 6);
    let count: nat = if candidate.count < 0 {
        0
    } else {
        candidate.count as nat
    };
    assert(candidate.all_classes() =~= Seq::new(count, candidate.classes));
}

/// A probe of a VST3 candidate whose library is there and loads finds every audio processor among
/// the classes of its factory, each as the class describes it and in the order of the classes, and
/// nothing else.
pub proof fn law_probe_finds_every_processor(
    candidate: Candidate,
    platform: Platform,
    path: Seq<u8>,
    at: int,
)
    requires
        is_candidate(path),
        (candidate.library_exists)(
            library_of(platform, path, candidate.is_file, candidate.existing),
        ),
        (candidate.loaded)(
            library_of(platform, path, candidate.is_file, candidate.existing),
        ) is Ok,
        0 <= at < candidate.count,
        class_plugin(
            (candidate.classes)(at),
            path,
            library_of(platform, path, candidate.is_file, candidate.existing),
        ) is Some,
    ensures
        ({
            let library = library_of(platform, path, candidate.is_file, candidate.existing);
            let classes = Seq::new(candidate.count as nat, candidate.classes);
            &&& candidate.run(first(platform, path), 5).1 matches Request::Finish(Ok(plugins))
            &&& plugins == class_plugins(classes.take(at), path, library) + seq![
                class_plugin(classes[at], path, library)->0,
            ] + class_plugins(classes.skip(at + 1), path, library)
        }),
{
    law_probe_outcome(candidate, platform, path);
    let library = library_of(platform, path, candidate.is_file, candidate.existing);
    let classes = Seq::new(candidate.count as nat, candidate.classes);
    assert(candidate.all_classes() =~= classes);
    let class = classes[at];
    let before = classes.take(at);
    let behind = classes.skip(at + 1);
    assert(classes =~= before + seq![class] + behind);
    law_every_class_is_listed(before, seq![class], class, path, library);
    law_every_class_is_listed(before + seq![class], behind, class, path, library);
}

/// A probe fails with the first thing that is wrong: a path that is no candidate, a library that
/// is not there, a module that does not load, a factory without audio processors.
pub proof fn law_probe_names_the_fault(candidate: Candidate, platform: Platform, path: Seq<u8>)
    ensures
        ({
            let library = library_of(platform, path, candidate.is_file, candidate.existing);
            let end = candidate.run(first(platform, path), 5).1;
            let exists = (candidate.library_exists)(library);
            let loaded = (candidate.loaded)(library);
            &&& !is_candidate(path) ==> end == Request::Finish(Err(Vst3Error::NotCandidate(path)))
            &&& is_candidate(path) && !exists ==> end == Request::Finish(
                Err(Vst3Error::MissingLibrary(path)),
            )
            &&& is_candidate(path) && exists && loaded is Err ==> end == Request::Finish(
                Err(loaded->Err_0),
            )
            &&& is_candidate(path) && exists && loaded is Ok && (forall|i: int|
                0 <= i < candidate.count ==> class_plugin(
                    #[trigger] (candidate.classes)(i),
                    path,
                    library,
                ) is None) ==> end == Request::Finish(Err(Vst3Error::NoPluginClasses))
        }),
{
    law_probe_outcome(candidate, platform, path);
    let library = library_of(platform, path, candidate.is_file, candidate.existing);
    if forall|i: int|
        0 <= i < candidate.count ==> class_plugin(
            #[trigger] (candidate.classes)(i),
            path,
            library,
        ) is None {
        assert forall|i: int| 0 <= i < candidate.all_classes().len() implies class_plugin(
            #[trigger] candidate.all_classes()[i],
            path,
            library,
        ) is None by {
            assert(candidate.all_classes()[i] == (candidate.classes)(i));
        }
        lemma_no_plugins(candidate.all_classes(), path, library);
    }
}

proof fn lemma_no_plugins(classes: Seq<ClassFacts>, path: Seq<u8>, library_path: Seq<u8>)
    requires
        forall|i: int|
            0 <= i < classes.len() ==> class_plugin(
                #[trigger] classes[i],
                path,
                library_path,
            ) is None,
    ensures
        class_plugins(classes, path, library_path).len() == 0,
    decreases classes.len(),
{
    if classes.len() > 0 {
        assert(class_plugin(classes[classes.len() - 1], path, library_path) is None);
        assert forall|i: int| 0 <= i < classes.drop_last().len() implies class_plugin(
            #[trigger] classes.drop_last()[i],
            path,
            library_path,
        ) is None by {
            assert(class_plugin(classes[i], path, library_path) is None);
        }
        lemma_no_plugins(classes.drop_last(), path, library_path);
    }
}

/// A probe asks about the candidate that it was given and its own library: whether that library is
/// there, to load it, and then for as many classes as the factory says it has, none if that is a
/// negative number.
pub proof fn law_probe_asks_about_its_candidate(
    platform: Platform,
    path: Seq<u8>,
    is_file: bool,
    existing: Seq<bool>,
    count: i32,
)
    requires
        is_candidate(path),
    ensures
        ({
            let library = library_of(platform, path, is_file, existing);
            let (probe, request) = first(platform, path);
            let (inspected, check) = probe.after(Answer::Inspected { is_file, existing });
            let (checked, load) = inspected.after(Answer::LibraryChecked(true));
            let (loaded, count_classes) = checked.after(Answer::ModuleLoaded(Ok(())));
            let read = loaded.after(Answer::ClassesCounted(count)).1;
            &&& request == Request::Inspect { path, places: library_candidates_of(platform, path) }
            &&& check == Request::CheckLibrary(library)
            &&& load == Request::LoadModule { path, library_path: library }
            &&& count_classes == Request::CountClasses
            &&& count >= 0 ==> read == Request::ReadClasses(count)
            &&& count < 0 ==> read == Request::ReadClasses(0)
        }),
{
}

/// An answer to something else than what was asked for last changes nothing, and neither does one
/// after the end.
pub proof fn law_odd_answer_changes_nothing(probe: Probe, answer: Answer)
    requires
        match probe.stage {
            ProbeStage::Inspect => !(answer is Inspected),
            ProbeStage::Library => !(answer is LibraryChecked),
            ProbeStage::Module => !(answer is ModuleLoaded),
            ProbeStage::Count => !(answer is ClassesCounted),
            ProbeStage::Classes => !(answer is ClassesRead),
            ProbeStage::Finished => true,
        },
    ensures
        probe.after(answer) == (probe, Request::Wait),
{
}

} // verus!
