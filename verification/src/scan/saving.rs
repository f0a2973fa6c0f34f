//! Saving a scan cache, one request to the outside at a time.

use std::path::{Path, PathBuf};
use vstd::prelude::*;
use vstd::string::*;

use crate::paths::{buffer_bytes, display, parent, parent_of, path_bytes, path_text};

verus! {

/// What saving asks for. The entries of the cache are of type `E`.
pub enum SaveAction<E> {
    /// Create a directory with all its parents.
    CreateDirectory(PathBuf),
    /// Serialize the entries of the cache.
    Serialize(Vec<E>),
    /// Write a text to a file.
    Write {
        /// The file.
        path: PathBuf,
        /// The text.
        contents: String,
    },
    /// Nothing: it is saved, or could not be.
    Done(Result<(), String>),
    /// The answer to the last request, which the given one was not.
    Wait,
}

/// The answer to a request.
pub enum SaveReply {
    /// Whether the directory is there.
    Directory(Result<(), String>),
    /// The serialized cache.
    Contents(Result<String, String>),
    /// Whether the file was written.
    Written(Result<(), String>),
}

/// The contents of a [`SaveAction`].
pub enum SaveRequest<E> {
    CreateDirectory(Seq<u8>),
    Serialize(Seq<E>),
    Write { path: Seq<u8>, contents: Seq<char> },
    Done(Result<(), Seq<char>>),
    Wait,
}

/// The contents of an outcome without a value.
pub open spec fn unit_view(outcome: Result<(), String>) -> Result<(), Seq<char>> {
    match outcome {
        Ok(()) => Ok(()),
        Err(error) => Err(error@),
    }
}

/// The contents of an outcome with a text.
pub open spec fn text_view(outcome: Result<String, String>) -> Result<Seq<char>, Seq<char>> {
    match outcome {
        Ok(text) => Ok(text@),
        Err(error) => Err(error@),
    }
}

impl<E> View for SaveAction<E> {
    type V = SaveRequest<E>;

    open spec fn view(&self) -> SaveRequest<E> {
        match self {
            SaveAction::CreateDirectory(path) => SaveRequest::CreateDirectory(buffer_bytes(*path)),
            SaveAction::Serialize(entries) => SaveRequest::Serialize(entries@),
            SaveAction::Write { path, contents } => SaveRequest::Write {
                path: buffer_bytes(*path),
                contents: contents@,
            },
            SaveAction::Done(outcome) => SaveRequest::Done(unit_view(*outcome)),
            SaveAction::Wait => SaveRequest::Wait,
        }
    }
}

/// The contents of a [`SaveReply`].
pub enum SaveAnswer {
    Directory(Result<(), Seq<char>>),
    Contents(Result<Seq<char>, Seq<char>>),
    Written(Result<(), Seq<char>>),
}

impl View for SaveReply {
    type V = SaveAnswer;

    open spec fn view(&self) -> SaveAnswer {
        match self {
            SaveReply::Directory(outcome) => SaveAnswer::Directory(unit_view(*outcome)),
            SaveReply::Contents(outcome) => SaveAnswer::Contents(text_view(*outcome)),
            SaveReply::Written(outcome) => SaveAnswer::Written(unit_view(*outcome)),
        }
    }
}

/// What saving waits for.
#[derive(Debug, Clone, Copy, PartialEq, Eq, Structural)]
pub enum SaveStage {
    /// The directory.
    Directory,
    /// The serialized cache.
    Contents,
    /// The file.
    Written,
    /// Nothing.
    Done,
}

/// A cache that is being saved.
pub struct CacheSave<E> {
    path: PathBuf,
    directory: PathBuf,
    entries: Vec<E>,
    stage: SaveStage,
}

/// The contents of a [`CacheSave`].
pub struct Save<E> {
    pub path: Seq<u8>,
    pub directory: Seq<u8>,
    /// The entries that are still to be handed out.
    pub entries: Seq<E>,
    pub stage: SaveStage,
}

impl<E> View for CacheSave<E> {
    type V = Save<E>;

    closed spec fn view(&self) -> Save<E> {
        Save {
            path: buffer_bytes(self.path),
            directory: buffer_bytes(self.directory),
            entries: self.entries@,
            stage: self.stage,
        }
    }
}

/// A cache that is being saved, with a request that was made.
pub struct SaveTurn<E> {
    pub save: Save<E>,
    pub request: SaveRequest<E>,
}

/// The complaint about a path without a parent.
pub open spec fn no_parent_text(path: Seq<u8>) -> Seq<char> {
    "Plugin cache path has no parent: "@ + path_text(path)
}

/// The complaint about a directory that could not be created.
pub open spec fn no_directory_text(directory: Seq<u8>, error: Seq<char>) -> Seq<char> {
    "Failed to create plugin cache directory "@ + path_text(directory) + ": "@ + error
}

/// The complaint about a cache that could not be serialized.
pub open spec fn not_serialized_text(error: Seq<char>) -> Seq<char> {
    "Failed to serialize plugin cache: "@ + error
}

/// The complaint about a file that could not be written.
pub open spec fn not_written_text(path: Seq<u8>, error: Seq<char>) -> Seq<char> {
    "Failed to write plugin cache "@ + path_text(path) + ": "@ + error
}

impl<E> SaveTurn<E> {
    /// The first turn: the directory of the file is created, if it has one.
    pub open spec fn started(path: Seq<u8>, entries: Seq<E>) -> SaveTurn<E> {
        match parent_of(path) {
            None => SaveTurn {
                save: Save { path, directory: path, entries, stage: SaveStage::Done },
                request: SaveRequest::Done(Err(no_parent_text(path))),
            },
            Some(directory) => SaveTurn {
                save: Save { path, directory, entries, stage: SaveStage::Directory },
                request: SaveRequest::CreateDirectory(directory),
            },
        }
    }
}

impl<E> Save<E> {
    /// What saving does with an answer.
    pub open spec fn after(self, answer: SaveAnswer) -> SaveTurn<E> {
        match (self.stage, answer) {
            (SaveStage::Directory, SaveAnswer::Directory(Ok(()))) => SaveTurn {
                save: Save { stage: SaveStage::Contents, entries: seq![], ..self },
                request: SaveRequest::Serialize(self.entries),
            },
            (SaveStage::Directory, SaveAnswer::Directory(Err(error))) => SaveTurn {
                save: Save { stage: SaveStage::Done, ..self },
                request: SaveRequest::Done(Err(no_directory_text(self.directory, error))),
            },
            (SaveStage::Contents, SaveAnswer::Contents(Ok(contents))) => SaveTurn {
                save: Save { stage: SaveStage::Written, ..self },
                request: SaveRequest::Write { path: self.path, contents },
            },
            (SaveStage::Contents, SaveAnswer::Contents(Err(error))) => SaveTurn {
                save: Save { stage: SaveStage::Done, ..self },
                request: SaveRequest::Done(Err(not_serialized_text(error))),
            },
            (SaveStage::Written, SaveAnswer::Written(Ok(()))) => SaveTurn {
                save: Save { stage: SaveStage::Done, ..self },
                request: SaveRequest::Done(Ok(())),
            },
            (SaveStage::Written, SaveAnswer::Written(Err(error))) => SaveTurn {
                save: Save { stage: SaveStage::Done, ..self },
                request: SaveRequest::Done(Err(not_written_text(self.path, error))),
            },
            _ => SaveTurn { save: self, request: SaveRequest::Wait },
        }
    }
}

impl<E> CacheSave<E> {
    /// Starts to save the entries of a cache to a file.
    pub fn start(path: &Path, entries: Vec<E>) -> (r: (CacheSave<E>, SaveAction<E>))
        ensures
            (SaveTurn { save: r.0@, request: r.1@ }) == SaveTurn::started(
                path_bytes(path),
                entries@,
            ),
    {
        match parent(path) {
            None => {
                let mut text = "Plugin cache path has no parent: ".to_owned();
                text.append(display(path).as_str());
                let save = CacheSave {
                    path: path.to_path_buf(),
                    directory: path.to_path_buf(),
                    entries,
                    stage: SaveStage::Done,
                };
                (save, SaveAction::Done(Err(text)))
            },
            Some(directory) => {
                let save = CacheSave {
                    path: path.to_path_buf(),
                    directory: directory.as_path().to_path_buf(),
                    entries,
                    stage: SaveStage::Directory,
                };
                (save, SaveAction::CreateDirectory(directory))
            },
        }
    }

    /// Takes the answer to the last request.
    pub fn resume(&mut self, reply: SaveReply) -> (action: SaveAction<E>)
        ensures
            (SaveTurn { save: final(self)@, request: action@ }) == old(self)@.after(reply@),
    {
        match (self.stage, reply) {
            (SaveStage::Directory, SaveReply::Directory(Ok(()))) => {
                self.stage = SaveStage::Contents;
                let mut entries: Vec<E> = Vec::new();
                core::mem::swap(&mut entries, &mut self.entries);
                assert(self.entries@ =~= seq![]);
                SaveAction::Serialize(entries)
            },
            (SaveStage::Directory, SaveReply::Directory(Err(error))) => {
                let mut text = "Failed to create plugin cache directory ".to_owned();
                text.append(display(self.directory.as_path()).as_str());
                text.append(": ");
                text.append(error.as_str());
                self.stage = SaveStage::Done;
                SaveAction::Done(Err(text))
            },
            (SaveStage::Contents, SaveReply::Contents(Ok(contents))) => {
                self.stage = SaveStage::Written;
                SaveAction::Write { path: self.path.as_path().to_path_buf(), contents }
            },
            (SaveStage::Contents, SaveReply::Contents(Err(error))) => {
                let mut text = "Failed to serialize plugin cache: ".to_owned();
                text.append(error.as_str());
                self.stage = SaveStage::Done;
                SaveAction::Done(Err(text))
            },
            (SaveStage::Written, SaveReply::Written(Ok(()))) => {
                self.stage = SaveStage::Done;
                SaveAction::Done(Ok(()))
            },
            (SaveStage::Written, SaveReply::Written(Err(error))) => {
                let mut text = "Failed to write plugin cache ".to_owned();
                text.append(display(self.path.as_path()).as_str());
                text.append(": ");
                text.append(error.as_str());
                self.stage = SaveStage::Done;
                SaveAction::Done(Err(text))
            },
            _ => SaveAction::Wait,
        }
    }
}

/// What a disk and a serializer do.
#[verifier::reject_recursive_types(E)]
pub struct Disk<E> {
    pub directory: Result<(), Seq<char>>,
    pub contents: spec_fn(Seq<E>) -> Result<Seq<char>, Seq<char>>,
    pub written: Result<(), Seq<char>>,
}

impl<E> Disk<E> {
    /// The answer to a request.
    pub open spec fn answer(self, request: SaveRequest<E>) -> SaveAnswer {
        match request {
            SaveRequest::CreateDirectory(_) => SaveAnswer::Directory(self.directory),
            SaveRequest::Serialize(entries) => SaveAnswer::Contents((self.contents)(entries)),
            _ => SaveAnswer::Written(self.written),
        }
    }

    /// Saving after a number of answers, up to its end.
    pub open spec fn run(self, turn: SaveTurn<E>, answers: nat) -> SaveTurn<E>
        decreases answers,
    {
        if answers == 0 || turn.request is Done {
            turn
        } else {
            self.run(turn.save.after(self.answer(turn.request)), (answers - 1) as nat)
        }
    }

    /// What saving entries to a file comes to.
    pub open spec fn outcome(self, path: Seq<u8>, entries: Seq<E>) -> Result<(), Seq<char>> {
        match (parent_of(path), self.directory, (self.contents)(entries), self.written) {
            (None, _, _, _) => Err(no_parent_text(path)),
            (Some(directory), Err(error), _, _) => Err(no_directory_text(directory, error)),
            (_, _, Err(error), _) => Err(not_serialized_text(error)),
            (_, _, _, Err(error)) => Err(not_written_text(path, error)),
            _ => Ok(()),
        }
    }
}

/// Saving succeeds exactly when the file has a parent, its directory can be created, the entries
/// can be serialized and the file can be written, and otherwise says which of these failed first.
/// The file is written only when all before it succeeded, and with what was made of all the
/// entries.
pub proof fn law_saving_outcome<E>(disk: Disk<E>, path: Seq<u8>, entries: Seq<E>)
    ensures
        disk.run(SaveTurn::started(path, entries), 3).request == SaveRequest::<E>::Done(
            disk.outcome(path, entries),
        ),
        forall|n: nat|
            (#[trigger] disk.run(SaveTurn::started(path, entries), n)).request is Write ==> {
                &&& n == 2
                &&& parent_of(path) is Some
                &&& disk.directory is Ok
                &&& (disk.contents)(entries) is Ok
            },
        parent_of(path) is Some && disk.directory is Ok && (disk.contents)(entries) is Ok
            ==> disk.run(SaveTurn::started(path, entries), 2).request == (SaveRequest::<
            E,
        >::Write { path, contents: (disk.contents)(entries)->Ok_0 }),
{
    reveal_with_fuel(Disk::run, 4);
    let start = SaveTurn::started(path, entries);
    assert forall|n: nat| (#[trigger] disk.run(start, n)).request is Write implies {
        &&& n == 2
        &&& parent_of(path) is Some
        &&& disk.directory is Ok
        &&& (disk.contents)(entries) is Ok
    } by {
        if n >= 3 {
            lemma_run_stays(disk, start, (n - 3) as nat);
        }
    }
}

proof fn lemma_run_stays<E>(disk: Disk<E>, start: SaveTurn<E>, more: nat)
    requires
        start.request is Done || (start.save.stage is Directory
            && start.request is CreateDirectory),
    ensures
        disk.run(start, 3 + more).request is Done,
{
    reveal_with_fuel(Disk::run, 5);
}

/// A cache is saved into its own file, after the directory of that file was created and all its
/// entries were serialized, each request with what it is about.
pub proof fn law_saving_asks_for_its_file<E>(
    disk: Disk<E>,
    path: Seq<u8>,
    directory: Seq<u8>,
    entries: Seq<E>,
    contents: Seq<char>,
)
    requires
        parent_of(path) == Some(directory),
        disk.directory is Ok,
        (disk.contents)(entries) == Ok::<Seq<char>, Seq<char>>(contents),
    ensures
        ({
            let start = SaveTurn::started(path, entries);
            &&& start.request == SaveRequest::<E>::CreateDirectory(directory)
            &&& disk.run(start, 1).request == SaveRequest::<E>::Serialize(entries)
            &&& disk.run(start, 2).request == (SaveRequest::<E>::Write { path, contents })
            &&& disk.written is Ok ==> disk.run(start, 3).request == SaveRequest::<E>::Done(Ok(()))
        }),
{
    reveal_with_fuel(Disk::run, 4);
}

/// Saving that fails says at which step, with the path and the error of that step.
pub proof fn law_saving_names_the_fault<E>(disk: Disk<E>, path: Seq<u8>, entries: Seq<E>)
    ensures
        ({
            let end = disk.run(SaveTurn::started(path, entries), 3).request;
            let failed = |text: Seq<char>| end == SaveRequest::<E>::Done(Err(text));
            let parent = parent_of(path);
            &&& parent is None ==> failed(
                "Plugin cache path has no parent: "@ + path_text(path),
            )
            &&& parent is Some && disk.directory is Err ==> failed(
                "Failed to create plugin cache directory "@ + path_text(parent->0) + ": "@
                    + disk.directory->Err_0,
            )
            &&& parent is Some && disk.directory is Ok && (disk.contents)(entries) is Err
                ==> failed("Failed to serialize plugin cache: "@ + (disk.contents)(entries)->Err_0)
            &&& parent is Some && disk.directory is Ok && (disk.contents)(entries) is Ok
                && disk.written is Err ==> failed(
                "Failed to write plugin cache "@ + path_text(path) + ": "@ + disk.written->Err_0,
            )
        }),
{
    reveal_with_fuel(Disk::run, 4);
}

/// An answer to something else than what was asked for last changes nothing, and neither does one
/// after the end.
pub proof fn law_odd_answer_changes_nothing<E>(save: Save<E>, answer: SaveAnswer)
    requires
        match save.stage {
            SaveStage::Directory => !(answer is Directory),
            SaveStage::Contents => !(answer is Contents),
            SaveStage::Written => !(answer is Written),
            SaveStage::Done => true,
        },
    ensures
        save.after(answer).save == save,
        save.after(answer).request is Wait,
{
}

} // verus!
