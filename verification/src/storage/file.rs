//! A checkpoint in a local file, replaced as a whole.
use crate::checkpoint::CheckpointStore;
use crate::storage::load;
use crate::storage::load::{load, Fetched, LoadFailure};
use crate::text;
use crate::text::push_decimal;
use vstd::prelude::*;

verus! {

/// A path in the file system, `std::path::PathBuf`.
#[verifier::external_type_specification]
#[verifier::external_body]
pub struct ExPathBuf(std::path::PathBuf);

/// A failure of the file system, `std::io::Error`.
#[verifier::external_type_specification]
#[verifier::external_body]
pub struct ExIoError(std::io::Error);

/// Errors produced by [`FileCheckpoint`].
#[derive(Debug)]
pub enum FileCheckpointError {
    Io(std::io::Error),
    Json(serde_json::Error),
}

/// A JSON checkpoint stored in a local file.
#[derive(Debug)]
pub struct FileCheckpoint {
    pub path: std::path::PathBuf,
}

/// `Clone` for `PathBuf` gives the same path.
pub assume_specification[ <std::path::PathBuf as Clone>::clone ](path: &std::path::PathBuf) -> (copy:
    std::path::PathBuf)
    ensures
        copy == *path,
;

impl Clone for FileCheckpoint {
    fn clone(&self) -> (copy: Self)
        ensures
            copy == *self,
    {
        FileCheckpoint { path: self.path.clone() }
    }
}

impl<C> CheckpointStore<C> for FileCheckpoint {
    type Error = FileCheckpointError;
}

/// The name of a temporary file beside a checkpoint file of the given name.
pub open spec fn temporary(name: Seq<char>, process: u32, sequence: u64) -> Seq<char> {
    "."@ + name + "."@ + text::decimal(process as nat) + "."@ + text::decimal(sequence as nat)
        + ".tmp"@
}

impl FileCheckpoint {
    /// A checkpoint at a path.
    pub fn new(path: impl Into<std::path::PathBuf>) -> (checkpoint: Self)
        ensures
            call_ensures(Into::<std::path::PathBuf>::into, (path,), checkpoint.path),
    {
        Self { path: path.into() }
    }

    /// The path of the checkpoint.
    pub fn path(&self) -> (path: &std::path::PathBuf)
        ensures
            *path == self.path,
    {
        &self.path
    }

    /// The name of a temporary file beside the checkpoint: a checkpoint file without a readable name
    /// counts as `checkpoint`.
    pub fn temporary_name(name: Option<&str>, process: u32, sequence: u64) -> (temporary_name:
        String)
        ensures
            temporary_name@ == temporary(
                match name {
                    Some(name) => name@,
                    None => "checkpoint"@,
                },
                process,
                sequence,
            ),
    {
        let name = match name {
            Some(name) => name,
            None => "checkpoint",
        };
        let mut text = ".".to_owned();
        text.append(name);
        text.append(".");
        push_decimal(&mut text, process as u64);
        text.append(".");
        push_decimal(&mut text, sequence);
        text.append(".tmp");
        text
    }

    /// What loading the file came to: a missing file is no checkpoint.
    pub fn loaded<C, F>(
        fetched: Fetched<Vec<u8>, std::io::Error>,
        decode: F,
    ) -> (loaded: Result<Option<C>, FileCheckpointError>) where
        F: FnOnce(Vec<u8>) -> Result<C, serde_json::Error>,

        requires
            fetched matches Fetched::Found(bytes) ==> call_requires(decode, (bytes,)),
        ensures
            load::may_load(
                fetched,
                decode,
                match loaded {
                    Ok(checkpoint) => Ok(checkpoint),
                    Err(FileCheckpointError::Io(error)) => Err(LoadFailure::Fetch(error)),
                    Err(FileCheckpointError::Json(error)) => Err(LoadFailure::Decode(error)),
                },
            ),
    {
        match load(fetched, decode) {
            Ok(checkpoint) => Ok(checkpoint),
            Err(LoadFailure::Fetch(error)) => Err(FileCheckpointError::Io(error)),
            Err(LoadFailure::Decode(error)) => Err(FileCheckpointError::Json(error)),
        }
    }
}

/// Temporary files of different processes, and of different saves of one process, have different
/// names.
pub proof fn temporary_names_differ(
    name: Seq<char>,
    process: u32,
    sequence: u64,
    other_process: u32,
    other_sequence: u64,
)
    requires
        temporary(name, process, sequence) == temporary(name, other_process, other_sequence),
    ensures
        process == other_process,
        sequence == other_sequence,
{
    reveal_strlit(".");
    reveal_strlit(".tmp");
    let (first, second) = (text::decimal(process as nat), text::decimal(sequence as nat));
    let (third, fourth) = (text::decimal(other_process as nat), text::decimal(
        other_sequence as nat,
    ));
    text::decimal_holds_digits(process as nat);
    text::decimal_holds_digits(other_process as nat);
    let start = name.len() + 2;
    let left = temporary(name, process, sequence);
    let right = temporary(name, other_process, other_sequence);
    assert(left.len() == start + first.len() + 1 + second.len() + 4);
    assert(right.len() == start + third.len() + 1 + fourth.len() + 4);
    assert(left.subrange(start as int, (start + first.len()) as int) =~= first);
    assert(right.subrange(start as int, (start + third.len()) as int) =~= third);
    assert(left[(start + first.len()) as int] == '.');
    assert(right[(start + third.len()) as int] == '.');
    if first.len() < third.len() {
        assert(right[(start + first.len()) as int] == third[first.len() as int]);
        assert(false);
    }
    if third.len() < first.len() {
        assert(left[(start + third.len()) as int] == first[third.len() as int]);
        assert(false);
    }
    assert(first =~= third);
    text::decimal_is_injective(process as nat, other_process as nat);
    let after = start + first.len() + 1;
    assert(left.subrange(after as int, (after + second.len()) as int) =~= second);
    assert(right.subrange(after as int, (after + fourth.len()) as int) =~= fourth);
    text::decimal_is_injective(sequence as nat, other_sequence as nat);
}

/// What is to be done next to save a checkpoint.
pub enum SaveStep<E> {
    /// Create the directory of the checkpoint file, and whatever it lies in.
    CreateParent,
    /// Create a new temporary file under a name that has not been used before.
    Open,
    /// Write the whole checkpoint to the temporary file.
    Write,
    /// Have the temporary file reach the disk.
    Sync,
    /// Put the temporary file in the place of the checkpoint file.
    Rename,
    /// Remove the temporary file.
    Remove,
    /// Nothing more: the checkpoint has been saved.
    Saved,
    /// Nothing more: the checkpoint has not been saved.
    Failed(E),
}

/// What ended an attempt to create a temporary file.
pub enum Opened<E> {
    Created,
    /// There is a file of that name.
    AlreadyExists,
    Failed(E),
}

/// How far a save has come.
pub enum SavePhase<E> {
    Creating,
    Opening,
    Writing,
    Syncing,
    Renaming,
    /// Cleaning up after a failure.
    Removing(E),
    Ended,
}

/// What the disk holds of a save.
pub struct Disk {
    /// There is a temporary file that this save has yet to put in place or to clean up.
    pub temporary: bool,
    /// The temporary file holds the whole checkpoint.
    pub written: bool,
    /// The whole checkpoint has reached the disk.
    pub synced: bool,
    /// The checkpoint file is the new one.
    pub replaced: bool,
}

/// The checkpoint file is replaced only by a whole checkpoint that has reached the disk, and a save
/// that has ended leaves no temporary file to be dealt with.
pub proof fn replacements_are_whole<E>(save: SaveRun<E>)
    requires
        save.is_valid(),
    ensures
        save.disk().replaced ==> save.disk().written && save.disk().synced,
        save.phase() is Ended ==> !save.disk().temporary,
{
}

/// Saves a checkpoint by replacing the checkpoint file as a whole.
pub struct SaveRun<E> {
    phase: SavePhase<E>,
    disk: Ghost<Disk>,
}

impl<E> SaveRun<E> {
    /// How far the save has come.
    pub closed spec fn phase(self) -> SavePhase<E> {
        self.phase
    }

    /// What the disk holds.
    pub closed spec fn disk(self) -> Disk {
        self.disk@
    }

    /// The disk fits the phase: the checkpoint file is replaced only by a whole checkpoint that has
    /// reached the disk, and a temporary file is left behind only while the save is under way.
    pub open spec fn is_valid(self) -> bool {
        let disk = self.disk();
        &&& disk.synced ==> disk.written
        &&& disk.replaced ==> disk.synced
        &&& match self.phase() {
            SavePhase::Creating => !disk.temporary && !disk.written && !disk.replaced,
            SavePhase::Opening => !disk.temporary && !disk.written && !disk.replaced,
            SavePhase::Writing => disk.temporary && !disk.written && !disk.replaced,
            SavePhase::Syncing => {
                disk.temporary && disk.written && !disk.synced && !disk.replaced
            },
            SavePhase::Renaming => disk.temporary && disk.synced && !disk.replaced,
            SavePhase::Removing(_) => disk.temporary && !disk.replaced,
            SavePhase::Ended => !disk.temporary,
        }
    }

    /// Begin a save: the directory of the checkpoint file is created first, unless the path names
    /// none.
    pub fn start(has_parent: bool) -> (started: (Self, SaveStep<E>))
        ensures
            started.0.is_valid(),
            !started.0.disk().replaced,
            if has_parent {
                started.0.phase() is Creating && started.1 == SaveStep::<E>::CreateParent
            } else {
                started.0.phase() is Opening && started.1 == SaveStep::<E>::Open
            },
    {
        let disk: Ghost<Disk> = Ghost(
            Disk { temporary: false, written: false, synced: false, replaced: false },
        );
        if has_parent {
            (SaveRun { phase: SavePhase::Creating, disk }, SaveStep::CreateParent)
        } else {
            (SaveRun { phase: SavePhase::Opening, disk }, SaveStep::Open)
        }
    }

    /// The directory has been created, or not.
    pub fn on_parent(&mut self, outcome: Result<(), E>) -> (step: SaveStep<E>)
        requires
            old(self).is_valid(),
            old(self).phase() is Creating,
        ensures
            final(self).is_valid(),
            final(self).disk() == old(self).disk(),
            match outcome {
                Ok(_) => step == SaveStep::<E>::Open && final(self).phase() is Opening,
                Err(error) => step == SaveStep::Failed(error) && final(self).phase() is Ended,
            },
    {
        match outcome {
            Ok(_) => {
                self.phase = SavePhase::Opening;
                SaveStep::Open
            },
            Err(error) => {
                self.phase = SavePhase::Ended;
                SaveStep::Failed(error)
            },
        }
    }

    /// A temporary file has been created, or not: a name that is taken is tried again with another.
    pub fn on_opened(&mut self, opened: Opened<E>) -> (step: SaveStep<E>)
        requires
            old(self).is_valid(),
            old(self).phase() is Opening,
        ensures
            final(self).is_valid(),
            match opened {
                Opened::Created => {
                    &&& step == SaveStep::<E>::Write
                    &&& final(self).phase() is Writing
                    &&& final(self).disk() == (Disk { temporary: true, ..old(self).disk() })
                },
                Opened::AlreadyExists => {
                    &&& step == SaveStep::<E>::Open
                    &&& final(self).phase() is Opening
                    &&& final(self).disk() == old(self).disk()
                },
                Opened::Failed(error) => {
                    &&& step == SaveStep::Failed(error)
                    &&& final(self).phase() is Ended
                    &&& final(self).disk() == old(self).disk()
                },
            },
    {
        match opened {
            Opened::Created => {
                proof {
                    self.disk@ = Disk { temporary: true, ..self.disk@ };
                }
                self.phase = SavePhase::Writing;
                SaveStep::Write
            },
            Opened::AlreadyExists => SaveStep::Open,
            Opened::Failed(error) => {
                self.phase = SavePhase::Ended;
                SaveStep::Failed(error)
            },
        }
    }

    /// Clean up after a failure.
    fn clean_up(&mut self, error: E) -> (step: SaveStep<E>)
        requires
            old(self).is_valid(),
            old(self).disk().temporary,
            !old(self).disk().replaced,
        ensures
            final(self).is_valid(),
            step == SaveStep::<E>::Remove,
            final(self).phase() == SavePhase::Removing(error),
            final(self).disk() == old(self).disk(),
    {
        self.phase = SavePhase::Removing(error);
        SaveStep::Remove
    }

    /// The checkpoint has been written, or not.
    pub fn on_written(&mut self, outcome: Result<(), E>) -> (step: SaveStep<E>)
        requires
            old(self).is_valid(),
            old(self).phase() is Writing,
        ensures
            final(self).is_valid(),
            match outcome {
                Ok(_) => {
                    &&& step == SaveStep::<E>::Sync
                    &&& final(self).phase() is Syncing
                    &&& final(self).disk() == (Disk { written: true, ..old(self).disk() })
                },
                Err(error) => {
                    &&& step == SaveStep::<E>::Remove
                    &&& final(self).phase() == SavePhase::Removing(error)
                    &&& final(self).disk() == old(self).disk()
                },
            },
    {
        match outcome {
            Ok(_) => {
                proof {
                    self.disk@ = Disk { written: true, ..self.disk@ };
                }
                self.phase = SavePhase::Syncing;
                SaveStep::Sync
            },
            Err(error) => self.clean_up(error),
        }
    }

    /// The checkpoint has reached the disk, or not.
    pub fn on_synced(&mut self, outcome: Result<(), E>) -> (step: SaveStep<E>)
        requires
            old(self).is_valid(),
            old(self).phase() is Syncing,
        ensures
            final(self).is_valid(),
            match outcome {
                Ok(_) => {
                    &&& step == SaveStep::<E>::Rename
                    &&& final(self).phase() is Renaming
                    &&& final(self).disk() == (Disk { synced: true, ..old(self).disk() })
                },
                Err(error) => {
                    &&& step == SaveStep::<E>::Remove
                    &&& final(self).phase() == SavePhase::Removing(error)
                    &&& final(self).disk() == old(self).disk()
                },
            },
    {
        match outcome {
            Ok(_) => {
                proof {
                    self.disk@ = Disk { synced: true, ..self.disk@ };
                }
                self.phase = SavePhase::Renaming;
                SaveStep::Rename
            },
            Err(error) => self.clean_up(error),
        }
    }

    /// The temporary file has taken the place of the checkpoint file, or not.
    pub fn on_renamed(&mut self, outcome: Result<(), E>) -> (step: SaveStep<E>)
        requires
            old(self).is_valid(),
            old(self).phase() is Renaming,
        ensures
            final(self).is_valid(),
            match outcome {
                Ok(_) => {
                    &&& step == SaveStep::<E>::Saved
                    &&& final(self).phase() is Ended
                    &&& final(self).disk() == (Disk {
                        temporary: false,
                        replaced: true,
                        ..old(self).disk()
                    })
                },
                Err(error) => {
                    &&& step == SaveStep::<E>::Remove
                    &&& final(self).phase() == SavePhase::Removing(error)
                    &&& final(self).disk() == old(self).disk()
                },
            },
    {
        match outcome {
            Ok(_) => {
                proof {
                    self.disk@ = Disk { temporary: false, replaced: true, ..self.disk@ };
                }
                self.phase = SavePhase::Ended;
                SaveStep::Saved
            },
            Err(error) => self.clean_up(error),
        }
    }

    /// The temporary file has been removed, or could not be: either way the save ends with the
    /// failure that came first.
    ///
    /// A temporary file that could not be removed is given up.
    pub fn on_removed(&mut self) -> (step: SaveStep<E>)
        requires
            old(self).is_valid(),
            old(self).phase() is Removing,
        ensures
            final(self).is_valid(),
            final(self).phase() is Ended,
            !final(self).disk().replaced,
            old(self).phase() matches SavePhase::Removing(error) && step == SaveStep::Failed(error),
    {
        let mut phase = SavePhase::Ended;
        std::mem::swap(&mut phase, &mut self.phase);
        proof {
            self.disk@ = Disk { temporary: false, ..self.disk@ };
        }
        match phase {
            SavePhase::Removing(error) => SaveStep::Failed(error),
            _ => SaveStep::Saved,
        }
    }
}

/// A temporary file is hidden, bears the name of the checkpoint file behind its first dot, and ends in
/// `.tmp`.
pub proof fn temporary_files_bear_the_name(name: Seq<char>, process: u32, sequence: u64)
    ensures
        ({
            let temporary_name = temporary(name, process, sequence);
            let process_text = text::decimal(process as nat);
            let sequence_text = text::decimal(sequence as nat);
            let first = name.len() as int + 2;
            let second = first + process_text.len() + 1;
            &&& temporary_name[0] == '.'
            &&& temporary_name.subrange(1, name.len() as int + 1) == name
            &&& temporary_name[first - 1] == '.'
            &&& temporary_name.subrange(first, second - 1) == process_text
            &&& temporary_name[second - 1] == '.'
            &&& temporary_name.subrange(second, second + sequence_text.len()) == sequence_text
            &&& temporary_name.skip(second + sequence_text.len()) == seq!['.', 't', 'm', 'p']
        }),
{
    reveal_strlit(".");
    reveal_strlit(".tmp");
    let temporary_name = temporary(name, process, sequence);
    let process_text = text::decimal(process as nat);
    let sequence_text = text::decimal(sequence as nat);
    let first = name.len() as int + 2;
    let second = first + process_text.len() + 1;
    assert(temporary_name.subrange(1, name.len() as int + 1) =~= name);
    assert(temporary_name.subrange(first, second - 1) =~= process_text);
    assert(temporary_name.subrange(second, second + sequence_text.len()) =~= sequence_text);
    assert(temporary_name.skip(second + sequence_text.len()) =~= seq!['.', 't', 'm', 'p']);
}

} // verus!
