//! The backup/restore protocol of one editing session, as a state machine.
//!
//! A session decides; the program performs. Each step names one action on
//! the entry file, its backup file, a staging file or the editor, and the
//! program reports back how the action went. Before an existing entry is
//! edited it is copied to a staging file, which is then renamed to the
//! backup, so that a backup is never seen half written. A session refuses
//! to start where a backup is already there: that backup may be the only
//! good copy of the entry. A successful edit then drops the backup (commit),
//! a failed one copies the backup back over the entry and drops it
//! (rollback). A new entry gets no backup: it is created empty, and a
//! failed edit removes it again. A backup left by an interrupted run is
//! resolved by a recovery session, which restores it over its entry.
use vstd::prelude::*;

verus! {

/// One action that a session asks the program to perform.
#[derive(Clone, Copy, Debug, PartialEq, Eq)]
pub enum Action {
    /// Copy the entry file to the staging file, byte for byte, replacing
    /// whatever the staging file held.
    Snapshot,
    /// Rename the staging file to the backup file, in one step.
    PublishSnapshot,
    /// Remove the staging file; nothing to do where it is absent.
    RemoveStaging,
    /// Create the entry file, empty.
    CreateEntry,
    /// Run the editor on the entry file and wait for it to exit.
    RunEditor,
    /// Remove the backup file; nothing to do where it is absent.
    RemoveBackup,
    /// Copy the backup file over the entry file.
    RestoreEntry,
    /// Remove the entry file.
    RemoveEntry,
}

/// How the last action went.
#[derive(Clone, Copy, Debug, PartialEq, Eq)]
pub enum Event {
    /// The action completed; for the editor, it exited with success.
    Done,
    /// The action could not be completed; for the editor, it could not be
    /// started.
    Failed,
    /// The editor ran and exited with a failure status.
    EditorFailed,
}

/// How a session that went through ended.
#[derive(Clone, Copy, Debug, PartialEq, Eq)]
pub enum Outcome {
    /// The editor succeeded and what it wrote is kept.
    Saved,
    /// The editor failed and the entry's earlier content is back.
    RolledBack,
    /// The editor failed on a new entry, which was removed.
    Discarded,
    /// A backup left by an interrupted run was restored over its entry.
    Recovered,
}

/// Why a session stopped early.
#[derive(Clone, Copy, Debug, PartialEq, Eq)]
pub enum Failure {
    /// A backup of the entry was already there, so no session was started
    /// and nothing was touched.
    BackupPresent,
    /// The entry could not be copied to its backup.
    SnapshotError,
    /// The entry file could not be created.
    CreateError,
    /// The editor could not be started.
    SpawnError,
    /// The backup could not be copied back; it is kept for a later run.
    RestoreError,
    /// A file could not be removed.
    RemoveError,
    /// After a snapshot failure or a failed start of the editor, the file
    /// made for the session could not be removed again.
    CleanupError,
}

/// What a session asks for next.
#[derive(Clone, Copy, Debug, PartialEq, Eq)]
pub enum Step {
    /// Perform this action and report how it went.
    Perform(Action),
    /// The session is over.
    Finish(Result<Outcome, Failure>),
}

/// Where a session stands: which action it waits on, and why.
#[derive(Clone, Copy, Debug, PartialEq, Eq)]
pub enum Phase {
    /// Copying an existing entry to the staging file.
    Snapshotting,
    /// Renaming the staging file to the backup.
    Publishing,
    /// Removing the staging file after a failed snapshot.
    DroppingPartial,
    /// Creating a new entry.
    Creating,
    /// The editor runs on an entry that has a backup.
    EditingBacked,
    /// The editor runs on a new entry.
    EditingFresh,
    /// Removing the backup after a successful edit.
    Committing,
    /// Copying the backup back after a failed edit.
    Restoring,
    /// Removing the backup after it was copied back.
    DroppingRestored,
    /// Removing the backup of an edit whose editor did not start.
    DroppingUnused,
    /// Removing a new entry after a failed edit.
    DiscardingFresh,
    /// Removing a new entry whose editor did not start.
    DiscardingUnused,
    /// Creating an empty entry for a backup that has lost its entry.
    CreatingPlaceholder,
    /// Copying a backup left by an interrupted run over its entry.
    Recovering,
    /// Removing that backup once it was copied.
    DroppingRecovered,
    /// Nothing is left to do.
    Finished,
}

/// The first step of an editing session.
pub open spec fn open_spec(entry_exists: bool, backup_exists: bool) -> (Phase, Step) {
    if backup_exists {
        (Phase::Finished, Step::Finish(Err(Failure::BackupPresent)))
    } else if entry_exists {
        (Phase::Snapshotting, Step::Perform(Action::Snapshot))
    } else {
        (Phase::Creating, Step::Perform(Action::CreateEntry))
    }
}

/// The first step of a recovery session.
pub open spec fn recover_spec(entry_exists: bool) -> (Phase, Step) {
    if entry_exists {
        (Phase::Recovering, Step::Perform(Action::RestoreEntry))
    } else {
        (Phase::CreatingPlaceholder, Step::Perform(Action::CreateEntry))
    }
}

/// Where a session goes, and what it asks for, on an event.
pub open spec fn step_spec(phase: Phase, event: Event) -> (Phase, Step) {
    let done = event is Done;
    let over = |r: Result<Outcome, Failure>| (Phase::Finished, Step::Finish(r));
    let then = |p: Phase, a: Action| (p, Step::Perform(a));
    match phase {
        Phase::Snapshotting => if done {
            then(Phase::Publishing, Action::PublishSnapshot)
        } else {
            then(Phase::DroppingPartial, Action::RemoveStaging)
        },
        Phase::Publishing => if done {
            then(Phase::EditingBacked, Action::RunEditor)
        } else {
            then(Phase::DroppingPartial, Action::RemoveStaging)
        },
        Phase::DroppingPartial => if done {
            over(Err(Failure::SnapshotError))
        } else {
            over(Err(Failure::CleanupError))
        },
        Phase::Creating => if done {
            then(Phase::EditingFresh, Action::RunEditor)
        } else {
            over(Err(Failure::CreateError))
        },
        Phase::EditingBacked => match event {
            Event::Done => then(Phase::Committing, Action::RemoveBackup),
            Event::EditorFailed => then(Phase::Restoring, Action::RestoreEntry),
            Event::Failed => then(Phase::DroppingUnused, Action::RemoveBackup),
        },
        Phase::EditingFresh => match event {
            Event::Done => over(Ok(Outcome::Saved)),
            Event::EditorFailed => then(Phase::DiscardingFresh, Action::RemoveEntry),
            Event::Failed => then(Phase::DiscardingUnused, Action::RemoveEntry),
        },
        Phase::Committing => if done {
            over(Ok(Outcome::Saved))
        } else {
            over(Err(Failure::RemoveError))
        },
        Phase::Restoring => if done {
            then(Phase::DroppingRestored, Action::RemoveBackup)
        } else {
            over(Err(Failure::RestoreError))
        },
        Phase::DroppingRestored => if done {
            over(Ok(Outcome::RolledBack))
        } else {
            over(Err(Failure::RemoveError))
        },
        Phase::DroppingUnused => if done {
            over(Err(Failure::SpawnError))
        } else {
            over(Err(Failure::CleanupError))
        },
        Phase::DiscardingFresh => if done {
            over(Ok(Outcome::Discarded))
        } else {
            over(Err(Failure::RemoveError))
        },
        Phase::DiscardingUnused => if done {
            over(Err(Failure::SpawnError))
        } else {
            over(Err(Failure::CleanupError))
        },
        Phase::CreatingPlaceholder => if done {
            then(Phase::Recovering, Action::RestoreEntry)
        } else {
            over(Err(Failure::CreateError))
        },
        Phase::Recovering => if done {
            then(Phase::DroppingRecovered, Action::RemoveBackup)
        } else {
            over(Err(Failure::RestoreError))
        },
        Phase::DroppingRecovered => if done {
            over(Ok(Outcome::Recovered))
        } else {
            over(Err(Failure::RemoveError))
        },
        // `Session::next` is never called on a finished session.
        Phase::Finished => over(Err(Failure::RemoveError)),
    }
}

/// One session on one entry and its backup.
pub struct Session {
    pub phase: Phase,
}

/// Starts an editing session on an entry; `entry_exists` and
/// `backup_exists` tell whether its file and its backup file are there.
/// Returns the session and the first step: with a backup there, the
/// session is over at once with `BackupPresent`.
pub fn open_file(entry_exists: bool, backup_exists: bool) -> (r: (Session, Step))
    ensures
        (r.0.phase, r.1) == open_spec(entry_exists, backup_exists),
{
    if backup_exists {
        (Session { phase: Phase::Finished }, Step::Finish(Err(Failure::BackupPresent)))
    } else if entry_exists {
        (Session { phase: Phase::Snapshotting }, Step::Perform(Action::Snapshot))
    } else {
        (Session { phase: Phase::Creating }, Step::Perform(Action::CreateEntry))
    }
}

/// Starts the recovery of an entry whose backup was left by an interrupted
/// run; `entry_exists` tells whether the entry's file is there.
pub fn recover_entry(entry_exists: bool) -> (r: (Session, Step))
    ensures
        (r.0.phase, r.1) == recover_spec(entry_exists),
{
    if entry_exists {
        (Session { phase: Phase::Recovering }, Step::Perform(Action::RestoreEntry))
    } else {
        (Session { phase: Phase::CreatingPlaceholder }, Step::Perform(Action::CreateEntry))
    }
}

impl Session {
    /// Whether the session is over.
    pub fn is_finished(&self) -> (r: bool)
        ensures
            r == (self.phase is Finished),
    {
        match self.phase {
            Phase::Finished => true,
            _ => false,
        }
    }

    /// Takes the report on the last action and says what comes next.
    pub fn next(&mut self, event: Event) -> (r: Step)
        requires
            !(old(self).phase is Finished),
        ensures
            (final(self).phase, r) == step_spec(old(self).phase, event),
    {
        let done = match event {
            Event::Done => true,
            _ => false,
        };
        let (phase, step) = match self.phase {
            Phase::Snapshotting => if done {
                (Phase::Publishing, Step::Perform(Action::PublishSnapshot))
            } else {
                (Phase::DroppingPartial, Step::Perform(Action::RemoveStaging))
            },
            Phase::Publishing => if done {
                (Phase::EditingBacked, Step::Perform(Action::RunEditor))
            } else {
                (Phase::DroppingPartial, Step::Perform(Action::RemoveStaging))
            },
            Phase::DroppingPartial => if done {
                (Phase::Finished, Step::Finish(Err(Failure::SnapshotError)))
            } else {
                (Phase::Finished, Step::Finish(Err(Failure::CleanupError)))
            },
            Phase::Creating => if done {
                (Phase::EditingFresh, Step::Perform(Action::RunEditor))
            } else {
                (Phase::Finished, Step::Finish(Err(Failure::CreateError)))
            },
            Phase::EditingBacked => match event {
                Event::Done => (Phase::Committing, Step::Perform(Action::RemoveBackup)),
                Event::EditorFailed => (Phase::Restoring, Step::Perform(Action::RestoreEntry)),
                Event::Failed => (Phase::DroppingUnused, Step::Perform(Action::RemoveBackup)),
            },
            Phase::EditingFresh => match event {
                Event::Done => (Phase::Finished, Step::Finish(Ok(Outcome::Saved))),
                Event::EditorFailed => (Phase::DiscardingFresh, Step::Perform(Action::RemoveEntry)),
                Event::Failed => (Phase::DiscardingUnused, Step::Perform(Action::RemoveEntry)),
            },
            Phase::Committing => if done {
                (Phase::Finished, Step::Finish(Ok(Outcome::Saved)))
            } else {
                (Phase::Finished, Step::Finish(Err(Failure::RemoveError)))
            },
            Phase::Restoring => if done {
                (Phase::DroppingRestored, Step::Perform(Action::RemoveBackup))
            } else {
                (Phase::Finished, Step::Finish(Err(Failure::RestoreError)))
            },
            Phase::DroppingRestored => if done {
                (Phase::Finished, Step::Finish(Ok(Outcome::RolledBack)))
            } else {
                (Phase::Finished, Step::Finish(Err(Failure::RemoveError)))
            },
            Phase::DroppingUnused => if done {
                (Phase::Finished, Step::Finish(Err(Failure::SpawnError)))
            } else {
                (Phase::Finished, Step::Finish(Err(Failure::CleanupError)))
            },
            Phase::DiscardingFresh => if done {
                (Phase::Finished, Step::Finish(Ok(Outcome::Discarded)))
            } else {
                (Phase::Finished, Step::Finish(Err(Failure::RemoveError)))
            },
            Phase::DiscardingUnused => if done {
                (Phase::Finished, Step::Finish(Err(Failure::SpawnError)))
            } else {
                (Phase::Finished, Step::Finish(Err(Failure::CleanupError)))
            },
            Phase::CreatingPlaceholder => if done {
                (Phase::Recovering, Step::Perform(Action::RestoreEntry))
            } else {
                (Phase::Finished, Step::Finish(Err(Failure::CreateError)))
            },
            Phase::Recovering => if done {
                (Phase::DroppingRecovered, Step::Perform(Action::RemoveBackup))
            } else {
                (Phase::Finished, Step::Finish(Err(Failure::RestoreError)))
            },
            Phase::DroppingRecovered => if done {
                (Phase::Finished, Step::Finish(Ok(Outcome::Recovered)))
            } else {
                (Phase::Finished, Step::Finish(Err(Failure::RemoveError)))
            },
            Phase::Finished => (Phase::Finished, Step::Finish(Err(Failure::RemoveError))),
        };
        self.phase = phase;
        step
    }
}

} // verus!
