//! A model of the files that a session touches, and what holds of a
//! session run against it.
//!
//! The model holds the content of the entry file and of its backup. The
//! surroundings of a session are a `World`: which actions fail, how the
//! editor exits, what it leaves in the entry, and what a failed copy
//! leaves at its destination. A session is run by performing each action
//! on the model and handing the session the event that came of it.
use crate::session::{
    open_spec, recover_spec, step_spec, Action, Event, Failure, Outcome, Phase, Step,
};
use vstd::prelude::*;

verus! {

/// The content of an entry file, of its backup file and of its staging
/// file; `None` where the file is absent.
pub struct Files {
    pub entry: Option<Seq<u8>>,
    pub backup: Option<Seq<u8>>,
    pub staged: Option<Seq<u8>>,
}

/// How the surroundings answer the actions of a session.
pub struct World {
    /// The actions that fail.
    pub failing: Set<Action>,
    /// Whether the editor exits with success once started.
    pub editor_succeeds: bool,
    /// What the editor leaves in the entry file (`None`: it removed it).
    pub edited: Option<Seq<u8>>,
    /// What a copy that fails leaves at its destination.
    pub debris: Option<Seq<u8>>,
}

impl World {
    /// Every file operation succeeds; only the editor's exit is open.
    pub open spec fn reliable(self) -> bool {
        self.failing == Set::<Action>::empty()
    }
}

/// The files after an action, and the event that reports it. A copy or a
/// rename whose source is absent fails and changes nothing.
pub open spec fn perform(w: World, a: Action, f: Files) -> (Files, Event) {
    if w.failing.contains(a) {
        match a {
            Action::Snapshot => (Files { staged: w.debris, ..f }, Event::Failed),
            Action::RestoreEntry => (Files { entry: w.debris, ..f }, Event::Failed),
            _ => (f, Event::Failed),
        }
    } else {
        match a {
            Action::Snapshot => match f.entry {
                Some(c) => (Files { staged: Some(c), ..f }, Event::Done),
                None => (f, Event::Failed),
            },
            Action::PublishSnapshot => match f.staged {
                Some(c) => (Files { backup: Some(c), staged: None, ..f }, Event::Done),
                None => (f, Event::Failed),
            },
            Action::RemoveStaging => (Files { staged: None, ..f }, Event::Done),
            Action::CreateEntry => (Files { entry: Some(Seq::empty()), ..f }, Event::Done),
            Action::RunEditor => (
                Files { entry: w.edited, ..f },
                if w.editor_succeeds {
                    Event::Done
                } else {
                    Event::EditorFailed
                },
            ),
            Action::RemoveBackup => (Files { backup: None, ..f }, Event::Done),
            Action::RestoreEntry => match f.backup {
                Some(c) => (Files { entry: Some(c), ..f }, Event::Done),
                None => (f, Event::Failed),
            },
            Action::RemoveEntry => (Files { entry: None, ..f }, Event::Done),
        }
    }
}

/// Runs a session from `phase`, where it asks for `step`, for at most
/// `fuel` actions. Gives how it ended (`None` if it had not ended) and the
/// files then.
pub open spec fn run(w: World, phase: Phase, step: Step, f: Files, fuel: nat) -> (
    Option<Result<Outcome, Failure>>,
    Files,
)
    decreases fuel,
{
    match step {
        Step::Finish(r) => (Some(r), f),
        Step::Perform(a) => if fuel == 0 {
            (None, f)
        } else {
            let (f2, ev) = perform(w, a, f);
            let (p2, s2) = step_spec(phase, ev);
            run(w, p2, s2, f2, (fuel - 1) as nat)
        },
    }
}

/// The most actions that any session performs.
pub open spec fn session_length() -> nat {
    5
}

/// An editing session on the files `f`, run to its end.
pub open spec fn edit_session(w: World, f: Files) -> (Option<Result<Outcome, Failure>>, Files) {
    let (p, s) = open_spec(f.entry is Some, f.backup is Some);
    run(w, p, s, f, session_length())
}

/// A recovery session on the files `f`, run to its end.
pub open spec fn recovery_session(w: World, f: Files) -> (
    Option<Result<Outcome, Failure>>,
    Files,
) {
    let (p, s) = recover_spec(f.entry is Some);
    run(w, p, s, f, session_length())
}

/// A failed edit of an existing entry leaves the entry exactly as it was,
/// and no backup.
pub proof fn lemma_failed_edit_restores(w: World, c: Seq<u8>)
    requires
        w.reliable(),
        !w.editor_succeeds,
    ensures
        edit_session(w, Files { entry: Some(c), backup: None, staged: None }) == (
            Some(Ok::<Outcome, Failure>(Outcome::RolledBack)),
            Files { entry: Some(c), backup: None, staged: None },
        ),
{
    reveal_with_fuel(run, 6);
}

/// A successful edit keeps what the editor wrote, and leaves no backup,
/// whether the entry existed before or not.
pub proof fn lemma_successful_edit_commits(w: World, f: Files)
    requires
        w.reliable(),
        w.editor_succeeds,
        f.backup is None,
        f.staged is None,
    ensures
        edit_session(w, f) == (
            Some(Ok::<Outcome, Failure>(Outcome::Saved)),
            Files { entry: w.edited, backup: None, ..f },
        ),
{
    reveal_with_fuel(run, 6);
}

/// A snapshot that fails, in its copy (whatever that left behind) or in
/// its rename, ends the session with the entry as it was and no other file.
pub proof fn lemma_failed_snapshot_leaves_nothing(w: World, c: Seq<u8>)
    requires
        w.failing == set![Action::Snapshot] || w.failing == set![Action::PublishSnapshot],
    ensures
        edit_session(w, Files { entry: Some(c), backup: None, staged: None }) == (
            Some(Err::<Outcome, Failure>(Failure::SnapshotError)),
            Files { entry: Some(c), backup: None, staged: None },
        ),
{
    reveal_with_fuel(run, 6);
    assert(!w.failing.contains(Action::RemoveStaging));
    assert(w.failing.contains(Action::PublishSnapshot) ==> !w.failing.contains(Action::Snapshot));
}

/// A session on an entry whose backup is already there stops before any
/// action, with `BackupPresent`: that backup is never overwritten.
pub proof fn lemma_present_backup_is_kept(w: World, f: Files)
    requires
        f.backup is Some,
    ensures
        edit_session(w, f) == (Some(Err::<Outcome, Failure>(Failure::BackupPresent)), f),
{
    reveal_with_fuel(run, 6);
}

/// A failed edit of a new entry leaves no entry file.
pub proof fn lemma_failed_fresh_edit_removes(w: World)
    requires
        w.reliable(),
        !w.editor_succeeds,
    ensures
        edit_session(w, Files { entry: None, backup: None, staged: None }) == (
            Some(Ok::<Outcome, Failure>(Outcome::Discarded)),
            Files { entry: None, backup: None, staged: None },
        ),
{
    reveal_with_fuel(run, 6);
}

/// A rollback whose copy fails keeps the backup, so that a later run can
/// restore it.
pub proof fn lemma_failed_restore_keeps_backup(w: World, c: Seq<u8>)
    requires
        w.failing == set![Action::RestoreEntry],
        !w.editor_succeeds,
    ensures
        edit_session(w, Files { entry: Some(c), backup: None, staged: None }).0 == Some(
            Err::<Outcome, Failure>(Failure::RestoreError),
        ),
        edit_session(w, Files { entry: Some(c), backup: None, staged: None }).1.backup == Some(c),
{
    reveal_with_fuel(run, 6);
    assert(!w.failing.contains(Action::Snapshot));
    assert(!w.failing.contains(Action::PublishSnapshot));
    assert(!w.failing.contains(Action::RunEditor));
}

/// A spawn failure leaves the files as they were.
pub proof fn lemma_spawn_failure_changes_nothing(w: World, f: Files)
    requires
        w.failing == set![Action::RunEditor],
        f.backup is None,
        f.staged is None,
    ensures
        edit_session(w, f) == (Some(Err::<Outcome, Failure>(Failure::SpawnError)), f),
{
    reveal_with_fuel(run, 6);
    assert(!w.failing.contains(Action::Snapshot));
    assert(!w.failing.contains(Action::PublishSnapshot));
    assert(!w.failing.contains(Action::CreateEntry));
    assert(!w.failing.contains(Action::RemoveBackup));
    assert(!w.failing.contains(Action::RemoveEntry));
}

/// Recovering a backup puts its content in the entry and removes it.
pub proof fn lemma_recovery_restores(w: World, e: Option<Seq<u8>>, b: Seq<u8>, t: Option<Seq<u8>>)
    requires
        w.reliable(),
    ensures
        recovery_session(w, Files { entry: e, backup: Some(b), staged: t }) == (
            Some(Ok::<Outcome, Failure>(Outcome::Recovered)),
            Files { entry: Some(b), backup: None, staged: t },
        ),
{
    reveal_with_fuel(run, 6);
}

/// A recovery whose copy fails keeps the backup, so that a later run can
/// try again.
pub proof fn lemma_failed_recovery_keeps_backup(
    w: World,
    e: Option<Seq<u8>>,
    b: Seq<u8>,
    t: Option<Seq<u8>>,
)
    requires
        w.failing == set![Action::RestoreEntry],
    ensures
        recovery_session(w, Files { entry: e, backup: Some(b), staged: t }).0 == Some(
            Err::<Outcome, Failure>(Failure::RestoreError),
        ),
        recovery_session(w, Files { entry: e, backup: Some(b), staged: t }).1.backup == Some(b),
{
    reveal_with_fuel(run, 6);
    assert(!w.failing.contains(Action::CreateEntry));
}

} // verus!
