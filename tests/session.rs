use std::collections::BTreeMap;

use diary_cli::listing::{get_files_in_directory, DirItem};
use diary_cli::session::{open_file, recover_entry, Action, Event, Failure, Outcome, Session, Step};
use diary_cli::sweep::backup_check;

/// A directory held in memory, with an editor that writes `edited` (or
/// exits with failure) and a set of actions that fail.
struct Fake {
    files: BTreeMap<String, Vec<u8>>,
    entry: String,
    backup: String,
    staging: String,
    editor_ok: bool,
    edited: Option<Vec<u8>>,
    failing: Vec<Action>,
    debris: Vec<u8>,
    log: Vec<Action>,
}

impl Fake {
    fn new(entry: &str, backup: &str, staging: &str) -> Fake {
        Fake {
            files: BTreeMap::new(),
            entry: entry.to_string(),
            backup: backup.to_string(),
            staging: staging.to_string(),
            editor_ok: true,
            edited: None,
            failing: Vec::new(),
            debris: Vec::new(),
            log: Vec::new(),
        }
    }

    fn perform(&mut self, a: Action) -> Event {
        self.log.push(a);
        if self.failing.contains(&a) {
            match a {
                Action::Snapshot => {
                    self.files.insert(self.staging.clone(), self.debris.clone());
                }
                Action::RestoreEntry => {
                    self.files.insert(self.entry.clone(), self.debris.clone());
                }
                _ => {}
            }
            return Event::Failed;
        }
        match a {
            Action::Snapshot => match self.files.get(&self.entry).cloned() {
                Some(c) => {
                    self.files.insert(self.staging.clone(), c);
                }
                None => return Event::Failed,
            },
            Action::PublishSnapshot => match self.files.remove(&self.staging) {
                Some(c) => {
                    self.files.insert(self.backup.clone(), c);
                }
                None => return Event::Failed,
            },
            Action::RemoveStaging => {
                self.files.remove(&self.staging);
            }
            Action::CreateEntry => {
                self.files.insert(self.entry.clone(), Vec::new());
            }
            Action::RunEditor => {
                if let Some(w) = &self.edited {
                    self.files.insert(self.entry.clone(), w.clone());
                }
                return if self.editor_ok { Event::Done } else { Event::EditorFailed };
            }
            Action::RemoveBackup => {
                self.files.remove(&self.backup);
            }
            Action::RestoreEntry => match self.files.get(&self.backup).cloned() {
                Some(c) => {
                    self.files.insert(self.entry.clone(), c);
                }
                None => return Event::Failed,
            },
            Action::RemoveEntry => {
                self.files.remove(&self.entry);
            }
        }
        Event::Done
    }

    fn drive(&mut self, start: (Session, Step)) -> Result<Outcome, Failure> {
        let (mut s, mut step) = start;
        loop {
            assert!(matches!(step, Step::Finish(_)) || !s.is_finished());
            match step {
                Step::Finish(r) => return r,
                Step::Perform(a) => {
                    let ev = self.perform(a);
                    step = s.next(ev);
                }
            }
        }
    }

    fn edit(&mut self) -> Result<Outcome, Failure> {
        let exists = self.files.contains_key(&self.entry);
        let backup_exists = self.files.contains_key(&self.backup);
        self.drive(open_file(exists, backup_exists))
    }

    fn get(&self, name: &str) -> Option<&[u8]> {
        self.files.get(name).map(|v| v.as_slice())
    }
}

fn today() -> Fake {
    Fake::new("today.txt", "today.backup", "today.partial")
}

#[test]
fn new_entry_edit_saves_content() {
    let mut f = today();
    f.edited = Some(b"hello".to_vec());
    assert_eq!(f.edit(), Ok(Outcome::Saved));
    assert_eq!(f.get("today.txt"), Some(&b"hello"[..]));
    assert_eq!(f.get("today.backup"), None);
    assert_eq!(f.log, vec![Action::CreateEntry, Action::RunEditor]);
}

#[test]
fn failed_edit_keeps_old_content() {
    let mut f = today();
    f.files.insert("today.txt".to_string(), b"old".to_vec());
    f.editor_ok = false;
    f.edited = Some(b"half writ".to_vec());
    assert_eq!(f.edit(), Ok(Outcome::RolledBack));
    assert_eq!(f.get("today.txt"), Some(&b"old"[..]));
    assert_eq!(f.get("today.backup"), None);
    assert_eq!(f.files.len(), 1);
}

#[test]
fn sweep_restores_stale_backup() {
    let mut files = BTreeMap::new();
    files.insert("today.txt".to_string(), b"old".to_vec());
    files.insert("today.backup".to_string(), b"stale".to_vec());
    let items: Vec<Option<DirItem>> = files
        .keys()
        .map(|n| Some(DirItem { name: n.clone(), is_file: true }))
        .collect();
    let plan = backup_check(&get_files_in_directory(&items));
    assert_eq!(plan.len(), 1);
    assert_eq!(plan[0].backup, "today.backup");
    assert_eq!(plan[0].entry, "today.txt");
    assert!(plan[0].entry_exists);
    let mut f = today();
    f.files = files;
    assert_eq!(f.drive(recover_entry(plan[0].entry_exists)), Ok(Outcome::Recovered));
    assert_eq!(f.get("today.txt"), Some(&b"stale"[..]));
    assert_eq!(f.get("today.backup"), None);
}

#[test]
fn sweep_twice_finds_nothing_the_second_time() {
    let mut f = today();
    f.files.insert("today.backup".to_string(), b"kept".to_vec());
    f.files.insert("2026-01-01.txt".to_string(), b"x".to_vec());
    let names: Vec<String> = f.files.keys().cloned().collect();
    let plan = backup_check(&names);
    assert_eq!(plan.len(), 1);
    assert!(!plan[0].entry_exists);
    assert_eq!(f.drive(recover_entry(false)), Ok(Outcome::Recovered));
    assert_eq!(f.get("today.txt"), Some(&b"kept"[..]));
    let before = f.files.clone();
    let names: Vec<String> = f.files.keys().cloned().collect();
    assert!(backup_check(&names).is_empty());
    assert_eq!(f.files, before);
}

#[test]
fn existing_entry_edit_commits() {
    let mut f = today();
    f.files.insert("today.txt".to_string(), b"old".to_vec());
    f.edited = Some(b"new".to_vec());
    assert_eq!(f.edit(), Ok(Outcome::Saved));
    assert_eq!(f.get("today.txt"), Some(&b"new"[..]));
    assert_eq!(f.get("today.backup"), None);
    assert_eq!(
        f.log,
        vec![Action::Snapshot, Action::PublishSnapshot, Action::RunEditor, Action::RemoveBackup]
    );
}

#[test]
fn failed_snapshot_leaves_no_backup() {
    let mut f = today();
    f.files.insert("today.txt".to_string(), b"old".to_vec());
    f.failing = vec![Action::Snapshot];
    f.debris = b"ol".to_vec();
    assert_eq!(f.edit(), Err(Failure::SnapshotError));
    assert_eq!(f.get("today.txt"), Some(&b"old"[..]));
    assert_eq!(f.get("today.backup"), None);
    assert_eq!(f.files.len(), 1);
    assert!(!f.log.contains(&Action::RunEditor));
}

#[test]
fn failed_new_entry_edit_leaves_no_file() {
    let mut f = today();
    f.editor_ok = false;
    f.edited = Some(b"junk".to_vec());
    assert_eq!(f.edit(), Ok(Outcome::Discarded));
    assert!(f.files.is_empty());
}

#[test]
fn failed_restore_keeps_backup() {
    let mut f = today();
    f.files.insert("today.txt".to_string(), b"old".to_vec());
    f.editor_ok = false;
    f.failing = vec![Action::RestoreEntry];
    f.debris = b"o".to_vec();
    assert_eq!(f.edit(), Err(Failure::RestoreError));
    assert_eq!(f.get("today.backup"), Some(&b"old"[..]));
}

#[test]
fn spawn_failure_removes_backup() {
    let mut f = today();
    f.files.insert("today.txt".to_string(), b"old".to_vec());
    f.failing = vec![Action::RunEditor];
    assert_eq!(f.edit(), Err(Failure::SpawnError));
    assert_eq!(f.get("today.txt"), Some(&b"old"[..]));
    assert_eq!(f.get("today.backup"), None);
}

#[test]
fn spawn_failure_on_new_entry_removes_it() {
    let mut f = today();
    f.failing = vec![Action::RunEditor];
    assert_eq!(f.edit(), Err(Failure::SpawnError));
    assert!(f.files.is_empty());
}

#[test]
fn failed_create_stops_before_editor() {
    let mut f = today();
    f.failing = vec![Action::CreateEntry];
    assert_eq!(f.edit(), Err(Failure::CreateError));
    assert_eq!(f.log, vec![Action::CreateEntry]);
}

#[test]
fn failed_commit_reports_remove_error() {
    let mut f = today();
    f.files.insert("today.txt".to_string(), b"old".to_vec());
    f.failing = vec![Action::RemoveBackup];
    f.edited = Some(b"new".to_vec());
    assert_eq!(f.edit(), Err(Failure::RemoveError));
    assert_eq!(f.get("today.txt"), Some(&b"new"[..]));
}

#[test]
fn recovery_without_entry_creates_placeholder_first() {
    let mut f = today();
    f.files.insert("today.backup".to_string(), b"b".to_vec());
    assert_eq!(f.drive(recover_entry(false)), Ok(Outcome::Recovered));
    assert_eq!(
        f.log,
        vec![Action::CreateEntry, Action::RestoreEntry, Action::RemoveBackup]
    );
    assert_eq!(f.get("today.txt"), Some(&b"b"[..]));
}

#[test]
fn session_reports_finished() {
    let (mut s, step) = open_file(false, false);
    assert_eq!(step, Step::Perform(Action::CreateEntry));
    assert!(!s.is_finished());
    assert_eq!(s.next(Event::Done), Step::Perform(Action::RunEditor));
    assert_eq!(s.next(Event::Done), Step::Finish(Ok(Outcome::Saved)));
    assert!(s.is_finished());
}

#[test]
fn present_backup_stops_session() {
    let mut f = today();
    f.files.insert("today.txt".to_string(), b"new".to_vec());
    f.files.insert("today.backup".to_string(), b"only good copy".to_vec());
    assert_eq!(f.edit(), Err(Failure::BackupPresent));
    assert!(f.log.is_empty());
    assert_eq!(f.get("today.backup"), Some(&b"only good copy"[..]));
    let (s, step) = open_file(false, true);
    assert!(s.is_finished());
    assert_eq!(step, Step::Finish(Err(Failure::BackupPresent)));
}

#[test]
fn failed_publish_leaves_no_backup() {
    let mut f = today();
    f.files.insert("today.txt".to_string(), b"old".to_vec());
    f.failing = vec![Action::PublishSnapshot];
    assert_eq!(f.edit(), Err(Failure::SnapshotError));
    assert_eq!(f.get("today.txt"), Some(&b"old"[..]));
    assert_eq!(f.files.len(), 1);
}

#[test]
fn failed_cleanup_is_reported() {
    let mut f = today();
    f.files.insert("today.txt".to_string(), b"old".to_vec());
    f.failing = vec![Action::Snapshot, Action::RemoveStaging];
    f.debris = b"ol".to_vec();
    assert_eq!(f.edit(), Err(Failure::CleanupError));
    assert_eq!(f.get("today.backup"), None);

    let mut f = today();
    f.failing = vec![Action::RunEditor, Action::RemoveEntry];
    assert_eq!(f.edit(), Err(Failure::CleanupError));
}

#[test]
fn failed_recovery_keeps_backup() {
    let mut f = today();
    f.files.insert("today.txt".to_string(), b"x".to_vec());
    f.files.insert("today.backup".to_string(), b"good".to_vec());
    f.failing = vec![Action::RestoreEntry];
    assert_eq!(f.drive(recover_entry(true)), Err(Failure::RestoreError));
    assert_eq!(f.get("today.backup"), Some(&b"good"[..]));
}

#[test]
fn sweep_restores_each_backup_to_its_own_entry() {
    let mut files = BTreeMap::new();
    files.insert("a.backup".to_string(), b"A".to_vec());
    files.insert("a.txt".to_string(), b"a".to_vec());
    files.insert("b.backup".to_string(), b"B".to_vec());
    files.insert("notes.md".to_string(), b"n".to_vec());
    let names: Vec<String> = files.keys().cloned().collect();
    for repair in backup_check(&names) {
        let stem = repair.entry.trim_end_matches(".txt").to_string();
        let mut f = Fake::new(&repair.entry, &repair.backup, &format!("{}.partial", stem));
        f.files = files.clone();
        assert_eq!(f.drive(recover_entry(repair.entry_exists)), Ok(Outcome::Recovered));
        files = f.files;
    }
    assert_eq!(files.get("a.txt"), Some(&b"A".to_vec()));
    assert_eq!(files.get("b.txt"), Some(&b"B".to_vec()));
    assert_eq!(files.get("notes.md"), Some(&b"n".to_vec()));
    assert_eq!(files.len(), 3);
}
