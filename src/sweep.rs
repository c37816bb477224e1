//! The startup sweep: backups left by an interrupted run are found in a
//! listing of the data directory and each is restored over its entry by a
//! recovery session.
use crate::model::{run, session_length, Files, World};
use crate::paths::{
    extension, extension_of, named, stem, stem_of, views, with_extension, BACKUP_EXTENSION,
    ENTRY_EXTENSION,
};
use crate::session::recover_spec;
use vstd::prelude::*;

verus! {

/// One backup to restore over its entry.
pub struct Repair {
    /// The file name of the backup.
    pub backup: String,
    /// The file name of its entry.
    pub entry: String,
    /// Whether the entry's file is in the listing.
    pub entry_exists: bool,
}

impl View for Repair {
    type V = (Seq<char>, Seq<char>, bool);

    open spec fn view(&self) -> (Seq<char>, Seq<char>, bool) {
        (self.backup@, self.entry@, self.entry_exists)
    }
}

/// The entry file name that belongs to a backup file name.
pub open spec fn entry_for(backup: Seq<char>) -> Seq<char> {
    named(stem_of(backup), ENTRY_EXTENSION@)
}

/// The repairs for the backups among `names`, in their order; whether an
/// entry exists is read off `listing`.
pub open spec fn repairs_of(names: Seq<Seq<char>>, listing: Seq<Seq<char>>) -> Seq<
    (Seq<char>, Seq<char>, bool),
>
    decreases names.len(),
{
    if names.len() == 0 {
        Seq::empty()
    } else {
        let rest = repairs_of(names.drop_last(), listing);
        let n = names.last();
        if extension_of(n) == Some(BACKUP_EXTENSION@) {
            rest.push((n, entry_for(n), listing.contains(entry_for(n))))
        } else {
            rest
        }
    }
}

/// The repairs that a sweep makes, for a listing of the regular files of
/// the data directory.
pub open spec fn sweep_plan(files: Seq<Seq<char>>) -> Seq<(Seq<char>, Seq<char>, bool)> {
    repairs_of(files, files)
}

/// The content of a file of a directory, `None` where it is absent.
pub open spec fn file_of(dir: Map<Seq<char>, Seq<u8>>, name: Seq<char>) -> Option<Seq<u8>> {
    if dir.contains_key(name) {
        Some(dir[name])
    } else {
        None
    }
}

/// A directory with the file `name` set to `c` (removed where `c` is `None`).
pub open spec fn put(dir: Map<Seq<char>, Seq<u8>>, name: Seq<char>, c: Option<Seq<u8>>) -> Map<
    Seq<char>,
    Seq<u8>,
> {
    match c {
        Some(v) => dir.insert(name, v),
        None => dir.remove(name),
    }
}

/// A directory after the recovery session of one repair.
pub open spec fn apply_repair(
    w: World,
    dir: Map<Seq<char>, Seq<u8>>,
    r: (Seq<char>, Seq<char>, bool),
) -> Map<Seq<char>, Seq<u8>> {
    let f = Files { entry: file_of(dir, r.1), backup: file_of(dir, r.0), staged: None };
    let (p, s) = recover_spec(r.2);
    let g = run(w, p, s, f, session_length()).1;
    put(put(dir, r.1, g.entry), r.0, g.backup)
}

/// A directory after the recovery sessions of the repairs, in their order.
pub open spec fn apply_all(
    w: World,
    dir: Map<Seq<char>, Seq<u8>>,
    rs: Seq<(Seq<char>, Seq<char>, bool)>,
) -> Map<Seq<char>, Seq<u8>>
    decreases rs.len(),
{
    if rs.len() == 0 {
        dir
    } else {
        apply_repair(w, apply_all(w, dir, rs.drop_last()), rs.last())
    }
}

/// With reliable file operations, a recovery session leaves no backup and,
/// where there was one, moves its content to the entry, whether the entry
/// was thought to exist or not.
pub proof fn lemma_recovery_moves_backup(w: World, entry_exists: bool, f: Files)
    requires
        w.reliable(),
    ensures
        run(w, recover_spec(entry_exists).0, recover_spec(entry_exists).1, f, session_length()).1.backup is None,
        f.backup is Some ==> run(
            w,
            recover_spec(entry_exists).0,
            recover_spec(entry_exists).1,
            f,
            session_length(),
        ).1.entry == f.backup,
{
    reveal_with_fuel(run, 5);
}

/// The entry of a backup has the entry extension.
proof fn lemma_entry_for(n: Seq<char>)
    requires
        extension_of(n) == Some(BACKUP_EXTENSION@),
    ensures
        extension_of(entry_for(n)) == Some(ENTRY_EXTENSION@),
        extension_of(entry_for(n)) != Some(BACKUP_EXTENSION@),
{
    reveal_strlit("txt");
    reveal_strlit("backup");
    crate::paths::lemma_last_dot_bound(n);
    crate::paths::lemma_named(stem_of(n), ENTRY_EXTENSION@);
}

/// After a sweep over a prefix of a listing, every file is either one that
/// was there before and is no backup of that prefix, or an entry.
proof fn lemma_sweep_dom(
    w: World,
    dir: Map<Seq<char>, Seq<u8>>,
    names: Seq<Seq<char>>,
    listing: Seq<Seq<char>>,
)
    requires
        w.reliable(),
    ensures
        forall|x: Seq<char>| #[trigger]
            apply_all(w, dir, repairs_of(names, listing)).contains_key(x) ==> (dir.contains_key(x)
                && !(names.contains(x) && extension_of(x) == Some(BACKUP_EXTENSION@)))
                || extension_of(x) == Some(ENTRY_EXTENSION@),
    decreases names.len(),
{
    reveal_strlit("txt");
    reveal_strlit("backup");
    if names.len() > 0 {
        let prefix = names.drop_last();
        lemma_sweep_dom(w, dir, prefix, listing);
        let n = names.last();
        let before = apply_all(w, dir, repairs_of(prefix, listing));
        let after = apply_all(w, dir, repairs_of(names, listing));
        assert forall|x: Seq<char>| names.contains(x) && x != n implies prefix.contains(x) by {
            let i = choose|i: int| 0 <= i < names.len() && names[i] == x;
            assert(prefix[i] == x);
        }
        if extension_of(n) == Some(BACKUP_EXTENSION@) {
            let r = (n, entry_for(n), listing.contains(entry_for(n)));
            assert(repairs_of(names, listing).drop_last() == repairs_of(prefix, listing));
            let f = Files { entry: file_of(before, r.1), backup: file_of(before, r.0), staged: None };
            lemma_recovery_moves_backup(w, r.2, f);
            lemma_entry_for(n);
            assert forall|x: Seq<char>| #[trigger] after.contains_key(x) implies (dir.contains_key(x)
                && !(names.contains(x) && extension_of(x) == Some(BACKUP_EXTENSION@)))
                || extension_of(x) == Some(ENTRY_EXTENSION@) by {
                if x != entry_for(n) {
                    assert(x != n);
                    assert(before.contains_key(x));
                }
            }
        } else {
            assert forall|x: Seq<char>| #[trigger] after.contains_key(x) implies (dir.contains_key(x)
                && !(names.contains(x) && extension_of(x) == Some(BACKUP_EXTENSION@)))
                || extension_of(x) == Some(ENTRY_EXTENSION@) by {
                assert(before.contains_key(x));
            }
        }
    }
}

/// Distinct backups have distinct entries.
proof fn lemma_entry_for_injective(a: Seq<char>, b: Seq<char>)
    requires
        extension_of(a) == Some(BACKUP_EXTENSION@),
        extension_of(b) == Some(BACKUP_EXTENSION@),
        a != b,
    ensures
        entry_for(a) != entry_for(b),
{
    reveal_strlit("txt");
    crate::paths::lemma_last_dot_bound(a);
    crate::paths::lemma_last_dot_bound(b);
    crate::paths::lemma_named(stem_of(a), ENTRY_EXTENSION@);
    crate::paths::lemma_named(stem_of(b), ENTRY_EXTENSION@);
    crate::paths::lemma_split_name(a, BACKUP_EXTENSION@);
    crate::paths::lemma_split_name(b, BACKUP_EXTENSION@);
}

/// Each repair of a listing is for a backup among its names, with that
/// backup's entry.
proof fn lemma_repairs_shape(names: Seq<Seq<char>>, listing: Seq<Seq<char>>)
    ensures
        forall|i: int|
            0 <= i < repairs_of(names, listing).len() ==> {
                let r = #[trigger] repairs_of(names, listing)[i];
                &&& names.contains(r.0)
                &&& extension_of(r.0) == Some(BACKUP_EXTENSION@)
                &&& r.1 == entry_for(r.0)
            },
    decreases names.len(),
{
    if names.len() > 0 {
        let prefix = names.drop_last();
        lemma_repairs_shape(prefix, listing);
        assert forall|x: Seq<char>| prefix.contains(x) implies names.contains(x) by {
            let i = choose|i: int| 0 <= i < prefix.len() && prefix[i] == x;
            assert(names[i] == x);
        }
        assert(names[names.len() - 1] == names.last());
    }
}

/// A sweep changes no file but the backups and entries that its repairs
/// name, whichever of its actions fail: a repair that fails does not stop
/// the others, and touches nothing else.
pub proof fn lemma_sweep_leaves_other_files(
    w: World,
    dir: Map<Seq<char>, Seq<u8>>,
    names: Seq<Seq<char>>,
    listing: Seq<Seq<char>>,
    x: Seq<char>,
)
    requires
        forall|i: int|
            0 <= i < repairs_of(names, listing).len() ==> x != (#[trigger] repairs_of(
                names,
                listing,
            )[i]).0 && x != repairs_of(names, listing)[i].1,
    ensures
        file_of(apply_all(w, dir, repairs_of(names, listing)), x) == file_of(dir, x),
    decreases names.len(),
{
    if names.len() > 0 {
        let prefix = names.drop_last();
        let rs = repairs_of(names, listing);
        let ps = repairs_of(prefix, listing);
        if rs.len() > ps.len() {
            assert(rs.drop_last() == ps);
            assert forall|i: int| 0 <= i < ps.len() implies x != (#[trigger] ps[i]).0 && x
                != ps[i].1 by {
                assert(ps[i] == rs[i]);
            }
            assert(x != rs[rs.len() - 1].0);
            assert(x != rs[rs.len() - 1].1);
        }
        lemma_sweep_leaves_other_files(w, dir, prefix, listing, x);
    }
}

/// With reliable file operations, a sweep over a listing of the directory
/// puts each backup's content in its own entry and removes the backup.
proof fn lemma_sweep_restores_prefix(
    w: World,
    dir: Map<Seq<char>, Seq<u8>>,
    names: Seq<Seq<char>>,
    listing: Seq<Seq<char>>,
)
    requires
        w.reliable(),
        names.no_duplicates(),
        forall|x: Seq<char>| names.contains(x) ==> dir.contains_key(x),
    ensures
        forall|i: int|
            0 <= i < repairs_of(names, listing).len() ==> {
                let r = #[trigger] repairs_of(names, listing)[i];
                let after = apply_all(w, dir, repairs_of(names, listing));
                &&& file_of(after, r.1) == Some(dir[r.0])
                &&& !after.contains_key(r.0)
            },
    decreases names.len(),
{
    if names.len() > 0 {
        let prefix = names.drop_last();
        let n = names.last();
        assert forall|x: Seq<char>| prefix.contains(x) implies names.contains(x) by {
            let i = choose|i: int| 0 <= i < prefix.len() && prefix[i] == x;
            assert(names[i] == x);
        }
        assert(prefix.no_duplicates()) by {
            assert forall|i: int, j: int|
                0 <= i < prefix.len() && 0 <= j < prefix.len() && i != j implies prefix[i]
                != prefix[j] by {
                assert(prefix[i] == names[i] && prefix[j] == names[j]);
            }
        }
        assert(!prefix.contains(n)) by {
            if prefix.contains(n) {
                let i = choose|i: int| 0 <= i < prefix.len() && prefix[i] == n;
                assert(names[i] == names[names.len() - 1]);
            }
        }
        assert(names.contains(n)) by {
            assert(names[names.len() - 1] == n);
        }
        lemma_sweep_restores_prefix(w, dir, prefix, listing);
        let ps = repairs_of(prefix, listing);
        let rs = repairs_of(names, listing);
        lemma_repairs_shape(prefix, listing);
        if extension_of(n) == Some(BACKUP_EXTENSION@) {
            reveal_strlit("txt");
            reveal_strlit("backup");
            lemma_entry_for(n);
            let e = entry_for(n);
            let r = (n, e, listing.contains(e));
            assert(rs.drop_last() == ps);
            assert(rs.last() == r);
            let before = apply_all(w, dir, ps);
            let after = apply_all(w, dir, rs);
            assert forall|i: int| 0 <= i < ps.len() implies n != (#[trigger] ps[i]).0 && n
                != ps[i].1 by {
                assert(prefix.contains(ps[i].0));
                lemma_entry_for(ps[i].0);
            }
            lemma_sweep_leaves_other_files(w, dir, prefix, listing, n);
            let f = Files { entry: file_of(before, e), backup: file_of(before, n), staged: None };
            lemma_recovery_moves_backup(w, r.2, f);
            assert forall|i: int| 0 <= i < rs.len() implies {
                let q = #[trigger] rs[i];
                &&& file_of(after, q.1) == Some(dir[q.0])
                &&& !after.contains_key(q.0)
            } by {
                if i < ps.len() {
                    let q = ps[i];
                    assert(rs[i] == q);
                    assert(prefix.contains(q.0));
                    lemma_entry_for(q.0);
                    lemma_entry_for_injective(q.0, n);
                }
            }
        } else {
            assert(rs == ps);
        }
    }
}

/// With reliable file operations, a sweep over a listing of the directory
/// puts each backup's content in its own entry and removes the backup.
pub proof fn lemma_sweep_restores_each(
    w: World,
    dir: Map<Seq<char>, Seq<u8>>,
    files: Seq<Seq<char>>,
)
    requires
        w.reliable(),
        files.no_duplicates(),
        forall|x: Seq<char>| files.contains(x) <==> dir.contains_key(x),
    ensures
        forall|i: int|
            0 <= i < sweep_plan(files).len() ==> {
                let r = #[trigger] sweep_plan(files)[i];
                let after = apply_all(w, dir, sweep_plan(files));
                &&& r.1 == entry_for(r.0)
                &&& file_of(after, r.1) == Some(dir[r.0])
                &&& !after.contains_key(r.0)
            },
{
    lemma_sweep_restores_prefix(w, dir, files, files);
    lemma_repairs_shape(files, files);
}

/// A listing in which no name is a backup calls for no repair.
proof fn lemma_no_backups_no_repairs(names: Seq<Seq<char>>, listing: Seq<Seq<char>>)
    requires
        forall|i: int| 0 <= i < names.len() ==> extension_of(#[trigger] names[i]) != Some(
            BACKUP_EXTENSION@,
        ),
    ensures
        repairs_of(names, listing).len() == 0,
    decreases names.len(),
{
    if names.len() > 0 {
        let prefix = names.drop_last();
        assert forall|i: int| 0 <= i < prefix.len() implies extension_of(#[trigger] prefix[i])
            != Some(BACKUP_EXTENSION@) by {
            assert(prefix[i] == names[i]);
        }
        lemma_no_backups_no_repairs(prefix, listing);
    }
}

/// A second sweep right after a first one, with no interruption between
/// them, finds no backup and so changes nothing.
pub proof fn lemma_sweep_idempotent(
    w: World,
    dir: Map<Seq<char>, Seq<u8>>,
    files: Seq<Seq<char>>,
    again: Seq<Seq<char>>,
)
    requires
        w.reliable(),
        forall|x: Seq<char>| files.contains(x) <==> dir.contains_key(x),
        forall|x: Seq<char>|
            again.contains(x) <==> apply_all(w, dir, sweep_plan(files)).contains_key(x),
    ensures
        sweep_plan(again).len() == 0,
        apply_all(w, apply_all(w, dir, sweep_plan(files)), sweep_plan(again)) == apply_all(
            w,
            dir,
            sweep_plan(files),
        ),
{
    reveal_strlit("txt");
    reveal_strlit("backup");
    lemma_sweep_dom(w, dir, files, files);
    assert forall|i: int| 0 <= i < again.len() implies extension_of(#[trigger] again[i]) != Some(
        BACKUP_EXTENSION@,
    ) by {
        assert(again.contains(again[i]));
    }
    lemma_no_backups_no_repairs(again, again);
}

/// Whether `name` is among `names`.
fn listed(names: &Vec<String>, name: &String) -> (r: bool)
    ensures
        r == views(names@).contains(name@),
{
    let mut i: usize = 0;
    while i < names.len()
        invariant
            i <= names.len(),
            forall|j: int| 0 <= j < i ==> names@[j]@ != name@,
        decreases names.len() - i,
    {
        if names[i] == *name {
            assert(views(names@)[i as int] == name@);
            return true;
        }
        i = i + 1;
    }
    assert forall|j: int| 0 <= j < views(names@).len() implies views(names@)[j] != name@ by {
        assert(views(names@)[j] == names@[j]@);
    }
    false
}

/// The repairs that the startup sweep makes, from the names of the regular
/// files of the data directory: one for each backup, in the listing's
/// order, with the name of its entry and whether that entry exists.
pub fn backup_check(files: &Vec<String>) -> (r: Vec<Repair>)
    ensures
        r@.map_values(|x: Repair| x@) == sweep_plan(views(files@)),
{
    let wanted = String::from_str(BACKUP_EXTENSION);
    let mut r: Vec<Repair> = Vec::new();
    let mut i: usize = 0;
    while i < files.len()
        invariant
            i <= files.len(),
            wanted@ == BACKUP_EXTENSION@,
            r@.map_values(|x: Repair| x@) == repairs_of(
                views(files@).subrange(0, i as int),
                views(files@),
            ),
        decreases files.len() - i,
    {
        let ghost done = views(files@).subrange(0, i as int);
        let ghost prev = r@.map_values(|x: Repair| x@);
        assert(views(files@).subrange(0, i + 1).drop_last() =~= done);
        assert(views(files@).subrange(0, i + 1).last() == files@[i as int]@);
        match extension(files[i].as_str()) {
            Some(e) => {
                if e == wanted {
                    let s = stem(files[i].as_str());
                    let entry = with_extension(s.as_str(), ENTRY_EXTENSION);
                    let entry_exists = listed(files, &entry);
                    let repair = Repair { backup: files[i].clone(), entry, entry_exists };
                    r.push(repair);
                    assert(r@.map_values(|x: Repair| x@) =~= prev.push(repair@));
                }
            },
            None => {},
        }
        i = i + 1;
    }
    assert(views(files@).subrange(0, files.len() as int) =~= views(files@));
    r
}

} // verus!
