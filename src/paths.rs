//! Paths and file names of the data directory.
//!
//! The data directory is flat: every entry and every backup is a file
//! directly inside it, named after the entry's date with the extension
//! `txt` (content) or `backup` (snapshot taken before an edit).
use crate::error::Error;
use vstd::prelude::*;

verus! {

/// The extension of an entry's content file.
pub const ENTRY_EXTENSION: &'static str = "txt";

/// The extension of an entry's backup file.
pub const BACKUP_EXTENSION: &'static str = "backup";

/// The extension of the file that a snapshot is written to before it is
/// renamed to the backup.
pub const STAGING_EXTENSION: &'static str = "partial";

/// The name of the program's own directory under the data root.
pub const PROGRAM_DIR_NAME: &'static str = "diary-cli";

/// The data root under `$HOME` when `$XDG_DATA_HOME` is unset.
pub const DEFAULT_DATA_HOME: &'static str = ".local/share";

/// The name of the variable that gives the home directory.
pub const HOME_VAR: &'static str = "HOME";

/// The name of the variable that gives the editor command.
pub const EDITOR_VAR: &'static str = "EDITOR";

/// The views of a sequence of strings.
pub open spec fn views(v: Seq<String>) -> Seq<Seq<char>> {
    v.map_values(|s: String| s@)
}

/// `name` appended to `base` as one more path component: nothing is added
/// to an empty base, and no second separator after one that ends in `/`.
pub open spec fn joined(base: Seq<char>, name: Seq<char>) -> Seq<char> {
    if base.len() == 0 {
        name
    } else if base.last() == '/' {
        base + name
    } else {
        base + seq!['/'] + name
    }
}

/// The position of the last `.` in `s`, or -1 where there is none.
pub open spec fn last_dot(s: Seq<char>) -> int
    decreases s.len(),
{
    if s.len() == 0 {
        -1
    } else if s.last() == '.' {
        s.len() - 1
    } else {
        last_dot(s.drop_last())
    }
}

/// A file name has an extension when its last `.` is not its first
/// character, and it is not `..`.
pub open spec fn has_extension(name: Seq<char>) -> bool {
    &&& last_dot(name) > 0
    &&& !(name.len() == 2 && name[0] == '.' && name[1] == '.')
}

/// What follows the last `.` of a file name that has an extension.
pub open spec fn extension_of(name: Seq<char>) -> Option<Seq<char>> {
    if has_extension(name) {
        Some(name.subrange(last_dot(name) + 1, name.len() as int))
    } else {
        None
    }
}

/// A file name without its extension and the `.` before it.
pub open spec fn stem_of(name: Seq<char>) -> Seq<char> {
    if has_extension(name) {
        name.subrange(0, last_dot(name))
    } else {
        name
    }
}

/// The file name that has `stem` and the extension `ext`.
pub open spec fn named(stem: Seq<char>, ext: Seq<char>) -> Seq<char> {
    stem + seq!['.'] + ext
}

/// The data directory: `$XDG_DATA_HOME/diary-cli` where that variable is
/// set, else `$HOME/.local/share/diary-cli`; with neither, no directory.
pub open spec fn data_path_of(xdg: Option<String>, home: Option<String>) -> Option<Seq<char>> {
    match xdg {
        Some(x) => Some(joined(x@, PROGRAM_DIR_NAME@)),
        None => match home {
            Some(h) => Some(joined(joined(h@, DEFAULT_DATA_HOME@), PROGRAM_DIR_NAME@)),
            None => None,
        },
    }
}

/// `last_dot` read off a position before which a `.` stands (or the start)
/// and after which none does.
pub proof fn lemma_last_dot(s: Seq<char>, k: int)
    requires
        0 <= k <= s.len(),
        forall|j: int| k <= j < s.len() ==> s[j] != '.',
        k == 0 || s[k - 1] == '.',
    ensures
        last_dot(s) == k - 1,
    decreases s.len(),
{
    if s.len() > k {
        assert(s.drop_last().len() == s.len() - 1);
        assert forall|j: int| k <= j < s.drop_last().len() implies s.drop_last()[j] != '.' by {
            assert(s.drop_last()[j] == s[j]);
        }
        if k > 0 {
            assert(s.drop_last()[k - 1] == s[k - 1]);
        }
        lemma_last_dot(s.drop_last(), k);
    }
}

/// `last_dot` is a position of `s`, or -1.
pub proof fn lemma_last_dot_bound(s: Seq<char>)
    ensures
        -1 <= last_dot(s) < s.len(),
    decreases s.len(),
{
    if s.len() > 0 {
        lemma_last_dot_bound(s.drop_last());
    }
}

/// Where `s` has a `.`, `last_dot` is the position of one.
pub proof fn lemma_last_dot_is_dot(s: Seq<char>)
    requires
        last_dot(s) >= 0,
    ensures
        s[last_dot(s)] == '.',
    decreases s.len(),
{
    if s.len() > 0 && s.last() != '.' {
        lemma_last_dot_is_dot(s.drop_last());
        lemma_last_dot_bound(s.drop_last());
        assert(s.drop_last()[last_dot(s.drop_last())] == s[last_dot(s)]);
    }
}

/// A name with an extension is its stem, a `.` and its extension.
pub proof fn lemma_split_name(n: Seq<char>, ext: Seq<char>)
    requires
        extension_of(n) == Some(ext),
    ensures
        n == named(stem_of(n), ext),
{
    lemma_last_dot_bound(n);
    lemma_last_dot_is_dot(n);
    assert(n =~= named(stem_of(n), ext));
}

/// A name made of a non-empty stem and a non-empty extension without `.`
/// has that extension and that stem.
pub proof fn lemma_named(stem: Seq<char>, ext: Seq<char>)
    requires
        stem.len() > 0,
        ext.len() > 0,
        forall|j: int| 0 <= j < ext.len() ==> ext[j] != '.',
    ensures
        extension_of(named(stem, ext)) == Some(ext),
        stem_of(named(stem, ext)) == stem,
{
    let n = named(stem, ext);
    let k: int = stem.len() as int + 1;
    assert(n[k - 1] == '.');
    assert forall|j: int| k <= j < n.len() implies n[j] != '.' by {
        assert(n[j] == ext[j - k]);
    }
    lemma_last_dot(n, k);
    assert(n.len() > 2);
    assert(n.subrange(k, n.len() as int) =~= ext);
    assert(n.subrange(0, k - 1) =~= stem);
}

/// The position just after the last `.` of `s`, or 0 where there is none.
fn after_last_dot(s: &str) -> (r: usize)
    ensures
        r as int == last_dot(s@) + 1,
        r <= s@.len(),
{
    let n = s.unicode_len();
    let mut i: usize = n;
    while i > 0
        invariant
            i <= n,
            n == s@.len(),
            forall|j: int| i <= j < n ==> s@[j] != '.',
        ensures
            i <= n,
            forall|j: int| i <= j < n ==> s@[j] != '.',
            i == 0 || s@[i - 1] == '.',
        decreases i,
    {
        if s.get_char(i - 1) == '.' {
            break;
        }
        i = i - 1;
    }
    proof {
        lemma_last_dot(s@, i as int);
    }
    i
}

/// Whether `name` has an extension.
fn name_has_extension(name: &str) -> (r: bool)
    ensures
        r == has_extension(name@),
{
    let k = after_last_dot(name);
    if k <= 1 {
        return false;
    }
    let n = name.unicode_len();
    if n == 2 && name.get_char(0) == '.' && name.get_char(1) == '.' {
        return false;
    }
    true
}

/// The extension of a file name, if it has one.
pub fn extension(name: &str) -> (r: Option<String>)
    ensures
        match r {
            Some(e) => extension_of(name@) == Some(e@),
            None => extension_of(name@) is None,
        },
{
    if name_has_extension(name) {
        let k = after_last_dot(name);
        let n = name.unicode_len();
        Some(String::from_str(name.substring_char(k, n)))
    } else {
        None
    }
}

/// A file name without its extension.
pub fn stem(name: &str) -> (r: String)
    ensures
        r@ == stem_of(name@),
{
    if name_has_extension(name) {
        let k = after_last_dot(name);
        String::from_str(name.substring_char(0, k - 1))
    } else {
        String::from_str(name)
    }
}

/// The file name with stem `stem` and extension `ext`.
pub fn with_extension(stem: &str, ext: &str) -> (r: String)
    ensures
        r@ == named(stem@, ext@),
{
    let mut r = String::from_str(stem);
    r.append(".");
    r.append(ext);
    proof {
        reveal_strlit(".");
    }
    assert(r@ =~= named(stem@, ext@));
    r
}

/// `name` appended to `base` as one more path component.
pub fn join(base: &str, name: &str) -> (r: String)
    ensures
        r@ == joined(base@, name@),
{
    let n = base.unicode_len();
    if n == 0 {
        return String::from_str(name);
    }
    let mut r = String::from_str(base);
    if base.get_char(n - 1) != '/' {
        r.append("/");
        proof {
            reveal_strlit("/");
        }
    }
    r.append(name);
    assert(r@ =~= joined(base@, name@));
    r
}

/// The data directory, from the values of `$XDG_DATA_HOME` and `$HOME`
/// (`None` for a variable that is unset). Without either the home
/// directory is unknown, which is an error.
pub fn get_data_path(xdg: Option<String>, home: Option<String>) -> (r: Result<String, Error>)
    ensures
        match r {
            Ok(p) => data_path_of(xdg, home) == Some(p@),
            Err(e) => {
                &&& data_path_of(xdg, home) is None
                &&& e matches Error::RequiredEnvVarNotFound(v) && v@ == HOME_VAR@
            },
        },
{
    match xdg {
        Some(x) => Ok(join(x.as_str(), PROGRAM_DIR_NAME)),
        None => match home {
            Some(h) => {
                let root = join(h.as_str(), DEFAULT_DATA_HOME);
                Ok(join(root.as_str(), PROGRAM_DIR_NAME))
            },
            None => Err(Error::RequiredEnvVarNotFound(String::from_str(HOME_VAR))),
        },
    }
}

} // verus!
