//! The files of the data directory, and the entries that they hold.
//!
//! Entries are listed in the order of their file names, which is the order
//! of their dates: dates are written year first, with fixed widths.
use crate::paths::{extension, extension_of, stem, stem_of, views, ENTRY_EXTENSION};
use vstd::prelude::*;
use vstd::relations::{sorted_by, total_ordering};
use vstd::seq_lib::lemma_sorted_unique;

verus! {

/// One item of a directory listing.
pub struct DirItem {
    /// The file name.
    pub name: String,
    /// Whether the item is a regular file (and not a directory or another
    /// kind of item).
    pub is_file: bool,
}

/// The names of the regular files among the listed items; an item that
/// could not be read (`None`) is passed over.
pub open spec fn files_in(items: Seq<Option<DirItem>>) -> Seq<Seq<char>>
    decreases items.len(),
{
    if items.len() == 0 {
        Seq::empty()
    } else {
        let rest = files_in(items.drop_last());
        match items.last() {
            Some(it) => if it.is_file {
                rest.push(it.name@)
            } else {
                rest
            },
            None => rest,
        }
    }
}

/// The names that have the extension `ext`, in their order.
pub open spec fn with_ext(names: Seq<Seq<char>>, ext: Seq<char>) -> Seq<Seq<char>>
    decreases names.len(),
{
    if names.len() == 0 {
        Seq::empty()
    } else {
        let rest = with_ext(names.drop_last(), ext);
        if extension_of(names.last()) == Some(ext) {
            rest.push(names.last())
        } else {
            rest
        }
    }
}

/// Lexicographic order of strings by their characters' code points.
pub open spec fn chars_le(a: Seq<char>, b: Seq<char>) -> bool
    decreases a.len(),
{
    if a.len() == 0 {
        true
    } else if b.len() == 0 {
        false
    } else if a[0] != b[0] {
        (a[0] as int) < (b[0] as int)
    } else {
        chars_le(a.drop_first(), b.drop_first())
    }
}

/// The entries named in a listing of the data directory, as their dates,
/// in the order of their file names.
pub open spec fn entries_of(names: Seq<Seq<char>>) -> Seq<Seq<char>> {
    with_ext(names, ENTRY_EXTENSION@).sort_by(|a: Seq<char>, b: Seq<char>| chars_le(a, b)).map_values(
        |n: Seq<char>| stem_of(n),
    )
}

proof fn lemma_chars_le_reflexive(a: Seq<char>)
    ensures
        chars_le(a, a),
    decreases a.len(),
{
    if a.len() > 0 {
        lemma_chars_le_reflexive(a.drop_first());
    }
}

proof fn lemma_chars_le_antisymmetric(a: Seq<char>, b: Seq<char>)
    requires
        chars_le(a, b),
        chars_le(b, a),
    ensures
        a == b,
    decreases a.len(),
{
    if a.len() > 0 && b.len() > 0 {
        lemma_chars_le_antisymmetric(a.drop_first(), b.drop_first());
        assert(a =~= seq![a[0]] + a.drop_first());
        assert(b =~= seq![b[0]] + b.drop_first());
    }
}

proof fn lemma_chars_le_transitive(a: Seq<char>, b: Seq<char>, c: Seq<char>)
    requires
        chars_le(a, b),
        chars_le(b, c),
    ensures
        chars_le(a, c),
    decreases a.len(),
{
    if a.len() > 0 && b.len() > 0 && c.len() > 0 {
        if a[0] == b[0] && b[0] == c[0] {
            lemma_chars_le_transitive(a.drop_first(), b.drop_first(), c.drop_first());
        }
    }
}

proof fn lemma_chars_le_total(a: Seq<char>, b: Seq<char>)
    ensures
        chars_le(a, b) || chars_le(b, a),
    decreases a.len(),
{
    if a.len() > 0 && b.len() > 0 {
        if a[0] == b[0] {
            lemma_chars_le_total(a.drop_first(), b.drop_first());
        } else {
            assert((a[0] as int) != (b[0] as int));
        }
    }
}

/// The order of file names is a total order.
pub proof fn lemma_chars_le_total_ordering()
    ensures
        total_ordering(|a: Seq<char>, b: Seq<char>| chars_le(a, b)),
{
    let leq = |a: Seq<char>, b: Seq<char>| chars_le(a, b);
    assert forall|a: Seq<char>| #[trigger] leq(a, a) by {
        lemma_chars_le_reflexive(a);
    }
    assert forall|a: Seq<char>, b: Seq<char>| #[trigger] leq(a, b) && #[trigger] leq(b, a) implies a
        == b by {
        lemma_chars_le_antisymmetric(a, b);
    }
    assert forall|a: Seq<char>, b: Seq<char>, c: Seq<char>|
        #[trigger] leq(a, b) && #[trigger] leq(b, c) implies leq(a, c) by {
        lemma_chars_le_transitive(a, b, c);
    }
    assert forall|a: Seq<char>, b: Seq<char>| #[trigger] leq(a, b) || #[trigger] leq(b, a) by {
        lemma_chars_le_total(a, b);
    }
}

/// Relies on `slice::sort` for `String`, reached through `Vec`: it orders
/// the strings by `Ord for String`, which compares their UTF-8 bytes
/// lexicographically. UTF-8 orders byte strings as it orders the code
/// points that they encode, so that is `chars_le`.
#[verifier::external_body]
fn sort_names(v: &mut Vec<String>)
    ensures
        views(final(v)@).to_multiset() == views(old(v)@).to_multiset(),
        sorted_by(views(final(v)@), |a: Seq<char>, b: Seq<char>| chars_le(a, b)),
{
    v.sort();
}

/// Sorts names by `chars_le`.
fn sort_by_name(v: &mut Vec<String>)
    ensures
        views(final(v)@) == views(old(v)@).sort_by(|a: Seq<char>, b: Seq<char>| chars_le(a, b)),
{
    let ghost before = views(v@);
    sort_names(v);
    proof {
        let leq = |a: Seq<char>, b: Seq<char>| chars_le(a, b);
        lemma_chars_le_total_ordering();
        before.lemma_sort_by_ensures(leq);
        lemma_sorted_unique(views(v@), before.sort_by(leq), leq);
    }
}

/// The names of the regular files in a listing of a directory.
pub fn get_files_in_directory(items: &Vec<Option<DirItem>>) -> (r: Vec<String>)
    ensures
        views(r@) == files_in(items@),
{
    let mut r: Vec<String> = Vec::new();
    let mut i: usize = 0;
    while i < items.len()
        invariant
            i <= items.len(),
            views(r@) == files_in(items@.subrange(0, i as int)),
        decreases items.len() - i,
    {
        assert(items@.subrange(0, i + 1).drop_last() =~= items@.subrange(0, i as int));
        match &items[i] {
            Some(it) => {
                if it.is_file {
                    r.push(it.name.clone());
                    assert(views(r@) =~= files_in(items@.subrange(0, i as int)).push(it.name@));
                }
            },
            None => {},
        }
        i = i + 1;
    }
    assert(items@.subrange(0, items.len() as int) =~= items@);
    r
}

/// The names among `names` that have the extension `ext`, in their order.
pub fn get_files_with_extension(names: &Vec<String>, ext: &str) -> (r: Vec<String>)
    ensures
        views(r@) == with_ext(views(names@), ext@),
{
    let wanted = String::from_str(ext);
    let mut r: Vec<String> = Vec::new();
    let mut i: usize = 0;
    while i < names.len()
        invariant
            i <= names.len(),
            wanted@ == ext@,
            views(r@) == with_ext(views(names@).subrange(0, i as int), ext@),
        decreases names.len() - i,
    {
        let ghost done = views(names@).subrange(0, i as int);
        assert(views(names@).subrange(0, i + 1).drop_last() =~= done);
        assert(views(names@).subrange(0, i + 1).last() == names@[i as int]@);
        match extension(names[i].as_str()) {
            Some(e) => {
                if e == wanted {
                    r.push(names[i].clone());
                    assert(views(r@) =~= with_ext(done, ext@).push(names@[i as int]@));
                }
            },
            None => {},
        }
        i = i + 1;
    }
    assert(views(names@).subrange(0, names.len() as int) =~= views(names@));
    r
}

/// The entries named in a listing of the data directory, as their dates,
/// in the order of their file names.
pub fn list_data_files(names: &Vec<String>) -> (r: Vec<String>)
    ensures
        views(r@) == entries_of(views(names@)),
{
    let mut files = get_files_with_extension(names, ENTRY_EXTENSION);
    sort_by_name(&mut files);
    let ghost sorted = views(files@);
    let mut r: Vec<String> = Vec::new();
    let mut i: usize = 0;
    while i < files.len()
        invariant
            i <= files.len(),
            sorted == views(files@),
            views(r@) == sorted.subrange(0, i as int).map_values(|n: Seq<char>| stem_of(n)),
        decreases files.len() - i,
    {
        assert(sorted[i as int] == files@[i as int]@);
        let ghost prev = views(r@);
        let s = stem(files[i].as_str());
        r.push(s);
        assert(views(r@) =~= prev.push(s@));
        assert(sorted.subrange(0, i + 1).map_values(|n: Seq<char>| stem_of(n)) =~= sorted.subrange(
            0,
            i as int,
        ).map_values(|n: Seq<char>| stem_of(n)).push(stem_of(sorted[i as int])));
        i = i + 1;
    }
    assert(sorted.subrange(0, files.len() as int) =~= sorted);
    r
}

/// The date of the entry at `index` in the order of `list_data_files`, or
/// `None` where there are not that many entries.
pub fn get_date_from_index(names: &Vec<String>, index: usize) -> (r: Option<String>)
    ensures
        match r {
            Some(d) => index < entries_of(views(names@)).len() && d@ == entries_of(
                views(names@),
            )[index as int],
            None => index >= entries_of(views(names@)).len(),
        },
{
    let entries = list_data_files(names);
    if index < entries.len() {
        assert(views(entries@)[index as int] == entries@[index as int]@);
        Some(entries[index].clone())
    } else {
        None
    }
}

} // verus!
