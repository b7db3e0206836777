//! Taking a Set in from outside the store: which file a row of the preset
//! or folder scope names, which files a folder lists, and what a folder let
//! go on the window comes to.
use vstd::prelude::*;

use crate::library::FileRow;
use crate::order::{comes_before, lemma_before_irreflexive, lemma_before_total, lemma_before_transitive, text_before};
use crate::text::{chars_of, decimal, numeral, same_text};

verus! {

/// The final component of a path, in the target platform's path syntax,
/// where the path has one. The platform is left open on purpose: Unix
/// separates components with `/` alone and Windows with `\` as well, and
/// has drive and verbatim prefixes besides, so no one spelling holds of
/// both.
pub uninterp spec fn file_name_of(path: Seq<char>) -> Option<Seq<char>>;

/// `name` joined onto the directory `dir`, in the target platform's path
/// syntax, as it is displayed. Left open on purpose, as [`file_name_of`] is:
/// on Unix it is `name` where `name` starts with `/`, and otherwise `dir`, a
/// `/` unless `dir` is empty or already ends in one, then `name`; Windows
/// joins with `\` and lets a drive or root in `name` replace `dir`, so
/// the library states neither.
pub uninterp spec fn joined_path(dir: Seq<char>, name: Seq<char>) -> Seq<char>;

/// `std::path::Path::file_name`: the final component of `path`, which the
/// contract names and does not spell — it is the platform's path syntax.
#[verifier::external_body]
fn file_name(path: &str) -> (r: Option<String>)
    ensures
        match r {
            Some(s) => file_name_of(path@) == Some(s@),
            None => file_name_of(path@) is None,
        },
{
    match std::path::Path::new(path).file_name() {
        Some(name) => match name.to_str() {
            Some(s) => Some(s.to_string()),
            None => None,
        },
        None => None,
    }
}

/// `std::path::Path::join`: `name` joined onto `dir`, as displayed — named
/// by the contract rather than spelled, since the separator is the
/// platform's.
#[verifier::external_body]
pub(crate) fn joined(dir: &str, name: &str) -> (r: String)
    ensures
        r@ == joined_path(dir@, name@),
{
    std::path::Path::new(dir).join(name).display().to_string()
}

/// Whether `text` ends with `suffix`.
pub open spec fn ends_in(text: Seq<char>, suffix: Seq<char>) -> bool {
    suffix.len() <= text.len() && text.subrange(text.len() - suffix.len(), text.len() as int)
        == suffix
}

/// [`ends_in`].
fn ends_with(text: &str, suffix: &str) -> (r: bool)
    ensures
        r == ends_in(text@, suffix@),
{
    let t = chars_of(text);
    let s = chars_of(suffix);
    if s.len() > t.len() {
        return false;
    }
    let at = t.len() - s.len();
    let mut i: usize = 0;
    while i < s.len()
        invariant
            t@ == text@,
            s@ == suffix@,
            s.len() <= t.len(),
            at == t.len() - s.len(),
            i <= s@.len(),
            forall|j: int| 0 <= j < i ==> t@[at + j] == s@[j],
        decreases s.len() - i,
    {
        if t[at + i] != s[i] {
            assert(text@.subrange(at as int, text@.len() as int)[i as int] != suffix@[i as int]);
            return false;
        }
        i += 1;
    }
    assert(text@.subrange(at as int, text@.len() as int) =~= suffix@);
    true
}

/// Whether a file name is a Set file's: it ends in `.kbset`, a bundle —
/// one file holding a Set and every source it names — or in `.kset`, a Set
/// as an author writes it beside its parts.
pub open spec fn is_set_name(name: Seq<char>) -> bool {
    ends_in(name, ".kbset"@) || ends_in(name, ".kset"@)
}

/// Whether `path` names a Set file: its final component ends in a Set
/// file's suffix.
pub fn set_file(path: &str) -> (r: bool)
    ensures
        r == (file_name_of(path@) matches Some(name) && is_set_name(name)),
{
    proof {
        reveal_strlit(".kbset");
        reveal_strlit(".kset");
    }
    match file_name(path) {
        Some(name) => ends_with(name.as_str(), ".kbset") || ends_with(name.as_str(), ".kset"),
        None => false,
    }
}

/// Which library a Set is taken in from: the preset library, or the folder
/// the bay is pointed at.
#[derive(Clone, Copy, Debug, PartialEq, Eq, Structural)]
pub enum Taking {
    Presets,
    Folder,
}

/// How a refusal names the library a taking reads.
pub open spec fn taking_scope_text(from: Taking) -> Seq<char> {
    match from {
        Taking::Presets => "the preset library"@,
        Taking::Folder => "the folder this bay is pointed at"@,
    }
}

/// The paths of the rows listed under `row`, in listing order.
pub open spec fn found_paths(rows: Seq<FileRow>, row: Seq<char>) -> Seq<Seq<char>>
    decreases rows.len(),
{
    if rows.len() == 0 {
        Seq::empty()
    } else {
        found_paths(rows.drop_last(), row) + if rows.last().id@ == row {
            seq![rows.last().path@]
        } else {
            Seq::empty()
        }
    }
}

/// The file names of `paths`, leaving out any path that has none.
pub open spec fn names_of(paths: Seq<Seq<char>>) -> Seq<Seq<char>>
    decreases paths.len(),
{
    if paths.len() == 0 {
        Seq::empty()
    } else {
        names_of(paths.drop_last()) + match file_name_of(paths.last()) {
            Some(name) => seq![name],
            None => Seq::empty(),
        }
    }
}

/// `parts` with `sep` between each two.
pub open spec fn joined_text(parts: Seq<Seq<char>>, sep: Seq<char>) -> Seq<char>
    decreases parts.len(),
{
    if parts.len() == 0 {
        Seq::empty()
    } else if parts.len() == 1 {
        parts[0]
    } else {
        joined_text(parts.drop_last(), sep) + sep + parts.last()
    }
}

/// The file a row of a taking names: the one path listed under it; refused
/// where none is any more, and where more than one is — the row is a word
/// and not a file, so it cannot say which.
pub open spec fn file_named_spec(rows: Seq<FileRow>, row: Seq<char>, scope: Seq<char>) -> Result<
    Seq<char>,
    Seq<char>,
> {
    let found = found_paths(rows, row);
    if found.len() == 0 {
        Err(scope + " has no `"@ + row + "` in it any more"@)
    } else if found.len() == 1 {
        Ok(found[0])
    } else {
        Err(
            scope + " holds "@ + decimal(found.len()) + " files called `"@ + row + "` — "@
                + joined_text(names_of(found), " and "@)
                + " — and this row names a word rather than a file, so which of them you meant is not something the listing can say. Rename or move one of them and press again"@,
        )
    }
}

impl Taking {
    /// [`taking_scope_text`].
    pub fn scope(&self) -> (r: &'static str)
        ensures
            r@ == taking_scope_text(*self),
    {
        proof {
            reveal_strlit("the preset library");
            reveal_strlit("the folder this bay is pointed at");
        }
        match self {
            Taking::Presets => "the preset library",
            Taking::Folder => "the folder this bay is pointed at",
        }
    }

    /// The file the row `row` names among `rows`, the rows this library
    /// lists now — asked again on the press rather than kept, so a row names
    /// the file that is there and not one that has moved.
    pub fn file(&self, rows: &[FileRow], row: &str) -> (r: Result<String, String>)
        ensures
            match (r, file_named_spec(rows@, row@, taking_scope_text(*self))) {
                (Ok(p), Ok(q)) => p@ == q,
                (Err(e), Err(f)) => e@ == f,
                _ => false,
            },
    {
        let scope = self.scope();
        file_named(rows, row, scope)
    }
}

/// [`file_named_spec`], with `scope` the library's name in a refusal.
fn file_named(rows: &[FileRow], row: &str, scope: &str) -> (r: Result<String, String>)
    ensures
        match (r, file_named_spec(rows@, row@, scope@)) {
            (Ok(p), Ok(q)) => p@ == q,
            (Err(e), Err(f)) => e@ == f,
            _ => false,
        },
{
    proof {
        reveal_strlit(" and ");
    }
    let mut found: Vec<String> = Vec::new();
    let mut i: usize = 0;
    while i < rows.len()
        invariant
            i <= rows@.len(),
            found@.map_values(|p: String| p@) == found_paths(rows@.take(i as int), row@),
        decreases rows.len() - i,
    {
        assert(rows@.take(i + 1).drop_last() =~= rows@.take(i as int));
        assert(rows@.take(i + 1).last() == rows@[i as int]);
        if same_text(rows[i].id.as_str(), row) {
            let ghost was = found@.map_values(|p: String| p@);
            found.push(rows[i].path.clone());
            assert(found@.map_values(|p: String| p@) =~= was.push(rows@[i as int].path@));
        }
        i += 1;
    }
    assert(rows@.take(i as int) =~= rows@);
    let ghost paths = found@.map_values(|p: String| p@);
    if found.len() == 0 {
        let mut e = String::from_str(scope);
        e.append(" has no `");
        e.append(row);
        e.append("` in it any more");
        return Err(e);
    }
    if found.len() == 1 {
        let p = found[0].clone();
        assert(p@ == paths[0]);
        return Ok(p);
    }
    let mut names = String::new();
    let mut count: usize = 0;
    let mut k: usize = 0;
    while k < found.len()
        invariant
            k <= found@.len(),
            paths == found@.map_values(|p: String| p@),
            count == names_of(paths.take(k as int)).len(),
            count <= k,
            names@ == joined_text(names_of(paths.take(k as int)), " and "@),
        decreases found.len() - k,
    {
        assert(paths.take(k + 1).drop_last() =~= paths.take(k as int));
        assert(paths.take(k + 1).last() == paths[k as int]);
        match file_name(found[k].as_str()) {
            Some(name) => {
                let ghost before = names_of(paths.take(k as int));
                if count > 0 {
                    names.append(" and ");
                }
                names.append(name.as_str());
                assert(names_of(paths.take(k + 1)) =~= before.push(name@));
                assert(before.push(name@).drop_last() =~= before);
                count += 1;
            },
            None => {
                assert(names_of(paths.take(k + 1)) =~= names_of(paths.take(k as int)));
            },
        }
        k += 1;
    }
    assert(paths.take(k as int) =~= paths);
    let mut e = String::from_str(scope);
    e.append(" holds ");
    let n = numeral(found.len() as u64);
    e.append(n.as_str());
    e.append(" files called `");
    e.append(row);
    e.append("` — ");
    e.append(names.as_str());
    e.append(
        " — and this row names a word rather than a file, so which of them you meant is not something the listing can say. Rename or move one of them and press again",
    );
    Err(e)
}

/// An entry of a directory as a folder scope reads it: its name, where the
/// name is UTF-8, and whether it is itself a directory.
#[derive(Clone, Debug)]
pub struct DirEntry {
    pub name: Option<String>,
    pub is_dir: bool,
}

/// The id a Set file files itself under: its name without the suffix, and
/// none for a name that is not a Set file's.
pub open spec fn id_of(name: Seq<char>) -> Option<Seq<char>> {
    if ends_in(name, ".kbset"@) {
        Some(name.subrange(0, name.len() - 6))
    } else if ends_in(name, ".kset"@) {
        Some(name.subrange(0, name.len() - 5))
    } else {
        None
    }
}

/// The Set files among a directory's entries, as (id, file name), in the
/// order they were read: a name that is not UTF-8 or not a Set file's falls
/// out, and so does a directory named like one.
pub open spec fn set_files(entries: Seq<DirEntry>) -> Seq<(Seq<char>, Seq<char>)>
    decreases entries.len(),
{
    if entries.len() == 0 {
        Seq::empty()
    } else {
        let e = entries.last();
        set_files(entries.drop_last()) + match e.name {
            Some(n) => match id_of(n@) {
                Some(id) => if e.is_dir {
                    Seq::empty()
                } else {
                    seq![(id, n@)]
                },
                None => Seq::empty(),
            },
            None => Seq::empty(),
        }
    }
}

/// Whether a Set file lists before another: by id, and by file name between
/// two with one id.
pub open spec fn file_before(a: (Seq<char>, Seq<char>), b: (Seq<char>, Seq<char>)) -> bool {
    text_before(a.0, b.0) || (a.0 == b.0 && text_before(a.1, b.1))
}

/// `x` put into the listing `s` after everything that does not list after
/// it.
pub open spec fn insert_file(s: Seq<(Seq<char>, Seq<char>)>, x: (Seq<char>, Seq<char>)) -> Seq<
    (Seq<char>, Seq<char>),
>
    decreases s.len(),
{
    if s.len() == 0 {
        seq![x]
    } else if file_before(x, s.last()) {
        insert_file(s.drop_last(), x).push(s.last())
    } else {
        s.push(x)
    }
}

/// The Set files `s` put in listing order, each inserted in the order read.
pub open spec fn sorted_files(s: Seq<(Seq<char>, Seq<char>)>) -> Seq<(Seq<char>, Seq<char>)>
    decreases s.len(),
{
    if s.len() == 0 {
        Seq::empty()
    } else {
        insert_file(sorted_files(s.drop_last()), s.last())
    }
}

/// [`file_before`].
fn lists_before(a: &(String, String), b: &(String, String)) -> (r: bool)
    ensures
        r == file_before((a.0@, a.1@), (b.0@, b.1@)),
{
    comes_before(a.0.as_str(), b.0.as_str()) || (same_text(a.0.as_str(), b.0.as_str())
        && comes_before(a.1.as_str(), b.1.as_str()))
}

/// The view of a listing of (id, file name) pairs.
pub open spec fn pair_texts(s: Seq<(String, String)>) -> Seq<(Seq<char>, Seq<char>)> {
    s.map_values(|p: (String, String)| (p.0@, p.1@))
}

/// `x` inserted into `out` where [`insert_file`] puts it.
fn insert_pair(out: &mut Vec<(String, String)>, x: (String, String))
    ensures
        pair_texts(final(out)@) == insert_file(pair_texts(old(out)@), (x.0@, x.1@)),
{
    let ghost s = pair_texts(out@);
    let ghost v = (x.0@, x.1@);
    let mut k: usize = out.len();
    assert(s.take(k as int) =~= s);
    assert(s.skip(k as int) =~= Seq::<(Seq<char>, Seq<char>)>::empty());
    while k > 0 && lists_before(&x, &out[k - 1])
        invariant
            k <= out@.len(),
            s == pair_texts(out@),
            v == (x.0@, x.1@),
            insert_file(s, v) == insert_file(s.take(k as int), v) + s.skip(k as int),
        decreases k,
    {
        assert(s.take(k as int).drop_last() =~= s.take(k - 1));
        assert(s.take(k as int).last() == s[k - 1]);
        assert(s.skip(k - 1) =~= seq![s[k - 1]] + s.skip(k as int));
        assert(insert_file(s.take(k - 1), v).push(s[k - 1]) + s.skip(k as int) =~= insert_file(
            s.take(k - 1),
            v,
        ) + s.skip(k - 1));
        k -= 1;
    }
    let ghost before = out@;
    out.insert(k, x);
    proof {
        assert(pair_texts(out@) =~= s.insert(k as int, v));
        if k == 0 {
            assert(s.take(0) =~= Seq::<(Seq<char>, Seq<char>)>::empty());
            assert(s.insert(0, v) =~= seq![v] + s.skip(0));
        } else {
            assert(s.take(k as int).last() == s[k - 1]);
            assert(s.insert(k as int, v) =~= s.take(k as int).push(v) + s.skip(k as int));
        }
    }
}

/// The rows a folder scope lists: the Set files among the directory `dir`'s
/// entries, by id and then by file name, each with the path it is at.
pub fn folder_files(dir: &str, entries: &[DirEntry]) -> (r: Vec<FileRow>)
    ensures
        r@.len() == set_files(entries@).len(),
        forall|i: int|
            0 <= i < r@.len() ==> (#[trigger] r@[i]).id@ == sorted_files(set_files(entries@))[i].0
                && r@[i].path@ == joined_path(dir@, sorted_files(set_files(entries@))[i].1),
{
    proof {
        reveal_strlit(".kbset");
        reveal_strlit(".kset");
    }
    let mut out: Vec<(String, String)> = Vec::new();
    let mut i: usize = 0;
    while i < entries.len()
        invariant
            i <= entries@.len(),
            pair_texts(out@) == sorted_files(set_files(entries@.take(i as int))),
        decreases entries.len() - i,
    {
        let ghost pre = entries@.take(i as int);
        assert(entries@.take(i + 1).drop_last() =~= pre);
        assert(entries@.take(i + 1).last() == entries@[i as int]);
        let e = &entries[i];
        if let Some(name) = &e.name {
            proof {
                reveal_strlit(".kbset");
                reveal_strlit(".kset");
            }
            let kb = ends_with(name.as_str(), ".kbset");
            let k = ends_with(name.as_str(), ".kset");
            if (kb || k) && !e.is_dir {
                let cs = chars_of(name.as_str());
                let cut: usize = if kb {
                    6
                } else {
                    5
                };
                proof {
                    reveal_strlit(".kbset");
                    reveal_strlit(".kset");
                    if kb {
                        assert(".kbset"@.len() == 6);
                    } else {
                        assert(".kset"@.len() == 5);
                    }
                }
                let id = name.substring_char(0, cs.len() - cut);
                proof {
                    reveal_strlit(".kbset");
                    reveal_strlit(".kset");
                    assert(id_of(name@) == Some(id@));
                    assert(set_files(entries@.take(i + 1)) =~= set_files(pre).push((id@, name@)));
                    assert(set_files(entries@.take(i + 1)).drop_last() =~= set_files(pre));
                }
                insert_pair(&mut out, (id.to_string(), name.clone()));
            } else {
                assert(set_files(entries@.take(i + 1)) =~= set_files(pre));
            }
        } else {
            assert(set_files(entries@.take(i + 1)) =~= set_files(pre));
        }
        i += 1;
    }
    assert(entries@.take(i as int) =~= entries@);
    let ghost sorted = pair_texts(out@);
    let mut rows: Vec<FileRow> = Vec::new();
    let mut j: usize = 0;
    while j < out.len()
        invariant
            j <= out@.len(),
            sorted == pair_texts(out@),
            rows@.len() == j,
            forall|m: int|
                0 <= m < j ==> (#[trigger] rows@[m]).id@ == sorted[m].0 && rows@[m].path@
                    == joined_path(dir@, sorted[m].1),
        decreases out.len() - j,
    {
        let path = joined(dir, out[j].1.as_str());
        rows.push(FileRow { id: out[j].0.clone(), path });
        j += 1;
    }
    proof {
        lemma_sorted_files_len(set_files(entries@));
    }
    rows
}

/// Putting Set files in order keeps every one of them.
proof fn lemma_sorted_files_len(s: Seq<(Seq<char>, Seq<char>)>)
    ensures
        sorted_files(s).len() == s.len(),
    decreases s.len(),
{
    if s.len() > 0 {
        lemma_sorted_files_len(s.drop_last());
        lemma_insert_file_len(sorted_files(s.drop_last()), s.last());
    }
}

/// Inserting a file adds exactly it.
proof fn lemma_insert_file_len(s: Seq<(Seq<char>, Seq<char>)>, x: (Seq<char>, Seq<char>))
    ensures
        insert_file(s, x).len() == s.len() + 1,
    decreases s.len(),
{
    if s.len() > 0 && file_before(x, s.last()) {
        lemma_insert_file_len(s.drop_last(), x);
    }
}

/// Listing order between Set files is a strict order, total on different
/// files.
proof fn lemma_file_order(a: (Seq<char>, Seq<char>), b: (Seq<char>, Seq<char>), c: (Seq<char>, Seq<char>))
    ensures
        !file_before(a, a),
        a != b ==> file_before(a, b) || file_before(b, a),
        !(file_before(a, b) && file_before(b, a)),
        file_before(a, b) && file_before(b, c) ==> file_before(a, c),
{
    lemma_before_irreflexive(a.0);
    lemma_before_irreflexive(a.1);
    lemma_before_total(a.0, b.0);
    lemma_before_total(a.1, b.1);
    if file_before(a, b) && file_before(b, c) {
        if text_before(a.0, b.0) && text_before(b.0, c.0) {
            lemma_before_transitive(a.0, b.0, c.0);
        }
        if a.0 == b.0 && b.0 == c.0 && text_before(a.1, b.1) && text_before(b.1, c.1) {
            lemma_before_transitive(a.1, b.1, c.1);
        }
    }
}

/// Whether no file of a listing lists before one ahead of it.
pub open spec fn in_listing_order(s: Seq<(Seq<char>, Seq<char>)>) -> bool {
    forall|i: int, j: int| 0 <= i < j < s.len() ==> !file_before(s[j], s[i])
}

/// What an insertion holds is what was there and the file inserted.
proof fn lemma_insert_file_holds(s: Seq<(Seq<char>, Seq<char>)>, x: (Seq<char>, Seq<char>))
    ensures
        insert_file(s, x).to_multiset() == s.to_multiset().insert(x),
    decreases s.len(),
{
    broadcast use vstd::seq_lib::group_to_multiset_ensures;

    if s.len() == 0 {
        let e = Seq::<(Seq<char>, Seq<char>)>::empty();
        assert(seq![x] =~= e.push(x));
        assert(e.to_multiset() =~= vstd::multiset::Multiset::empty()) by {
            assert forall|a: (Seq<char>, Seq<char>)| e.to_multiset().count(a) == 0 by {
                assert(!e.contains(a));
            }
        }
    } else if file_before(x, s.last()) {
        lemma_insert_file_holds(s.drop_last(), x);
        assert(s =~= s.drop_last().push(s.last()));
        assert(insert_file(s.drop_last(), x).push(s.last()).to_multiset() =~= s.to_multiset().insert(
            x,
        ));
    }
}

/// Inserting a file into a listing in order leaves it in order.
proof fn lemma_insert_file_in_order(s: Seq<(Seq<char>, Seq<char>)>, x: (Seq<char>, Seq<char>))
    requires
        in_listing_order(s),
    ensures
        in_listing_order(insert_file(s, x)),
    decreases s.len(),
{
    if s.len() == 0 {
    } else if file_before(x, s.last()) {
        let rest = insert_file(s.drop_last(), x);
        lemma_insert_file_in_order(s.drop_last(), x);
        lemma_insert_file_holds(s.drop_last(), x);
        let r = rest.push(s.last());
        assert forall|i: int, j: int| 0 <= i < j < r.len() implies !file_before(r[j], r[i]) by {
            if j == r.len() - 1 {
                let e = rest[i];
                assert(rest.to_multiset().count(e) > 0) by {
                    broadcast use vstd::seq_lib::group_to_multiset_ensures;

                    assert(rest.contains(e));
                }
                assert(s.drop_last().to_multiset().insert(x).count(e) > 0);
                if e != x {
                    assert(s.drop_last().to_multiset().count(e) > 0);
                    assert(s.drop_last().contains(e)) by {
                        broadcast use vstd::seq_lib::group_to_multiset_ensures;

                    }
                    let k = choose|k: int| 0 <= k < s.drop_last().len() && s.drop_last()[k] == e;
                    assert(s[k] == e);
                } else {
                    lemma_file_order(x, s.last(), x);
                }
            }
        }
    } else {
        let r = s.push(x);
        assert forall|i: int, j: int| 0 <= i < j < r.len() implies !file_before(r[j], r[i]) by {
            if j == r.len() - 1 && i < s.len() - 1 {
                let e = s[i];
                lemma_file_order(x, e, s.last());
                lemma_file_order(e, s.last(), x);
                assert(!file_before(s.last(), e));
            }
        }
    }
}

/// A folder scope lists its Set files in order — by id, and by file name
/// between two with one id — and lists every one of them once.
pub proof fn law_folder_files_are_in_order(s: Seq<(Seq<char>, Seq<char>)>)
    ensures
        in_listing_order(sorted_files(s)),
        sorted_files(s).to_multiset() == s.to_multiset(),
    decreases s.len(),
{
    if s.len() == 0 {
        assert(sorted_files(s) =~= s);
    } else {
        law_folder_files_are_in_order(s.drop_last());
        lemma_insert_file_in_order(sorted_files(s.drop_last()), s.last());
        lemma_insert_file_holds(sorted_files(s.drop_last()), s.last());
        assert(s =~= s.drop_last().push(s.last()));
        assert(s.to_multiset() == s.drop_last().to_multiset().insert(s.last())) by {
            broadcast use vstd::seq_lib::group_to_multiset_ensures;

        }
    }
}

/// Where the library is still pointed, as a refused drop says it.
pub open spec fn still_pointed_text(folder: Option<Seq<char>>) -> Seq<char> {
    match folder {
        Some(at) => "This library is still pointed at `"@ + at + "`."@,
        None => "This library is still pointed nowhere."@,
    }
}

/// [`still_pointed_text`], for the folder the bay is pointed at, as
/// displayed.
pub fn still_pointed(folder: &Option<String>) -> (r: String)
    ensures
        r@ == still_pointed_text(
            match folder {
                Some(f) => Some(f@),
                None => None,
            },
        ),
{
    match folder {
        Some(at) => {
            let mut t = String::from_str("This library is still pointed at `");
            t.append(at.as_str());
            t.append("`.");
            t
        },
        None => String::from_str("This library is still pointed nowhere."),
    }
}

/// What paths let go on the window come to before any is examined.
#[derive(Debug)]
pub enum Dropped {
    /// Nothing was dropped: nothing is said.
    Nothing,
    /// More than one was: none is taken, and this is said.
    Refused(String),
    /// Exactly one was: it is examined.
    Examine,
}

/// The line said when several paths are let go together.
pub open spec fn many_dropped_text(count: nat, kept: Seq<char>) -> Seq<char> {
    "  folder: "@ + decimal(count)
        + " paths were let go together and none of them was taken — a drop tells this window a path and never a place, so nothing says which of them was aimed at and the order is the desktop's rather than yours. Let go of one folder on its own. "@
        + kept
}

/// A drop of `count` paths, the bay still pointed where `kept` says.
pub fn dropped(count: usize, kept: &str) -> (r: Dropped)
    ensures
        count == 0 ==> r is Nothing,
        count == 1 ==> r is Examine,
        count > 1 ==> (r matches Dropped::Refused(t) && t@ == many_dropped_text(count as nat, kept@)),
{
    if count == 0 {
        Dropped::Nothing
    } else if count == 1 {
        Dropped::Examine
    } else {
        let mut t = String::from_str("  folder: ");
        let n = numeral(count as u64);
        t.append(n.as_str());
        t.append(
            " paths were let go together and none of them was taken — a drop tells this window a path and never a place, so nothing says which of them was aimed at and the order is the desktop's rather than yours. Let go of one folder on its own. ",
        );
        t.append(kept);
        Dropped::Refused(t)
    }
}

/// What examining the one path let go comes to: `what` is whether it is a
/// directory, or why it could not be examined. A directory is taken, and
/// nothing is said yet; anything else is refused, with the reason.
pub open spec fn examined_text(path: Seq<char>, what: Result<bool, Seq<char>>, kept: Seq<char>) -> Option<
    Seq<char>,
> {
    match what {
        Err(why) => Some(
            "  folder: `"@ + path + "` could not be examined ("@ + why
                + "), so whether it is a folder is not known and nothing was taken. "@ + kept,
        ),
        Ok(true) => None,
        Ok(false) => Some(
            if file_name_of(path) matches Some(name) && is_set_name(name) {
                "  folder: `"@ + path
                    + "` is a Set file and what this takes is a folder — a Set is taken in by pressing its row in a listing, and a file let go on this window has no row under it. Let go of the folder that holds it and press the row. "@
                    + kept
            } else {
                "  folder: `"@ + path
                    + "` is not a folder and what this takes is one — this bay is pointed at a directory and lists the Sets in it, so let go of the folder that holds it rather than the file itself. "@
                    + kept
            },
        ),
    }
}

/// [`examined_text`].
pub fn examined(path: &str, what: &Result<bool, String>, kept: &str) -> (r: Option<String>)
    ensures
        (match r {
            Some(t) => Some(t@),
            None => None,
        }) == examined_text(
            path@,
            match what {
                Ok(b) => Ok(*b),
                Err(e) => Err(e@),
            },
            kept@,
        ),
{
    match what {
        Err(why) => {
            let mut t = String::from_str("  folder: `");
            t.append(path);
            t.append("` could not be examined (");
            t.append(why.as_str());
            t.append("), so whether it is a folder is not known and nothing was taken. ");
            t.append(kept);
            Some(t)
        },
        Ok(true) => None,
        Ok(false) => {
            let mut t = String::from_str("  folder: `");
            t.append(path);
            if set_file(path) {
                t.append(
                    "` is a Set file and what this takes is a folder — a Set is taken in by pressing its row in a listing, and a file let go on this window has no row under it. Let go of the folder that holds it and press the row. ",
                );
            } else {
                t.append(
                    "` is not a folder and what this takes is one — this bay is pointed at a directory and lists the Sets in it, so let go of the folder that holds it rather than the file itself. ",
                );
            }
            t.append(kept);
            Some(t)
        },
    }
}

/// The line said when a folder is taken: where the library is pointed now,
/// whether the `folder` chip is marked, and the listing it now shows.
pub open spec fn taken_text(path: Seq<char>, marked: bool, said: Seq<char>) -> Seq<char> {
    "  folder: this library is pointed at `"@ + path + "` — "@ + (if marked {
        "the `folder` chip is marked"@
    } else {
        "this console draws no `folder` chip, so nothing is marked"@
    }) + " and the listing under it is what that directory holds\n"@ + said
}

/// [`taken_text`].
pub fn taken(path: &str, marked: bool, said: &str) -> (r: String)
    ensures
        r@ == taken_text(path@, marked, said@),
{
    proof {
        reveal_strlit("the `folder` chip is marked");
        reveal_strlit("this console draws no `folder` chip, so nothing is marked");
    }
    let mut t = String::from_str("  folder: this library is pointed at `");
    t.append(path);
    t.append("` — ");
    t.append(
        if marked {
            "the `folder` chip is marked"
        } else {
            "this console draws no `folder` chip, so nothing is marked"
        },
    );
    t.append(" and the listing under it is what that directory holds\n");
    t.append(said);
    t
}

/// What a drag held over the window shows as incoming: the path of the one
/// thing dragged, and nothing while none or several are.
pub open spec fn over_of(hovering: Seq<Option<String>>) -> Option<Seq<char>> {
    if hovering.len() == 1 {
        match hovering[0] {
            Some(p) => Some(p@),
            None => None,
        }
    } else {
        None
    }
}

/// What the incoming line should change to while a drag is held over the
/// window, given what it shows now: `None` where it already shows it, so a
/// drag held still costs nothing.
pub fn folder_over(hovering: &[Option<String>], shown: &Option<String>) -> (r: Option<Option<String>>)
    ensures
        (match *shown {
            Some(s) => Some(s@),
            None => None,
        }) == over_of(hovering@) ==> r is None,
        (match *shown {
            Some(s) => Some(s@),
            None => None,
        }) != over_of(hovering@) ==> (r matches Some(next) && (match next {
            Some(p) => Some(p@),
            None => None,
        }) == over_of(hovering@)),
{
    let over: Option<String> = if hovering.len() == 1 {
        match &hovering[0] {
            Some(p) => Some(p.clone()),
            None => None,
        }
    } else {
        None
    };
    let same = match (&over, shown) {
        (None, None) => true,
        (Some(o), Some(s)) => same_text(o.as_str(), s.as_str()),
        _ => false,
    };
    if same {
        None
    } else {
        Some(over)
    }
}

} // verus!
