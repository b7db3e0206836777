//! What the Library bay lists under each scope, and the line that says so.
use vstd::prelude::*;

use crate::layer::{kind_named, kind_of, OpLayer};
use crate::library::{
    names_a_node, badges_of, holds_choices, layers_of, narrowing, narrowing_text, narrows, narrows_to, opt_view,
    set_row, why_nothing, why_nothing_text, FileRow, ListedProcedure, RowKind, Scope, SetSummary,
};
use crate::order::{arranged, listed_before, newest_first, permutes, strictly_sorted, texts};
use crate::text::{decimal, numeral, plural, plural_ending, same_text};

verus! {

/// Which kinds of row the Library bay's kind chips let through: Sets at all,
/// and procedures of which layers — with `narrowing` saying whether any chip
/// is narrowing the listing.
#[derive(Debug)]
pub struct KindFilter {
    pub sets: bool,
    pub narrowing: bool,
    pub layers: Vec<OpLayer>,
}

/// Whether a procedure declaring `kind` is listed: one of a layer the chips
/// show, or — declaring none — only while no chip is narrowing.
pub open spec fn shows_kept_spec(kinds: KindFilter, kind: Option<OpLayer>) -> bool {
    match kind {
        Some(l) => kinds.layers@.contains(l),
        None => !kinds.narrowing,
    }
}

/// [`shows_kept_spec`].
pub fn shows_kept(kinds: &KindFilter, kind: Option<OpLayer>) -> (r: bool)
    ensures
        r == shows_kept_spec(*kinds, kind),
        kind is Some ==> (r <==> kinds.layers@.contains(kind->0)),
        kind is None ==> (r <==> !kinds.narrowing),
{
    match kind {
        Some(l) => {
            let mut i: usize = 0;
            while i < kinds.layers.len()
                invariant
                    kind == Some(l),
                    i <= kinds.layers@.len(),
                    forall|j: int| 0 <= j < i ==> kinds.layers@[j] != l,
                decreases kinds.layers.len() - i,
            {
                if kinds.layers[i] == l {
                    assert(kinds.layers@[i as int] == l);
                    return true;
                }
                i += 1;
            }
            false
        },
        None => !kinds.narrowing,
    }
}

/// A procedure the preset library ships: its name, and the word its `kind`
/// line declares, if it declares one.
#[derive(Debug)]
pub struct ShippedProcedure {
    pub name: String,
    pub kind: Option<String>,
}

/// The layer a shipped procedure declares, where its word names one.
pub open spec fn shipped_kind(kind: Option<String>) -> Option<OpLayer> {
    match kind {
        Some(w) => kind_named(w@),
        None => None,
    }
}

/// A shipped procedure's row: badged with the layer its `kind` word names,
/// where it names one.
pub fn shipped_row(shipped: &ShippedProcedure) -> (r: RowKind)
    ensures
        r.procedure,
        r.badges@ == kind_badges(shipped_kind(shipped.kind)),
{
    let kind = match &shipped.kind {
        Some(w) => kind_of(w.as_str()),
        None => None,
    };
    let row = crate::library::kept_row(kind);
    assert(row.badges@ =~= kind_badges(kind));
    row
}

/// The versions the `history` scope lists, and what the walk that found
/// them said about itself.
#[derive(Debug)]
pub struct Walked {
    pub rows: Vec<String>,
    pub said: String,
}

/// What a scope is called on its chip.
pub open spec fn scope_word(scope: Scope) -> Seq<char> {
    match scope {
        Scope::AllSets => "all"@,
        Scope::MySets => "my sets"@,
        Scope::Presets => "presets"@,
        Scope::Folder => "folder"@,
        Scope::History => "history"@,
    }
}

/// [`scope_word`].
pub fn scope_name(scope: Scope) -> (r: &'static str)
    ensures
        r@ == scope_word(scope),
{
    match scope {
        Scope::AllSets => "all",
        Scope::MySets => "my sets",
        Scope::Presets => "presets",
        Scope::Folder => "folder",
        Scope::History => "history",
    }
}

/// One row as plain values: what it is called, its badges, and whether it
/// is a procedure.
pub type Row = (Seq<char>, Seq<OpLayer>, bool);

/// A row before it is put in order: when it was written, and the row.
pub type Entry = (u64, Row);

/// The badges a procedure's kind gives it.
pub open spec fn kind_badges(kind: Option<OpLayer>) -> Seq<OpLayer> {
    match kind {
        Some(l) => seq![l],
        None => Seq::empty(),
    }
}

/// Whether `starred` names `id`.
pub open spec fn is_starred(starred: Seq<String>, id: Seq<char>) -> bool {
    texts(starred).contains(id)
}

/// The Sets a set scope lets through, in the order they were read: those
/// narrowed to by `holds`, starred where `only_starred`, and none at all
/// where the chips hide Sets.
pub open spec fn set_entries(
    held: Seq<SetSummary>,
    holds: Option<Seq<char>>,
    sets_shown: bool,
    only_starred: Option<Seq<String>>,
) -> Seq<Entry>
    decreases held.len(),
{
    if held.len() == 0 {
        Seq::empty()
    } else {
        let rest = set_entries(held.drop_last(), holds, sets_shown, only_starred);
        let s = held.last();
        let starred_ok = match only_starred {
            Some(st) => is_starred(st, s.id@),
            None => true,
        };
        if starred_ok && narrows_to(s.nodes@, holds, None) && sets_shown {
            rest.push((s.written, (s.id@, badges_of(layers_of(s.nodes@)), false)))
        } else {
            rest
        }
    }
}

/// A set scope lists a Set exactly where it is starred (for `my sets`),
/// holds a node of the name asked for, and the chips show Sets: each row it
/// lists is such a Set's, and each such Set has its row; with Sets hidden it
/// lists none.
pub proof fn law_a_set_scope_lists_exactly_the_sets_let_through(
    held: Seq<SetSummary>,
    holds: Option<Seq<char>>,
    sets_shown: bool,
    only_starred: Option<Seq<String>>,
)
    ensures
        !sets_shown ==> set_entries(held, holds, sets_shown, only_starred).len() == 0,
        forall|e: Entry| #[trigger] set_entries(held, holds, sets_shown, only_starred).contains(e) ==> exists|i: int|
            0 <= i < held.len() && sets_shown && narrows_to(held[i].nodes@, holds, None) && (
            only_starred is Some ==> texts(only_starred->0).contains(held[i].id@)) && e == (
            held[i].written,
            (held[i].id@, badges_of(layers_of(held[i].nodes@)), false),
        ),
        forall|i: int|
            0 <= i < held.len() && sets_shown && narrows_to(held[i].nodes@, holds, None) && (
            only_starred is Some ==> texts(only_starred->0).contains(held[i].id@)) ==> set_entries(
                held,
                holds,
                sets_shown,
                only_starred,
            ).contains((held[i].written, (held[i].id@, badges_of(layers_of(held[i].nodes@)), false))),
    decreases held.len(),
{
    if held.len() > 0 {
        let rest = held.drop_last();
        law_a_set_scope_lists_exactly_the_sets_let_through(rest, holds, sets_shown, only_starred);
        let n = held.len() - 1;
        assert(held[n] == held.last());
        let r = set_entries(rest, holds, sets_shown, only_starred);
        let b = set_entries(held, holds, sets_shown, only_starred);
        assert forall|e: Entry| #[trigger] b.contains(e) implies exists|i: int|
            0 <= i < held.len() && sets_shown && narrows_to(held[i].nodes@, holds, None) && (
            only_starred is Some ==> texts(only_starred->0).contains(held[i].id@)) && e == (
            held[i].written,
            (held[i].id@, badges_of(layers_of(held[i].nodes@)), false),
        ) by {
            let m = choose|m: int| 0 <= m < b.len() && b[m] == e;
            if m < r.len() {
                assert(r[m] == e);
                assert(r.contains(e));
                let i = choose|i: int|
                    0 <= i < rest.len() && sets_shown && narrows_to(rest[i].nodes@, holds, None) && (
                    only_starred is Some ==> texts(only_starred->0).contains(rest[i].id@)) && e == (
                    rest[i].written,
                    (rest[i].id@, badges_of(layers_of(rest[i].nodes@)), false),
                );
                assert(held[i] == rest[i]);
            }
        }
        assert forall|i: int|
            0 <= i < held.len() && sets_shown && narrows_to(held[i].nodes@, holds, None) && (
            only_starred is Some ==> texts(only_starred->0).contains(held[i].id@)) implies b.contains(
            (held[i].written, (held[i].id@, badges_of(layers_of(held[i].nodes@)), false)),
        ) by {
            let e = (held[i].written, (held[i].id@, badges_of(layers_of(held[i].nodes@)), false));
            if i < n {
                assert(rest[i] == held[i]);
                assert(r.contains(e));
                let m = choose|m: int| 0 <= m < r.len() && r[m] == e;
                assert(b[m] == e);
            } else {
                assert(b[b.len() - 1] == e);
            }
        }
    }
}

/// The kept procedures the chips let through, in the order they were read.
pub open spec fn kept_entries(kept: Seq<ListedProcedure>, kinds: KindFilter) -> Seq<Entry>
    decreases kept.len(),
{
    if kept.len() == 0 {
        Seq::empty()
    } else {
        let rest = kept_entries(kept.drop_last(), kinds);
        let k = kept.last();
        if shows_kept_spec(kinds, k.kind) {
            rest.push((k.written, (k.name@, kind_badges(k.kind), true)))
        } else {
            rest
        }
    }
}

/// The preset Set files the chips let through, as rows with no badges.
pub open spec fn preset_entries(presets: Seq<FileRow>, sets_shown: bool) -> Seq<Entry>
    decreases presets.len(),
{
    if presets.len() == 0 || !sets_shown {
        Seq::empty()
    } else {
        preset_entries(presets.drop_last(), sets_shown).push(
            (0u64, (presets.last().id@, Seq::empty(), false)),
        )
    }
}

/// The shipped procedures the chips let through.
pub open spec fn shipped_entries(shipped: Seq<ShippedProcedure>, kinds: KindFilter) -> Seq<Entry>
    decreases shipped.len(),
{
    if shipped.len() == 0 {
        Seq::empty()
    } else {
        let rest = shipped_entries(shipped.drop_last(), kinds);
        let p = shipped.last();
        let kind = shipped_kind(p.kind);
        if shows_kept_spec(kinds, kind) {
            rest.push((0u64, (p.name@, kind_badges(kind), true)))
        } else {
            rest
        }
    }
}

/// Plain rows, one per name, with no badges.
pub open spec fn plain_entries(names: Seq<String>, shown: bool) -> Seq<Entry>
    decreases names.len(),
{
    if names.len() == 0 || !shown {
        Seq::empty()
    } else {
        plain_entries(names.drop_last(), shown).push((0u64, (names.last()@, Seq::empty(), false)))
    }
}

/// When each entry was written.
pub open spec fn entry_times(entries: Seq<Entry>) -> Seq<u64> {
    entries.map_values(|e: Entry| e.0)
}

/// What each entry is called.
pub open spec fn entry_names(entries: Seq<Entry>) -> Seq<Seq<char>> {
    entries.map_values(|e: Entry| e.1.0)
}

/// Whether `rows` are `entries` in newest-first order (by name alone where
/// every entry carries the same moment).
pub open spec fn rows_in_order(entries: Seq<Entry>, rows: Seq<Row>) -> bool {
    exists|order: Seq<usize>|
        permutes(order, entries.len() as int) && (forall|a: int, b: int|
            0 <= a < b < order.len() ==> listed_before(
                entry_times(entries),
                entry_names(entries),
                order[a] as int,
                order[b] as int,
            )) && rows.len() == entries.len() && (forall|i: int|
            0 <= i < rows.len() ==> #[trigger] rows[i] == entries[order[i] as int].1)
}

/// Rows in the order they were read.
pub open spec fn rows_of(entries: Seq<Entry>) -> Seq<Row> {
    entries.map_values(|e: Entry| e.1)
}

/// The entries of a scope, before they are put in order.
pub open spec fn scope_entries(
    scope: Scope,
    held: Seq<SetSummary>,
    starred: Seq<String>,
    holds: Option<Seq<char>>,
    kinds: KindFilter,
    kept: Seq<ListedProcedure>,
    presets: Seq<FileRow>,
    shipped: Seq<ShippedProcedure>,
    folder: Seq<String>,
    history: Seq<String>,
) -> Seq<Entry> {
    match scope {
        Scope::AllSets => set_entries(held, holds, kinds.sets, None) + kept_entries(kept, kinds),
        Scope::MySets => set_entries(held, holds, kinds.sets, Some(starred)),
        Scope::Presets => preset_entries(presets, kinds.sets) + shipped_entries(shipped, kinds),
        Scope::Folder => plain_entries(folder, kinds.sets),
        Scope::History => plain_entries(history, true),
    }
}

/// Whether a scope's rows are put in order (newest first, or by name), or
/// kept in the order they were read.
pub open spec fn scope_sorts(scope: Scope) -> bool {
    scope == Scope::AllSets || scope == Scope::Presets
}

/// The line a listing is said in: what it lists, against how many Sets and
/// what narrowed them where the scope is a set scope, or why it lists
/// nothing.
pub open spec fn listing_line(
    scope: Scope,
    listed: nat,
    held: nat,
    narrowed: Option<Seq<char>>,
    pointed: bool,
    running: bool,
) -> Seq<char> {
    let head = "  library: `"@ + scope_word(scope);
    if listed == 0 {
        match narrowed {
            Some(n) => head + "` lists nothing — none of the "@ + decimal(held) + " Set"@ + plural(
                held,
            ) + " here "@ + n + ", so the filter row is what to press rather than `k`"@,
            None => head + "` lists nothing — "@ + why_nothing_text(scope, pointed, running),
        }
    } else {
        match narrowed {
            Some(n) => head + "` lists "@ + decimal(listed) + " of "@ + decimal(held) + " Set"@
                + plural(held) + ", "@ + n,
            None => head + "` lists "@ + decimal(listed) + " "@ + (if scope == Scope::History {
                if listed == 1 {
                    "version"@
                } else {
                    "versions"@
                }
            } else {
                if listed == 1 {
                    "Set"@
                } else {
                    "Sets"@
                }
            }),
        }
    }
}

/// Rows being gathered: when each was written, what it is called, and its
/// badges.
pub struct Entries {
    pub written: Vec<u64>,
    pub names: Vec<String>,
    pub kinds: Vec<RowKind>,
}

impl Entries {
    /// Whether the three lists line up.
    pub open spec fn wf(&self) -> bool {
        self.written@.len() == self.names@.len() && self.names@.len() == self.kinds@.len()
    }

    /// The entries, as plain values.
    pub open spec fn seen(&self) -> Seq<Entry> {
        Seq::new(
            self.written@.len(),
            |i: int|
                (self.written@[i], (self.names@[i]@, self.kinds@[i].badges@, self.kinds@[i].procedure)),
        )
    }

    /// One more entry, last.
    fn add(&mut self, written: u64, name: String, kind: RowKind)
        requires
            old(self).wf(),
        ensures
            final(self).wf(),
            final(self).seen() == old(self).seen().push(
                (written, (name@, kind.badges@, kind.procedure)),
            ),
    {
        self.written.push(written);
        self.names.push(name);
        self.kinds.push(kind);
        assert(self.seen() =~= old(self).seen().push((written, (name@, kind.badges@, kind.procedure))));
    }
}

/// Whether `starred` names `id`.
fn starred_has(starred: &[String], id: &str) -> (r: bool)
    ensures
        r == is_starred(starred@, id@),
{
    let mut i: usize = 0;
    while i < starred.len()
        invariant
            i <= starred@.len(),
            forall|j: int| 0 <= j < i ==> starred@[j]@ != id@,
        decreases starred.len() - i,
    {
        if same_text(starred[i].as_str(), id) {
            assert(texts(starred@)[i as int] == id@);
            return true;
        }
        i += 1;
    }
    assert forall|j: int| 0 <= j < texts(starred@).len() implies texts(starred@)[j] != id@ by {
        assert(starred@[j]@ != id@);
    }
    false
}

/// The Sets a set scope lets through, added to `out`.
fn add_sets(
    out: &mut Entries,
    held: &[SetSummary],
    holds: Option<&str>,
    sets_shown: bool,
    starred: Option<&[String]>,
)
    requires
        old(out).wf(),
    ensures
        final(out).wf(),
        final(out).seen() == old(out).seen() + set_entries(
            held@,
            opt_view(holds),
            sets_shown,
            match starred {
                Some(st) => Some(st@),
                None => None,
            },
        ),
{
    let ghost st = match starred {
        Some(st) => Some(st@),
        None => None::<Seq<String>>,
    };
    let ghost start = out.seen();
    let mut i: usize = 0;
    while i < held.len()
        invariant
            i <= held@.len(),
            out.wf(),
            st == match starred {
                Some(x) => Some(x@),
                None => None::<Seq<String>>,
            },
            out.seen() == start + set_entries(held@.take(i as int), opt_view(holds), sets_shown, st),
        decreases held.len() - i,
    {
        let set = &held[i];
        let starred_ok = match starred {
            Some(st) => starred_has(st, set.id.as_str()),
            None => true,
        };
        let keep = starred_ok && narrows(set, holds, None) && sets_shown;
        proof {
            let next = held@.take(i + 1);
            assert(next.drop_last() =~= held@.take(i as int));
            assert(next.last() == held@[i as int]);
        }
        if keep {
            let row = set_row(set.nodes.as_slice());
            out.add(set.written, set.id.clone(), row);
        }
        i += 1;
    }
    assert(held@.take(i as int) =~= held@);
}

/// The kept procedures the chips let through, added to `out`.
fn add_kept(out: &mut Entries, kept: &[ListedProcedure], kinds: &KindFilter)
    requires
        old(out).wf(),
    ensures
        final(out).wf(),
        final(out).seen() == old(out).seen() + kept_entries(kept@, *kinds),
{
    let ghost start = out.seen();
    let mut i: usize = 0;
    while i < kept.len()
        invariant
            i <= kept@.len(),
            out.wf(),
            out.seen() == start + kept_entries(kept@.take(i as int), *kinds),
        decreases kept.len() - i,
    {
        let k = &kept[i];
        proof {
            let next = kept@.take(i + 1);
            assert(next.drop_last() =~= kept@.take(i as int));
            assert(next.last() == kept@[i as int]);
        }
        if shows_kept(kinds, k.kind) {
            let row = crate::library::kept_row(k.kind);
            assert(row.badges@ =~= kind_badges(k.kind));
            out.add(k.written, k.name.clone(), row);
        }
        i += 1;
    }
    assert(kept@.take(i as int) =~= kept@);
}

/// The preset Set files the chips let through, added to `out`.
fn add_presets(out: &mut Entries, presets: &[FileRow], sets_shown: bool)
    requires
        old(out).wf(),
    ensures
        final(out).wf(),
        final(out).seen() == old(out).seen() + preset_entries(presets@, sets_shown),
{
    let ghost start = out.seen();
    let mut i: usize = 0;
    while i < presets.len()
        invariant
            i <= presets@.len(),
            out.wf(),
            out.seen() == start + preset_entries(presets@.take(i as int), sets_shown),
        decreases presets.len() - i,
    {
        proof {
            let next = presets@.take(i + 1);
            assert(next.drop_last() =~= presets@.take(i as int));
            assert(next.last() == presets@[i as int]);
        }
        if sets_shown {
            let row = RowKind { badges: Vec::new(), procedure: false };
            out.add(0, presets[i].id.clone(), row);
        }
        i += 1;
    }
    assert(presets@.take(i as int) =~= presets@);
}

/// The shipped procedures the chips let through, added to `out`.
fn add_shipped(out: &mut Entries, shipped: &[ShippedProcedure], kinds: &KindFilter)
    requires
        old(out).wf(),
    ensures
        final(out).wf(),
        final(out).seen() == old(out).seen() + shipped_entries(shipped@, *kinds),
{
    let ghost start = out.seen();
    let mut i: usize = 0;
    while i < shipped.len()
        invariant
            i <= shipped@.len(),
            out.wf(),
            out.seen() == start + shipped_entries(shipped@.take(i as int), *kinds),
        decreases shipped.len() - i,
    {
        let p = &shipped[i];
        proof {
            let next = shipped@.take(i + 1);
            assert(next.drop_last() =~= shipped@.take(i as int));
            assert(next.last() == shipped@[i as int]);
        }
        let kind = match &p.kind {
            Some(w) => kind_of(w.as_str()),
            None => None,
        };
        assert(kind == shipped_kind(p.kind));
        if shows_kept(kinds, kind) {
            let row = shipped_row(p);
            out.add(0, p.name.clone(), row);
        }
        i += 1;
    }
    assert(shipped@.take(i as int) =~= shipped@);
}

/// Plain rows, one per name, added to `out` where `shown`.
fn add_plain(out: &mut Entries, names: &[String], shown: bool)
    requires
        old(out).wf(),
    ensures
        final(out).wf(),
        final(out).seen() == old(out).seen() + plain_entries(names@, shown),
{
    let ghost start = out.seen();
    let mut i: usize = 0;
    while i < names.len()
        invariant
            i <= names@.len(),
            out.wf(),
            out.seen() == start + plain_entries(names@.take(i as int), shown),
        decreases names.len() - i,
    {
        proof {
            let next = names@.take(i + 1);
            assert(next.drop_last() =~= names@.take(i as int));
            assert(next.last() == names@[i as int]);
        }
        if shown {
            let row = RowKind { badges: Vec::new(), procedure: false };
            out.add(0, names[i].clone(), row);
        }
        i += 1;
    }
    assert(names@.take(i as int) =~= names@);
}

/// What a listing puts on the bay: each row's name and badges, and the names
/// the `holds` field offers.
#[derive(Debug)]
pub struct Shown {
    pub library: Vec<String>,
    pub kinds: Vec<RowKind>,
    pub holds: Vec<String>,
}

/// The rows shown, as plain values.
pub open spec fn shown_rows(library: Seq<String>, kinds: Seq<RowKind>) -> Seq<Row> {
    Seq::new(library.len(), |i: int| (library[i]@, kinds[i].badges@, kinds[i].procedure))
}

/// Whether a scope lists Sets out of the store, so that its filter row
/// narrows it.
pub open spec fn set_scope(scope: Scope) -> bool {
    scope == Scope::AllSets || scope == Scope::MySets
}

/// The line said where the console was handed no scopes at all.
pub open spec fn no_scopes_text() -> Seq<char> {
    "  library: this console was handed no scopes, so there is no library to list"@
}

/// The history rows a walk found, or none.
pub open spec fn history_rows(walked: Option<&Walked>) -> Seq<String> {
    match walked {
        Some(w) => w.rows@,
        None => Seq::empty(),
    }
}

/// What a walk said about itself, or nothing.
pub open spec fn aside_text(walked: Option<&Walked>) -> Seq<char> {
    match walked {
        Some(w) => w.said@,
        None => Seq::empty(),
    }
}

/// The bay listed under `scope`: the rows of the scope, narrowed by `holds`
/// and by the kind chips, in newest-first order for `all` and by name for
/// `presets` (in the order they were read otherwise); the `holds` choices of
/// the Sets a set scope lists; and the line that says what was listed or why
/// nothing was. `held` is what the store holds (read for the set scopes),
/// `kept` what it keeps, `presets` and `shipped` what the preset library
/// holds, `folder` the Set ids the pointed folder holds, and `walked` the
/// versions the `history` scope found. With no scope at all, nothing is
/// listed and the line says so.
pub fn listing(
    scope: Option<Scope>,
    held: &[SetSummary],
    starred: &[String],
    holds: Option<&str>,
    kinds: &KindFilter,
    kept: &[ListedProcedure],
    presets: &[FileRow],
    shipped: &[ShippedProcedure],
    folder: &[String],
    walked: Option<&Walked>,
    pointed: bool,
    running: bool,
) -> (r: (String, Option<Shown>))
    ensures
        scope is None ==> r.0@ == no_scopes_text() && r.1 is None,
        scope matches Some(sc) ==> r.1 matches Some(shown) && {
            let entries = scope_entries(
                sc,
                held@,
                starred@,
                opt_view(holds),
                *kinds,
                kept@,
                presets@,
                shipped@,
                folder@,
                history_rows(walked),
            );
            let rows = shown_rows(shown.library@, shown.kinds@);
            let narrowed = if set_scope(sc) {
                narrowing_text(opt_view(holds), None)
            } else {
                None
            };
            &&& shown.kinds@.len() == shown.library@.len()
            &&& if scope_sorts(sc) {
                rows_in_order(entries, rows)
            } else {
                rows == rows_of(entries)
            }
            &&& set_scope(sc) ==> strictly_sorted(texts(shown.holds@)) && forall|t: Seq<char>|
                #[trigger] texts(shown.holds@).contains(t) <==> names_a_node(held@, t)
            &&& !set_scope(sc) ==> shown.holds@.len() == 0
            &&& r.0@ == listing_line(
                sc,
                rows.len(),
                held@.len(),
                narrowed,
                pointed,
                running,
            ) + aside_text(walked)
        },
{
    let sc = match scope {
        Some(sc) => sc,
        None => {
            return (
                String::from_str(
                    "  library: this console was handed no scopes, so there is no library to list",
                ),
                None,
            );
        },
    };
    let in_sets = match sc {
        Scope::AllSets => true,
        Scope::MySets => true,
        _ => false,
    };
    let holds_offered = if in_sets {
        holds_choices(held)
    } else {
        Vec::new()
    };
    let mut out = Entries { written: Vec::new(), names: Vec::new(), kinds: Vec::new() };
    assert(out.seen() =~= Seq::<Entry>::empty());
    let empty_walk: Vec<String> = Vec::new();
    let history: &[String] = match walked {
        Some(w) => w.rows.as_slice(),
        None => empty_walk.as_slice(),
    };
    match sc {
        Scope::AllSets => {
            add_sets(&mut out, held, holds, kinds.sets, None);
            add_kept(&mut out, kept, kinds);
        },
        Scope::MySets => {
            add_sets(&mut out, held, holds, kinds.sets, Some(starred));
        },
        Scope::Presets => {
            add_presets(&mut out, presets, kinds.sets);
            add_shipped(&mut out, shipped, kinds);
        },
        Scope::Folder => {
            add_plain(&mut out, folder, kinds.sets);
        },
        Scope::History => {
            add_plain(&mut out, history, true);
        },
    }
    let ghost entries = out.seen();
    assert(entries =~= scope_entries(
        sc,
        held@,
        starred@,
        opt_view(holds),
        *kinds,
        kept@,
        presets@,
        shipped@,
        folder@,
        history_rows(walked),
    ));
    let sorts = match sc {
        Scope::AllSets => true,
        Scope::Presets => true,
        _ => false,
    };
    let Entries { written, names, kinds: row_kinds } = out;
    let (library, shown_kinds) = if sorts {
        let order = newest_first(written.as_slice(), names.as_slice());
        let ghost o = order@;
        let ghost ns = names@;
        let ghost ks = row_kinds@;
        let library = arranged(names, order.as_slice());
        let shown_kinds = arranged(row_kinds, order.as_slice());
        proof {
            assert(entry_times(entries) =~= written@);
            assert(entry_names(entries) =~= texts(ns));
            let rows = shown_rows(library@, shown_kinds@);
            assert forall|i: int| 0 <= i < rows.len() implies #[trigger] rows[i] == entries[o[i] as int].1 by {
                assert(library@[i] == ns[o[i] as int]);
                assert(shown_kinds@[i] == ks[o[i] as int]);
            }
            assert(rows_in_order(entries, rows));
        }
        (library, shown_kinds)
    } else {
        proof {
            assert(shown_rows(names@, row_kinds@) =~= rows_of(entries));
        }
        (names, row_kinds)
    };
    let listed = library.len();
    let held_count = held.len();
    let narrowed = if in_sets {
        narrowing(holds, None)
    } else {
        None
    };
    let mut line = String::from_str("  library: `");
    line.append(scope_name(sc));
    if listed == 0 {
        match &narrowed {
            Some(n) => {
                line.append("` lists nothing — none of the ");
                let count = numeral(held_count as u64);
                line.append(count.as_str());
                line.append(" Set");
                line.append(plural_ending(held_count as u64));
                line.append(" here ");
                line.append(n.as_str());
                line.append(", so the filter row is what to press rather than `k`");
            },
            None => {
                line.append("` lists nothing — ");
                line.append(why_nothing(sc, pointed, running));
            },
        }
    } else {
        match &narrowed {
            Some(n) => {
                line.append("` lists ");
                let shown_count = numeral(listed as u64);
                line.append(shown_count.as_str());
                line.append(" of ");
                let count = numeral(held_count as u64);
                line.append(count.as_str());
                line.append(" Set");
                line.append(plural_ending(held_count as u64));
                line.append(", ");
                line.append(n.as_str());
            },
            None => {
                line.append("` lists ");
                let shown_count = numeral(listed as u64);
                line.append(shown_count.as_str());
                line.append(" ");
                match sc {
                    Scope::History => if listed == 1 {
                        line.append("version");
                    } else {
                        line.append("versions");
                    },
                    _ => if listed == 1 {
                        line.append("Set");
                    } else {
                        line.append("Sets");
                    },
                }
            },
        }
    }
    match walked {
        Some(w) => line.append(w.said.as_str()),
        None => {},
    }
    (line, Some(Shown { library, kinds: shown_kinds, holds: holds_offered }))
}

} // verus!
