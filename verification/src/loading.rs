//! Loading a Set from the store onto a slot: what it is seeded from, the
//! element count it is aimed at, and what is said of the load.
use vstd::prelude::*;

use crate::inspector::Published;
use crate::pane::Edge;
use crate::text::{decimal, numeral, plural, plural_ending, same_text};

verus! {

/// The salt a loaded Set is seeded from: the first salt its file recorded,
/// and the slot's own where it recorded none.
pub open spec fn seed_of(recorded: Seq<Option<u32>>, slot_salt: u32) -> u32 {
    if recorded.len() > 0 && recorded[0] is Some {
        recorded[0]->0
    } else {
        slot_salt
    }
}

/// [`seed_of`].
pub fn loaded_seed(recorded: &[Option<u32>], slot_salt: u32) -> (r: u32)
    ensures
        r == seed_of(recorded@, slot_salt),
        recorded@.len() > 0 && recorded@[0] is Some ==> Some(r) == recorded@[0],
        recorded@.len() == 0 || recorded@[0] is None ==> r == slot_salt,
{
    if recorded.len() > 0 {
        if let Some(salt) = recorded[0] {
            return salt;
        }
    }
    slot_salt
}

/// The salt of each geometry of a loaded Set: the one its file recorded for
/// it, and where it recorded none the one derived from the seed for its
/// place (`derived`, one per geometry).
pub open spec fn salts_of(recorded: Seq<Option<u32>>, derived: Seq<u32>) -> Seq<u32> {
    Seq::new(
        derived.len(),
        |at: int|
            if at < recorded.len() && recorded[at] is Some {
                recorded[at]->0
            } else {
                derived[at]
            },
    )
}

/// [`salts_of`].
pub fn loaded_salts(recorded: &[Option<u32>], derived: &[u32]) -> (r: Vec<u32>)
    ensures
        r@ == salts_of(recorded@, derived@),
        r@.len() == derived@.len(),
        forall|i: int| 0 <= i < r@.len() && i < recorded@.len() && recorded@[i] is Some ==> Some(#[trigger] r@[i]) == recorded@[i],
        forall|i: int| 0 <= i < r@.len() && !(i < recorded@.len() && recorded@[i] is Some) ==> #[trigger] r@[i] == derived@[i],
{
    let mut out: Vec<u32> = Vec::new();
    let mut at: usize = 0;
    while at < derived.len()
        invariant
            at <= derived@.len(),
            out@ == salts_of(recorded@, derived@).take(at as int),
        decreases derived.len() - at,
    {
        let salt = if at < recorded.len() {
            match recorded[at] {
                Some(s) => s,
                None => derived[at],
            }
        } else {
            derived[at]
        };
        out.push(salt);
        assert(out@ =~= salts_of(recorded@, derived@).take(at + 1));
        at += 1;
    }
    assert(salts_of(recorded@, derived@).take(at as int) =~= salts_of(recorded@, derived@));
    out
}

/// The element count a loaded Set is aimed at: the first geometry's
/// recorded count, for all of them, and none where it recorded none.
pub open spec fn capacity_of_load(recorded: Seq<Option<u32>>) -> Option<u32> {
    if recorded.len() > 0 {
        recorded[0]
    } else {
        None
    }
}

/// [`capacity_of_load`].
pub fn loaded_capacity(recorded: &[Option<u32>]) -> (r: Option<u32>)
    ensures
        r == capacity_of_load(recorded@),
        recorded@.len() > 0 ==> r == recorded@[0],
        recorded@.len() == 0 ==> r is None,
{
    if recorded.len() > 0 {
        recorded[0]
    } else {
        None
    }
}

/// Where a load re-points a slot's watcher, as far as it is the load's own
/// choice: the Set the slot now files its versions under, the element count
/// and the seeds it builds at, the wiring the Set file records — and no
/// published controls and no grants, since a Set file carries neither.
#[derive(Debug)]
pub struct LoadedAim<A> {
    pub set: Option<String>,
    pub capacity: Option<u32>,
    pub seed_salt: u32,
    pub salts: Vec<u32>,
    pub edges: Vec<Edge>,
    pub published: Vec<Published>,
    pub authorities: Vec<A>,
}

/// The aim a load of the Set `id` sends: `salts` and `capacities` are what
/// its file recorded per geometry, `slot_salt` the slot's own salt, `derived`
/// the salt derived from the seed for each geometry's place (one per
/// geometry), and `edges` the wiring the file records.
pub fn loaded_aim<A>(
    id: &str,
    slot_salt: u32,
    salts: &[Option<u32>],
    derived: &[u32],
    capacities: &[Option<u32>],
    edges: Vec<Edge>,
) -> (r: LoadedAim<A>)
    ensures
        r.set matches Some(s) && s@ == id@,
        r.capacity == capacity_of_load(capacities@),
        r.seed_salt == seed_of(salts@, slot_salt),
        r.salts@ == salts_of(salts@, derived@),
        r.edges@ == edges@,
        r.published@.len() == 0,
        r.authorities@.len() == 0,
{
    LoadedAim {
        set: Some(String::from_str(id)),
        capacity: loaded_capacity(capacities),
        seed_salt: loaded_seed(salts, slot_salt),
        salts: loaded_salts(salts, derived),
        edges,
        published: Vec::new(),
        authorities: Vec::new(),
    }
}

/// The line a load comes to once the slot's watcher is re-pointed: the
/// deck, the Set, its node count, and where its sources were written
/// (`scratch`, a directory under the store `root`).
pub open spec fn loaded_text(letter: Seq<char>, id: Seq<char>, nodes: nat, root: Seq<char>, scratch: Seq<char>) -> Seq<char> {
    "  load: deck "@ + letter + " <- `"@ + id + "` ("@ + decimal(nodes) + " node"@ + plural(nodes)
        + ") -> written into "@ + root + "/"@ + scratch
        + " and its watcher re-pointed; the worker builds it and the budget judges it"@
}

/// [`loaded_text`].
pub fn loaded(letter: &str, id: &str, nodes: usize, root: &str, scratch: &str) -> (r: String)
    ensures
        r@ == loaded_text(letter@, id@, nodes as nat, root@, scratch@),
{
    proof {
        reveal_strlit(" node");
    }
    let mut t = String::from_str("  load: deck ");
    t.append(letter);
    t.append(" <- `");
    t.append(id);
    t.append("` (");
    let n = numeral(nodes as u64);
    t.append(n.as_str());
    t.append(" node");
    t.append(plural_ending(nodes as u64));
    t.append(") -> written into ");
    t.append(root);
    t.append("/");
    t.append(scratch);
    t.append(" and its watcher re-pointed; the worker builds it and the budget judges it");
    t
}

/// The refusal of a load whose slot's build worker has ended.
pub open spec fn worker_gone_text(letter: Seq<char>, id: Seq<char>) -> Seq<char> {
    "deck "@ + letter + "'s build worker is gone, so `"@ + id
        + "` cannot be built; what is on that deck keeps running"@
}

/// [`worker_gone_text`].
pub fn worker_gone(letter: &str, id: &str) -> (r: String)
    ensures
        r@ == worker_gone_text(letter@, id@),
{
    let mut t = String::from_str("deck ");
    t.append(letter);
    t.append("'s build worker is gone, so `");
    t.append(id);
    t.append("` cannot be built; what is on that deck keeps running");
    t
}

/// The refusal of a Set that names no procedure at all.
pub open spec fn no_procedure_text(id: Seq<char>) -> Seq<char> {
    "`"@ + id + "` names no procedure at all"@
}

/// [`no_procedure_text`].
pub fn no_procedure(id: &str) -> (r: String)
    ensures
        r@ == no_procedure_text(id@),
{
    let mut t = String::from_str("`");
    t.append(id);
    t.append("` names no procedure at all");
    t
}

/// One of the files a slot runs, as an overlay reads it: the node name the
/// Set gave it, if any, and the layer its source declares in its `kind`
/// line — `None` where the source could not be read, `Some(None)` where it
/// declares none.
#[derive(Clone, Debug)]
pub struct SlotFile {
    pub name: Option<String>,
    pub kind: Option<Option<String>>,
}

/// The layer a slot's file implements: what it declares, and where it
/// declares nothing, `L1` for the first file and `L4` for any other; none
/// where it could not be read.
pub open spec fn file_kind(file: SlotFile, index: int) -> Option<Seq<char>> {
    match file.kind {
        None => None,
        Some(Some(k)) => Some(k@),
        Some(None) => Some(
            if index == 0 {
                "L1"@
            } else {
                "L4"@
            },
        ),
    }
}

/// Whether the file at `index` is one a procedure of layer `kind` is
/// written over.
pub open spec fn overlays(files: Seq<SlotFile>, index: int, kind: Seq<char>) -> bool {
    file_kind(files[index], index) == Some(kind)
}

/// Whether a file carries the node name `name`.
pub open spec fn named(file: SlotFile, name: Seq<char>) -> bool {
    file.name matches Some(n) && n@ == name
}

/// Where a procedure of layer `kind` goes among a slot's files: over the
/// first file of that layer, or — where the slot has none — added after
/// them all; and refused, naming the deck, where it would be added under a
/// name one of the files already has.
pub open spec fn overlay_spec(files: Seq<SlotFile>, kind: Seq<char>, name: Seq<char>) -> Option<(int, bool)> {
    if exists|i: int| 0 <= i < files.len() && overlays(files, i, kind) {
        Some((choose|i: int| 0 <= i < files.len() && overlays(files, i, kind) && forall|j: int| 0 <= j < i ==> !overlays(files, j, kind), false))
    } else if exists|i: int| 0 <= i < files.len() && #[trigger] named(files[i], name) {
        None
    } else {
        Some((files.len() as int, true))
    }
}

/// [`file_kind`].
fn kind_of_file(file: &SlotFile, index: usize) -> (r: Option<String>)
    ensures
        match r {
            Some(k) => file_kind(*file, index as int) == Some(k@),
            None => file_kind(*file, index as int) is None,
        },
{
    proof {
        reveal_strlit("L1");
        reveal_strlit("L4");
    }
    match &file.kind {
        None => None,
        Some(Some(k)) => Some(k.clone()),
        Some(None) => Some(
            String::from_str(
                if index == 0 {
                    "L1"
                } else {
                    "L4"
                },
            ),
        ),
    }
}

/// A file whose source declares no layer is taken for the first layer where
/// it is the slot's first file and for the fourth anywhere after it; a file
/// that declares one is of that layer, and a file that could not be read is
/// of none.
pub proof fn law_an_undeclared_file_is_first_layer_first_and_fourth_after(file: SlotFile, index: int)
    ensures
        file.kind == Some(None::<String>) && index == 0 ==> file_kind(file, index) == Some("L1"@),
        file.kind == Some(None::<String>) && index != 0 ==> file_kind(file, index) == Some("L4"@),
        file.kind matches Some(Some(k)) ==> file_kind(file, index) == Some(k@),
        file.kind is None ==> file_kind(file, index) is None,
{
}

/// Where a procedure of layer `kind`, called `name`, goes among the files a
/// slot runs: `Some((index, added))` — written over the file at `index`, or
/// added as a new node there — or `None` where adding it would give the
/// slot a second node of that name.
pub fn overlay_at(files: &[SlotFile], kind: &str, name: &str) -> (r: Option<(usize, bool)>)
    ensures
        match r {
            Some((at, added)) => overlay_spec(files@, kind@, name@) == Some((at as int, added)),
            None => overlay_spec(files@, kind@, name@) is None,
        },
        r matches Some((at, false)) ==> at < files@.len() && overlays(files@, at as int, kind@)
            && forall|j: int| 0 <= j < at ==> !overlays(files@, j, kind@),
        r matches Some((at, true)) ==> at == files@.len() && (forall|j: int|
            0 <= j < files@.len() ==> !overlays(files@, j, kind@)) && (forall|j: int|
            0 <= j < files@.len() ==> !named(#[trigger] files@[j], name@)),
        r is None ==> (forall|j: int| 0 <= j < files@.len() ==> !overlays(files@, j, kind@)) && (
        exists|j: int| 0 <= j < files@.len() && #[trigger] named(files@[j], name@)),
{
    let mut i: usize = 0;
    while i < files.len()
        invariant
            i <= files@.len(),
            forall|j: int| 0 <= j < i ==> !overlays(files@, j, kind@),
        decreases files.len() - i,
    {
        let k = kind_of_file(&files[i], i);
        let hit = match &k {
            Some(k) => same_text(k.as_str(), kind),
            None => false,
        };
        if hit {
            assert(overlays(files@, i as int, kind@));
            let ghost c = choose|c: int| 0 <= c < files@.len() && overlays(files@, c, kind@) && forall|j: int| 0 <= j < c ==> !overlays(files@, j, kind@);
            proof {
                assert(0 <= i < files@.len() && overlays(files@, i as int, kind@) && forall|j: int| 0 <= j < i ==> !overlays(files@, j, kind@));
                if c < i {
                    assert(!overlays(files@, c, kind@));
                } else if c > i {
                    assert(!overlays(files@, i as int, kind@));
                }
            }
            return Some((i, false));
        }
        i += 1;
    }
    let mut m: usize = 0;
    while m < files.len()
        invariant
            m <= files@.len(),
            forall|j: int| 0 <= j < files@.len() ==> !overlays(files@, j, kind@),
            forall|j: int| 0 <= j < m ==> !named(#[trigger] files@[j], name@),
        decreases files.len() - m,
    {
        let taken = match &files[m].name {
            Some(n) => same_text(n.as_str(), name),
            None => false,
        };
        if taken {
            assert(named(files@[m as int], name@));
            return None;
        }
        m += 1;
    }
    Some((files.len(), true))
}

/// A file a slot runs, as its aim names it: the node name the Set gave it,
/// if any, and where the source is.
#[derive(Debug)]
pub struct Named {
    pub name: Option<String>,
    pub path: String,
}

/// An optional name, by its characters.
pub open spec fn opt_name(name: Option<String>) -> Option<Seq<char>> {
    match name {
        Some(n) => Some(n@),
        None => None,
    }
}

/// A slot's files once a procedure is overlaid where [`overlay_at`] put it,
/// its source now at `path`: written over the file at `at`, which keeps the
/// node name the Set gave it — the name an `edge` resolves against — or,
/// where it was added, a new last file named after the row (`name`), since
/// nothing in the slot named it. Every other file is as it was, so the slot
/// never ends up running no files.
pub fn overlay_files(files: Vec<Named>, at: usize, added: bool, name: &str, path: String) -> (r: Vec<Named>)
    requires
        added ==> at == files@.len(),
        !added ==> at < files@.len(),
    ensures
        added ==> r@.len() == files@.len() + 1 && r@.take(files@.len() as int) == files@ && opt_name(
            r@[at as int].name,
        ) == Some(name@) && r@[at as int].path@ == path@,
        !added ==> r@.len() == files@.len() && (forall|j: int|
            0 <= j < r@.len() && j != at ==> r@[j] == files@[j]) && opt_name(r@[at as int].name)
            == opt_name(files@[at as int].name) && r@[at as int].path@ == path@,
        r@.len() > 0,
{
    let mut files = files;
    if added {
        let ghost before = files@;
        files.push(Named { name: Some(String::from_str(name)), path });
        assert(files@.take(before.len() as int) =~= before);
        files
    } else {
        let kept = match &files[at].name {
            Some(n) => Some(n.clone()),
            None => None,
        };
        files.set(at, Named { name: kept, path });
        files
    }
}

/// The refusal of a procedure that declares no layer.
pub open spec fn no_kind_text(name: Seq<char>) -> Seq<char> {
    "`"@ + name
        + "` declares no `kind`, so there is no layer to write it over — a procedure says which layer it implements in a `kind` line, and this one says nothing"@
}

/// [`no_kind_text`].
pub fn no_kind(name: &str) -> (r: String)
    ensures
        r@ == no_kind_text(name@),
{
    let mut t = String::from_str("`");
    t.append(name);
    t.append(
        "` declares no `kind`, so there is no layer to write it over — a procedure says which layer it implements in a `kind` line, and this one says nothing",
    );
    t
}

/// The refusal of an overlay that would add a second node of one name.
pub open spec fn name_taken_text(letter: Seq<char>, name: Seq<char>) -> Seq<char> {
    "deck "@ + letter + " already holds a node called `"@ + name
        + "`, and this row would add a second — rename one of them and load again"@
}

/// [`name_taken_text`].
pub fn name_taken(letter: &str, name: &str) -> (r: String)
    ensures
        r@ == name_taken_text(letter@, name@),
{
    let mut t = String::from_str("deck ");
    t.append(letter);
    t.append(" already holds a node called `");
    t.append(name);
    t.append("`, and this row would add a second — rename one of them and load again");
    t
}

/// The line an overlay comes to: the procedure, where it came from (`kept`
/// or `shipped`), whether it was added or written over the layer's node,
/// and the deck.
pub open spec fn overlaid_text(name: Seq<char>, tier: Seq<char>, kind: Seq<char>, added: bool, letter: Seq<char>) -> Seq<char> {
    "  load: `"@ + name + "` ("@ + tier + ") "@ + (if added {
        "added as "@ + kind + ":0, which this deck had no node for"@
    } else {
        "written over "@ + kind + ":0"@
    }) + " on deck "@ + letter
        + " — the slot is recompiling on the worker with every other layer where it was, and the staging lane says whether the build landed, was overloaded or did not compile"@
}

/// [`overlaid_text`].
pub fn overlaid(name: &str, tier: &str, kind: &str, added: bool, letter: &str) -> (r: String)
    ensures
        r@ == overlaid_text(name@, tier@, kind@, added, letter@),
{
    let mut t = String::from_str("  load: `");
    t.append(name);
    t.append("` (");
    t.append(tier);
    t.append(") ");
    if added {
        t.append("added as ");
        t.append(kind);
        t.append(":0, which this deck had no node for");
    } else {
        t.append("written over ");
        t.append(kind);
        t.append(":0");
    }
    t.append(" on deck ");
    t.append(letter);
    t.append(
        " — the slot is recompiling on the worker with every other layer where it was, and the staging lane says whether the build landed, was overloaded or did not compile",
    );
    t
}

/// Where a procedure's source was found: `kept` in the store, ahead of
/// `shipped` with the presets — and where neither has it, the refusal that
/// says the row has gone (`procedures` is the store's directory for them).
pub open spec fn source_tier_text(kept: bool, shipped: bool, name: Seq<char>, procedures: Seq<char>) -> Result<Seq<char>, Seq<char>> {
    if kept {
        Ok("kept"@)
    } else if shipped {
        Ok("shipped"@)
    } else {
        Err(
            "no procedure named `"@ + name + "` — this store's `"@ + procedures
                + "/` does not hold one and the presets root does not ship one, so the row it was listed under has gone since the listing was built"@,
        )
    }
}

/// [`source_tier_text`]: `kept` is whether the store gave the source back,
/// `shipped` whether the presets did.
pub fn kept_source(kept: bool, shipped: bool, name: &str, procedures: &str) -> (r: Result<&'static str, String>)
    ensures
        match (r, source_tier_text(kept, shipped, name@, procedures@)) {
            (Ok(a), Ok(b)) => a@ == b,
            (Err(a), Err(b)) => a@ == b,
            _ => false,
        },
        r is Ok <==> kept || shipped,
        kept ==> (r matches Ok(t) && t@ == "kept"@),
        !kept && shipped ==> (r matches Ok(t) && t@ == "shipped"@),
{
    proof {
        reveal_strlit("kept");
        reveal_strlit("shipped");
    }
    if kept {
        Ok("kept")
    } else if shipped {
        Ok("shipped")
    } else {
        let mut t = String::from_str("no procedure named `");
        t.append(name);
        t.append("` — this store's `");
        t.append(procedures);
        t.append(
            "/` does not hold one and the presets root does not ship one, so the row it was listed under has gone since the listing was built",
        );
        Err(t)
    }
}

} // verus!
