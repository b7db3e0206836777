//! What a keep and a send came back with, in the one sentence each is said
//! in.
use vstd::prelude::*;

verus! {

/// Whose act a keep or a save is: an operator's hand, or a model's request.
#[derive(Clone, Copy, Debug, PartialEq, Eq, Structural)]
pub enum Asked {
    Operator,
    Model,
}

/// What a send came back with: the Set packaged, where it was sent (the
/// path as it is displayed, or `None` where the dialog was dismissed), and
/// whether the write succeeded.
#[derive(Debug)]
pub struct Sent {
    pub id: String,
    pub to: Option<String>,
    pub outcome: Result<(), String>,
}

/// The sentence a send's outcome is said in: dismissed, written, or not
/// written with what the disk said.
pub open spec fn sent_text(id: Seq<char>, to: Option<Seq<char>>, outcome: Result<(), Seq<char>>) -> Seq<
    char,
> {
    match to {
        None => "  send: `"@ + id
            + "` was not written — the save dialog was dismissed, and nothing was asked of the disk"@,
        Some(path) => match outcome {
            Ok(()) => "  send: `"@ + id + "` written to `"@ + path + "`"@,
            Err(e) => "  send: `"@ + id + "` was not written to `"@ + path + "`: "@ + e,
        },
    }
}

impl Sent {
    /// The outcome's fields, as plain values.
    pub open spec fn seen(&self) -> (Seq<char>, Option<Seq<char>>, Result<(), Seq<char>>) {
        (
            self.id@,
            match self.to {
                Some(p) => Some(p@),
                None => None,
            },
            match self.outcome {
                Ok(()) => Ok(()),
                Err(e) => Err(e@),
            },
        )
    }

    /// [`sent_text`], for this outcome.
    pub fn said(&self) -> (r: String)
        ensures
            r@ == sent_text(self.seen().0, self.seen().1, self.seen().2),
    {
        match &self.to {
            None => {
                let mut s = String::from_str("  send: `");
                s.append(self.id.as_str());
                s.append(
                    "` was not written — the save dialog was dismissed, and nothing was asked of the disk",
                );
                s
            },
            Some(to) => match &self.outcome {
                Ok(()) => {
                    let mut s = String::from_str("  send: `");
                    s.append(self.id.as_str());
                    s.append("` written to `");
                    s.append(to.as_str());
                    s.append("`");
                    s
                },
                Err(e) => {
                    let mut s = String::from_str("  send: `");
                    s.append(self.id.as_str());
                    s.append("` was not written to `");
                    s.append(to.as_str());
                    s.append("`: ");
                    s.append(e.as_str());
                    s
                },
            },
        }
    }
}

/// What a keep came back with: whose act it was, what it was filed as, the
/// address of the node it kept, and where the file went (the path as it is
/// displayed) or what stopped it.
#[derive(Debug)]
pub struct Kept {
    pub asked: Asked,
    pub name: String,
    pub addr: String,
    pub outcome: Result<String, String>,
}

/// The sentence a keep's outcome is said in: `Ok` with the line for a kept
/// procedure — the operator's library or a model's sandbox — or `Err` with the
/// refusal.
pub open spec fn kept_text(
    asked: Asked,
    name: Seq<char>,
    addr: Seq<char>,
    outcome: Result<Seq<char>, Seq<char>>,
) -> Result<Seq<char>, Seq<char>> {
    match outcome {
        Ok(path) => Ok(
            match asked {
                Asked::Operator => "  keep: "@ + addr + " kept as procedure `"@ + name + "` — `"@
                    + path
                    + "`. The Library bay lists it, and a press on that row writes it over that layer of what a deck is playing"@,
                Asked::Model => "  keep: "@ + addr + " kept as `"@ + name + "` in the sandbox — `"@
                    + path
                    + "`. A keep asked for over MCP is written there rather than in the operator's library, so the Library bay does not list it and no load off a row reaches it"@,
            },
        ),
        Err(e) => Err("  keep: "@ + addr + ": procedure `"@ + name + "` was not kept: "@ + e),
    }
}

impl Kept {
    /// The outcome's fields, as plain values.
    pub open spec fn seen(&self) -> Result<Seq<char>, Seq<char>> {
        match self.outcome {
            Ok(p) => Ok(p@),
            Err(e) => Err(e@),
        }
    }

    /// [`kept_text`], for this outcome.
    pub fn said(&self) -> (r: Result<String, String>)
        ensures
            match r {
                Ok(s) => kept_text(self.asked, self.name@, self.addr@, self.seen()) == Ok::<
                    Seq<char>,
                    Seq<char>,
                >(s@),
                Err(s) => kept_text(self.asked, self.name@, self.addr@, self.seen()) == Err::<
                    Seq<char>,
                    Seq<char>,
                >(s@),
            },
    {
        match &self.outcome {
            Ok(path) => {
                let mut s = String::from_str("  keep: ");
                s.append(self.addr.as_str());
                match self.asked {
                    Asked::Operator => {
                        s.append(" kept as procedure `");
                        s.append(self.name.as_str());
                        s.append("` — `");
                        s.append(path.as_str());
                        s.append(
                            "`. The Library bay lists it, and a press on that row writes it over that layer of what a deck is playing",
                        );
                    },
                    Asked::Model => {
                        s.append(" kept as `");
                        s.append(self.name.as_str());
                        s.append("` in the sandbox — `");
                        s.append(path.as_str());
                        s.append(
                            "`. A keep asked for over MCP is written there rather than in the operator's library, so the Library bay does not list it and no load off a row reaches it",
                        );
                    },
                }
                Ok(s)
            },
            Err(e) => {
                let mut s = String::from_str("  keep: ");
                s.append(self.addr.as_str());
                s.append(": procedure `");
                s.append(self.name.as_str());
                s.append("` was not kept: ");
                s.append(e.as_str());
                Err(s)
            },
        }
    }
}


/// What each deck is running, as the nodes a Set file names: one entry per
/// slot, `None` for a slot whose last build's sources did not reach the
/// store — which saves nothing rather than guessing.
#[derive(Debug)]
pub struct Playing<T> {
    pub playing: Vec<Option<Vec<T>>>,
}

impl<T> Playing<T> {
    /// Every slot seeded, before the first frame, from the material the run
    /// compiled: `launched` holds each slot's copy of it, and a slot handed
    /// nothing is running nothing that has an address.
    pub fn at_launch(launched: Vec<Vec<T>>) -> (r: Playing<T>)
        ensures
            r.playing@.len() == launched@.len(),
            forall|i: int|
                0 <= i < launched@.len() ==> (#[trigger] r.playing@[i]) == if launched@[i]@.len() == 0 {
                    None
                } else {
                    Some(launched@[i])
                },
    {
        let ghost all = launched@;
        let mut playing: Vec<Option<Vec<T>>> = Vec::new();
        for nodes in it: launched
            invariant
                it.seq() == all,
                playing@.len() == it.index(),
                forall|i: int|
                    0 <= i < playing@.len() ==> (#[trigger] playing@[i]) == if all[i]@.len() == 0 {
                        None
                    } else {
                        Some(all[i])
                    },
        {
            if nodes.len() == 0 {
                playing.push(None);
            } else {
                playing.push(Some(nodes));
            }
        }
        Playing { playing }
    }

    /// What `slot` is running, or `None` for a slot with no address to name.
    pub fn at(&self, slot: usize) -> (r: Option<&Vec<T>>)
        ensures
            slot < self.playing@.len() && self.playing@[slot as int] is Some ==> r == Some(
                &self.playing@[slot as int]->0,
            ),
            !(slot < self.playing@.len() && self.playing@[slot as int] is Some) ==> r is None,
    {
        if slot < self.playing.len() {
            match &self.playing[slot] {
                Some(nodes) => Some(nodes),
                None => None,
            }
        } else {
            None
        }
    }

    /// A build landed on `slot`: the slot is on what it built, which is
    /// `None` where the build's sources never reached the store — still a
    /// swap, for the slot is on something new. A slot the deck has not got
    /// is left alone.
    pub fn landed(&mut self, slot: usize, nodes: Option<Vec<T>>)
        ensures
            slot < old(self).playing@.len() ==> final(self).playing@ == old(self).playing@.update(
                slot as int,
                nodes,
            ),
            slot >= old(self).playing@.len() ==> final(self).playing@ == old(self).playing@,
    {
        if slot >= self.playing.len() {
            return;
        }
        self.playing.set(slot, nodes);
    }
}


/// The name each of a build's `built` nodes is saved under: the name the
/// aim gave the file in the same place — its head and then the rest — and
/// none where the aim gave none, or has no file there.
pub open spec fn built_names_of(names: Seq<Option<String>>, built: nat) -> Seq<Option<Seq<char>>> {
    Seq::new(
        built,
        |i: int|
            if i < names.len() {
                match names[i] {
                    Some(n) => Some(n@),
                    None => None,
                }
            } else {
                None
            },
    )
}

/// The view of a list of optional names.
pub open spec fn names_view(s: Seq<Option<String>>) -> Seq<Option<Seq<char>>> {
    s.map_values(
        |n: Option<String>|
            match n {
                Some(t) => Some(t@),
                None => None,
            },
    )
}

/// [`built_names_of`].
pub fn built_names(names: &[Option<String>], built: usize) -> (r: Vec<Option<String>>)
    ensures
        names_view(r@) == built_names_of(names@, built as nat),
{
    let mut out: Vec<Option<String>> = Vec::new();
    let mut i: usize = 0;
    while i < built
        invariant
            i <= built,
            names_view(out@) == built_names_of(names@, built as nat).take(i as int),
        decreases built - i,
    {
        let name = if i < names.len() {
            match &names[i] {
                Some(n) => Some(n.clone()),
                None => None,
            }
        } else {
            None
        };
        let ghost was = names_view(out@);
        out.push(name);
        assert(names_view(out@) =~= was.push(built_names_of(names@, built as nat)[i as int]));
        assert(names_view(out@) =~= built_names_of(names@, built as nat).take(i + 1));
        i += 1;
    }
    assert(built_names_of(names@, built as nat).take(i as int) =~= built_names_of(names@, built as nat));
    out
}

} // verus!
