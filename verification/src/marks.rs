//! What an operator leaves marked in the store — a star on a Set, and a named
//! arrangement of the console — and what is said when one is put on, taken
//! off, kept or put back.
use vstd::prelude::*;

use crate::saving::Asked;
use crate::taking::{joined, joined_path};
use crate::text::{decimal, numeral};

verus! {

/// `starred` or `unstarred`.
pub open spec fn star_word(favourite: bool) -> Seq<char> {
    if favourite {
        "starred"@
    } else {
        "unstarred"@
    }
}

/// A model's star is refused out loud: `my sets` is the list the operator
/// chose, and the refusal says where the mark is for them to press.
pub open spec fn star_refused_text(id: Seq<char>, favourite: bool) -> Seq<char> {
    "star: `"@ + id + "` was not "@ + star_word(favourite)
        + " — `my sets` is the list of Sets the operator chose, and a star is theirs to put on: it is one press on the mark at the left of that row in the Library bay, under `all`. The Set itself is untouched and is listed there"@
}

/// Whether a star asked for is refused before the store is touched: it is
/// where a model asked, and never where the operator did.
pub fn star_refused(asked: Asked, id: &str, favourite: bool) -> (r: Option<String>)
    ensures
        asked is Model ==> (r matches Some(t) && t@ == star_refused_text(id@, favourite)),
        asked is Operator ==> r is None,
{
    proof {
        reveal_strlit("starred");
        reveal_strlit("unstarred");
    }
    match asked {
        Asked::Model => {
            let mut t = String::from_str("star: `");
            t.append(id);
            t.append("` was not ");
            t.append(
                if favourite {
                    "starred"
                } else {
                    "unstarred"
                },
            );
            t.append(
                " — `my sets` is the list of Sets the operator chose, and a star is theirs to put on: it is one press on the mark at the left of that row in the Library bay, under `all`. The Set itself is untouched and is listed there",
            );
            Some(t)
        },
        Asked::Operator => None,
    }
}

/// What is said of a star after the store was asked to set it: `wrote` is
/// whether the mark moved, or why it could not be written. A star already as
/// asked is no refusal — nothing was written, and that is said.
pub open spec fn starred_text(id: Seq<char>, favourite: bool, wrote: Result<bool, Seq<char>>) -> Seq<
    char,
> {
    match wrote {
        Ok(true) => "star: `"@ + id + "` "@ + (if favourite {
            "is starred"@
        } else {
            "has its star off"@
        }) + " — `my sets` is the starred subset of `all`, and this row is "@ + (if favourite {
            "in"@
        } else {
            "out of"@
        }) + " it"@,
        Ok(false) => "star: `"@ + id + "` was already "@ + star_word(favourite)
            + ", so nothing was written"@,
        Err(e) => "star: `"@ + id + "` was not "@ + star_word(favourite) + ": "@ + e,
    }
}

/// [`starred_text`].
pub fn starred(id: &str, favourite: bool, wrote: &Result<bool, String>) -> (r: String)
    ensures
        r@ == starred_text(
            id@,
            favourite,
            match wrote {
                Ok(b) => Ok(*b),
                Err(e) => Err(e@),
            },
        ),
{
    proof {
        reveal_strlit("starred");
        reveal_strlit("unstarred");
        reveal_strlit("is starred");
        reveal_strlit("has its star off");
        reveal_strlit("in");
        reveal_strlit("out of");
    }
    let word = if favourite {
        "starred"
    } else {
        "unstarred"
    };
    let mut t = String::from_str("star: `");
    t.append(id);
    match wrote {
        Ok(true) => {
            t.append("` ");
            t.append(
                if favourite {
                    "is starred"
                } else {
                    "has its star off"
                },
            );
            t.append(" — `my sets` is the starred subset of `all`, and this row is ");
            t.append(
                if favourite {
                    "in"
                } else {
                    "out of"
                },
            );
            t.append(" it");
        },
        Ok(false) => {
            t.append("` was already ");
            t.append(word);
            t.append(", so nothing was written");
        },
        Err(e) => {
            t.append("` was not ");
            t.append(word);
            t.append(": ");
            t.append(e.as_str());
        },
    }
    t
}

/// What came of keeping an arrangement whose name `checked_name` accepted.
#[derive(Debug)]
pub enum Keeping {
    /// The arrangement did not serialise, for this reason.
    Unserialised(String),
    /// The store took this many bytes.
    Written(usize),
    /// The store refused the write, for this reason.
    Unwritten(String),
}

/// Where a kept arrangement is filed under the store `root`, as displayed.
pub open spec fn arrangement_path(root: Seq<char>, name: Seq<char>) -> Seq<char> {
    joined_path(joined_path(root, "arrangements"@), name + ".arrangement.json"@)
}

/// The line a keep comes to, and whether the arrangement landed.
pub open spec fn kept_text(name: Seq<char>, root: Seq<char>, keeping: Keeping) -> (Seq<char>, bool) {
    match keeping {
        Keeping::Unserialised(e) => (
            "arrangement: `"@ + name + "` was not kept — it did not serialise: "@ + e@,
            false,
        ),
        Keeping::Written(n) => (
            "arrangement: kept as `"@ + name + "` — "@ + decimal(n as nat) + " bytes at "@
                + arrangement_path(root, name),
            true,
        ),
        Keeping::Unwritten(e) => ("arrangement: `"@ + name + "` was not kept: "@ + e@, false),
    }
}

/// [`kept_text`], for an arrangement kept as `name` in the store at `root`.
pub fn keep_arrangement(name: &str, root: &str, keeping: &Keeping) -> (r: (String, bool))
    ensures
        (r.0@, r.1) == kept_text(name@, root@, *keeping),
{
    proof {
        reveal_strlit("arrangements");
        reveal_strlit(".arrangement.json");
    }
    match keeping {
        Keeping::Unserialised(e) => {
            let mut t = String::from_str("arrangement: `");
            t.append(name);
            t.append("` was not kept — it did not serialise: ");
            t.append(e.as_str());
            (t, false)
        },
        Keeping::Written(n) => {
            let dir = joined(root, "arrangements");
            let mut file = String::from_str(name);
            file.append(".arrangement.json");
            let path = joined(dir.as_str(), file.as_str());
            let mut t = String::from_str("arrangement: kept as `");
            t.append(name);
            t.append("` — ");
            let count = numeral(*n as u64);
            t.append(count.as_str());
            t.append(" bytes at ");
            t.append(path.as_str());
            (t, true)
        },
        Keeping::Unwritten(e) => {
            let mut t = String::from_str("arrangement: `");
            t.append(name);
            t.append("` was not kept: ");
            t.append(e.as_str());
            (t, false)
        },
    }
}

/// What came of putting an arrangement back.
#[derive(Debug)]
pub enum Restoring {
    /// There is no store at the root: nothing is read, and the console does
    /// not move.
    NoStore,
    /// The store could not give the arrangement back, for this reason —
    /// a name nothing is filed under among them.
    Unread(String),
    /// The file read, and disagrees with itself: refused whole.
    Refused(String),
    /// The arrangement is back, in the window as it already was, of this
    /// width and height.
    Back { w: String, h: String },
}

/// The line putting an arrangement back comes to, and whether it is back.
pub open spec fn restored_text(name: Seq<char>, root: Seq<char>, restoring: Restoring) -> (
    Seq<char>,
    bool,
) {
    match restoring {
        Restoring::NoStore => (
            "arrangement: no store at "@ + root + ", so nothing is filed under `"@ + name
                + "` — and the console has not moved"@,
            false,
        ),
        Restoring::Unread(e) => ("arrangement: `"@ + name + "` is not back — "@ + e@, false),
        Restoring::Refused(e) => (
            "arrangement: `"@ + name
                + "` is not back — the file disagrees with itself and is refused rather than repaired: "@
                + e@,
            false,
        ),
        Restoring::Back { w, h } => (
            "arrangement: `"@ + name + "` is back, at the "@ + w@ + " x "@ + h@
                + " this window already had"@,
            true,
        ),
    }
}

/// [`restored_text`], for the arrangement `name` out of the store at `root`.
pub fn put_arrangement_back(name: &str, root: &str, restoring: &Restoring) -> (r: (String, bool))
    ensures
        (r.0@, r.1) == restored_text(name@, root@, *restoring),
{
    match restoring {
        Restoring::NoStore => {
            let mut t = String::from_str("arrangement: no store at ");
            t.append(root);
            t.append(", so nothing is filed under `");
            t.append(name);
            t.append("` — and the console has not moved");
            (t, false)
        },
        Restoring::Unread(e) => {
            let mut t = String::from_str("arrangement: `");
            t.append(name);
            t.append("` is not back — ");
            t.append(e.as_str());
            (t, false)
        },
        Restoring::Refused(e) => {
            let mut t = String::from_str("arrangement: `");
            t.append(name);
            t.append(
                "` is not back — the file disagrees with itself and is refused rather than repaired: ",
            );
            t.append(e.as_str());
            (t, false)
        },
        Restoring::Back { w, h } => {
            let mut t = String::from_str("arrangement: `");
            t.append(name);
            t.append("` is back, at the ");
            t.append(w.as_str());
            t.append(" x ");
            t.append(h.as_str());
            t.append(" this window already had");
            (t, true)
        },
    }
}

} // verus!
