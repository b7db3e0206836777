//! Which readings an operation's record needs taken off what is running.
//!
//! A record is written whole — a look, a mask, a slot's clock — while a
//! press names a part of it; the rest is read off the deck (or the console)
//! at the press. This says which of those readings a press needs, and for
//! which slot; taking them is the deck's.
use vstd::prelude::*;

use crate::mixer::{held, holds_slot, EngineSlot};

verus! {

/// An operation, as far as the readings it needs tell operations apart.
#[derive(Clone, Copy, Debug)]
pub enum Asking {
    /// One of the master chain's three passes.
    SetFeedback,
    SetBloom,
    SetRgbShift,
    /// A parameter of one pass of the chain, or a pass added or taken out.
    SetChainParam,
    AddChainEffect,
    RemoveChainEffect,
    /// The look's operator, or its exposure.
    SetTonemap,
    SetExposure,
    /// A relative move of one slot's scrub.
    ScrubDeck { deck: u8 },
    /// A slot put on the session's beat grid, or taken off it.
    SetSync,
    /// A slot's mask shape, or where its front is.
    SetMaskShape { deck: u8 },
    SetMaskPosition { deck: u8 },
    /// A wipe onto the slot `to`.
    Wipe { to: u8 },
    /// The moves that are scheduled rather than landing now.
    FadeDeck,
    Crossfade,
    SelectRenderer,
    /// Anything else, which needs no reading: its record carries all it
    /// says.
    Other,
}

/// The readings an operation needs: the running look, the running master
/// chain, a slot's clock, the session tempo, a slot's mask, the transition
/// settings, and where a slot sits in the mix — each slot one only where
/// the deck holds the slot the operation names — and the armed pattern's
/// lanes, which belong to no deck and are read for every operation: which
/// lanes hold which controls is what tells a hand's write from a lane's.
#[derive(Clone, Copy, Debug)]
pub struct Wanted {
    pub look: bool,
    pub chain: bool,
    pub transport: Option<EngineSlot>,
    pub tempo: bool,
    pub mask: Option<EngineSlot>,
    pub transition: bool,
    pub mix: Option<EngineSlot>,
    pub lanes: bool,
}

/// The slot an operation's reading is taken for, where the deck of
/// `slot_count` slots holds it.
pub open spec fn slot_reading(slot: u8, slot_count: nat) -> Option<EngineSlot> {
    if holds_slot(slot as int, slot_count as int) {
        Some(EngineSlot(slot))
    } else {
        None
    }
}

/// [`Wanted`], for each operation.
pub open spec fn wanted_of(asking: Asking, slot_count: nat) -> Wanted {
    Wanted {
        look: asking is SetTonemap || asking is SetExposure,
        chain: asking is SetFeedback || asking is SetBloom || asking is SetRgbShift
            || asking is SetChainParam || asking is AddChainEffect || asking is RemoveChainEffect,
        transport: match asking {
            Asking::ScrubDeck { deck } => slot_reading(deck, slot_count),
            _ => None,
        },
        tempo: asking is SetSync,
        mask: match asking {
            Asking::SetMaskShape { deck } => slot_reading(deck, slot_count),
            Asking::SetMaskPosition { deck } => slot_reading(deck, slot_count),
            Asking::Wipe { to } => slot_reading(to, slot_count),
            _ => None,
        },
        transition: asking is FadeDeck || asking is Crossfade || asking is SelectRenderer
            || asking is Wipe,
        mix: match asking {
            Asking::Wipe { to } => slot_reading(to, slot_count),
            _ => None,
        },
        lanes: true,
    }
}

/// The readings `asking` needs on a deck of `slot_count` slots.
pub fn reading(asking: Asking, slot_count: usize) -> (r: Wanted)
    ensures
        r == wanted_of(asking, slot_count as nat),
        asking is FadeDeck || asking is Crossfade || asking is SelectRenderer || asking is Wipe
            <==> r.transition,
        asking is SetTonemap || asking is SetExposure <==> r.look,
        asking is SetSync <==> r.tempo,
        r.lanes,
{
    let look = match asking {
        Asking::SetTonemap | Asking::SetExposure => true,
        _ => false,
    };
    let chain = match asking {
        Asking::SetFeedback | Asking::SetBloom | Asking::SetRgbShift | Asking::SetChainParam
        | Asking::AddChainEffect | Asking::RemoveChainEffect => true,
        _ => false,
    };
    let transport = match asking {
        Asking::ScrubDeck { deck } => held(slot_count, deck),
        _ => None,
    };
    let tempo = match asking {
        Asking::SetSync => true,
        _ => false,
    };
    let mask = match asking {
        Asking::SetMaskShape { deck } => held(slot_count, deck),
        Asking::SetMaskPosition { deck } => held(slot_count, deck),
        Asking::Wipe { to } => held(slot_count, to),
        _ => None,
    };
    let transition = match asking {
        Asking::FadeDeck | Asking::Crossfade | Asking::SelectRenderer | Asking::Wipe { .. } => true,
        _ => false,
    };
    let mix = match asking {
        Asking::Wipe { to } => held(slot_count, to),
        _ => None,
    };
    Wanted { look, chain, transport, tempo, mask, transition, mix, lanes: true }
}

/// Every operation that writes a mask reads the running one, so that what
/// it does not name — the shape, the angle, the soft edge, the front — is
/// written back as it was: a shape press, a front move and a wipe alike.
pub proof fn law_every_mask_write_reads_the_mask(deck: u8, slot_count: nat)
    requires
        holds_slot(deck as int, slot_count as int),
    ensures
        wanted_of(Asking::SetMaskShape { deck }, slot_count).mask == Some(EngineSlot(deck)),
        wanted_of(Asking::SetMaskPosition { deck }, slot_count).mask == Some(EngineSlot(deck)),
        wanted_of(Asking::Wipe { to: deck }, slot_count).mask == Some(EngineSlot(deck)),
{
}

/// Every move that is scheduled rather than landing now — a deck fade, a
/// crossfade, a renderer selection and a wipe — reads the running
/// transition settings, and no other operation does.
pub proof fn law_every_scheduled_move_reads_the_transition(asking: Asking, slot_count: nat)
    ensures
        asking is FadeDeck ==> wanted_of(asking, slot_count).transition,
        asking is Crossfade ==> wanted_of(asking, slot_count).transition,
        asking is SelectRenderer ==> wanted_of(asking, slot_count).transition,
        asking is Wipe ==> wanted_of(asking, slot_count).transition,
        wanted_of(asking, slot_count).transition ==> (asking is FadeDeck || asking is Crossfade
            || asking is SelectRenderer || asking is Wipe),
{
}

/// Every write to the master chain — one of its three passes, a parameter
/// of a pass, a pass added or taken out — reads the running chain, and
/// every write to the look — its operator or its exposure — reads the
/// running look; no other operation reads either.
pub proof fn law_every_chain_or_look_write_reads_what_runs(asking: Asking, slot_count: nat)
    ensures
        (asking is SetFeedback || asking is SetBloom || asking is SetRgbShift
            || asking is SetChainParam || asking is AddChainEffect || asking is RemoveChainEffect)
            <==> wanted_of(asking, slot_count).chain,
        (asking is SetTonemap || asking is SetExposure) <==> wanted_of(asking, slot_count).look,
{
}

/// A relative scrub reads the clock of the slot it moves, putting a slot on
/// the beat grid reads the session tempo, and a wipe reads where the slot
/// it lands on sits in the mix; an operation naming a slot the deck does
/// not hold reads nothing of it, and every operation reads the armed
/// pattern's lanes.
pub proof fn law_each_slot_reading_is_of_the_slot_named(asking: Asking, slot_count: nat)
    ensures
        asking matches Asking::ScrubDeck { deck } ==> wanted_of(asking, slot_count).transport
            == (if (deck as nat) < slot_count { Some(EngineSlot(deck)) } else { None }),
        !(asking is ScrubDeck) ==> wanted_of(asking, slot_count).transport is None,
        asking is SetSync <==> wanted_of(asking, slot_count).tempo,
        asking matches Asking::Wipe { to } ==> wanted_of(asking, slot_count).mix == (if (to as nat)
            < slot_count { Some(EngineSlot(to)) } else { None }),
        !(asking is Wipe) ==> wanted_of(asking, slot_count).mix is None,
        !(asking is SetMaskShape || asking is SetMaskPosition || asking is Wipe) ==> wanted_of(
            asking,
            slot_count,
        ).mask is None,
        wanted_of(asking, slot_count).lanes,
{
}

} // verus!
