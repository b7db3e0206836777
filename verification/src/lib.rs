//! The decisions and the sentences of a live-visuals console's bridge: what a
//! press on a strip, a pane or a library row means, and what the terminal and
//! a model are told about it.
use vstd::prelude::*;

pub mod aiming;
pub mod declared;
pub mod feedback;
pub mod inspector;
pub mod keys;
pub mod frame;
pub mod history;
pub mod layer;
pub mod library;
pub mod listing;
pub mod loading;
pub mod marks;
pub mod master;
pub mod material;
pub mod mixer;
pub mod order;
pub mod pointer;
pub mod pane;
pub mod readings;
pub mod records;
pub mod saving;
pub mod sequencer;
pub mod staging;
pub mod taking;
pub mod text;

verus! {

} // verus!
