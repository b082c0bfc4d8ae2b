//! A typing race for the terminal: the rules of the race, the roster of
//! players, the wire format spoken with the relay and the reproducible word
//! sequence that every peer derives from the session token.

pub mod control;
pub mod queue;
pub mod race;
pub mod reader;
pub mod roster;
pub mod screens;
pub mod sequence;
pub mod text;
pub mod types;
pub mod wire;
pub mod word;
