//! A verified polling ledger: principals create polls with a fixed set of
//! options, other principals cast exactly one vote each, and the creator may
//! close voting.
//!
//! Records live at deterministically derived storage addresses; the mere
//! existence of a vote marker at its derived address is the double-vote guard.

pub mod addr;
pub mod errors;
pub mod records;
pub mod derivation;
pub mod events;
pub mod ledger;
pub mod handlers;
pub mod laws;
