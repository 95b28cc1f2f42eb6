//! Live-game lookups for a match statistics site: identity keys, a
//! time-to-live cache of match snapshots shared by every participant, the
//! assembly of a snapshot from an upstream match record, and the text helpers
//! the pages are built from.

pub mod assembly;
pub mod cache;
pub mod decimal;
pub mod encounters;
pub mod fixed_string;
pub mod live_game;
pub mod match_details;
pub mod service;
pub mod stats;
pub mod summoner;
pub mod utils;
