//! A two-player treasure hunt with commit-reveal fairness: each player
//! buries a secret coordinate behind a SHA-256 commitment, the players dig
//! in turns, and the first to reveal the opponent's secret wins.
pub mod address;
pub mod commitment;
pub mod contract;
pub mod error;
pub mod host;
pub mod laws;
pub mod ledger;
pub mod room;

pub use address::Address;
pub use commitment::{commitment_preimage, compute_commitment, digests_equal, verify_commitment};
pub use contract::{DataKey, PiratesTreasure};
pub use host::{Host, HubEnd, HubStart, RecordingHost};
pub use error::Error;
pub use room::{DigRecord, Phase, Room};
