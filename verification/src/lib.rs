//! A proof-of-existence registry: claims (content fingerprints) are recorded
//! with their owner and the block height of registration, and can be revoked
//! or handed over by their owner.

pub mod claim;
pub mod laws;
pub mod model;
pub mod pallet;
pub mod rules;
pub mod types;

pub use claim::Claim;
pub use pallet::Pallet;
pub use types::{BlockHeight, ClaimRecord, Config, Error, Event, Identity};
