pub mod types;
pub mod date_index;
pub mod monitor;
pub mod pallet;

pub use pallet::{GenesisConfig, Pallet, Reaction};
pub use types::{Error, Event, Post, PostPointer, UserSystemItem};
