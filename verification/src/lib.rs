//! Ownership-gated records at deterministically derived addresses.
//!
//! An owner opens a record at the address derived from their key and a
//! nonce, and funds it. Only the owner can close it again, and closing
//! returns exactly what the record holds. The ledger keeps every balance;
//! no request creates or loses a unit.

pub mod address;
pub mod context;
pub mod error;
pub mod laws;
pub mod ledger;
pub mod lifecycle;
pub mod model;
pub mod pubkey;
pub mod record;
pub mod totals;

pub use crate::context::{AccountInfo, Close, Initialize};
pub use crate::error::ErrorCode;
pub use crate::ledger::Ledger;
pub use crate::lifecycle::{close, initialize, open_at};
pub use crate::pubkey::Pubkey;
pub use crate::record::OpenAccount;
