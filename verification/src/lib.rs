//! Core ledger and transaction logic for a blockchain client: an
//! unspent-output index mapping output references ("slips") to the block
//! that consumed them, and a transaction record with a canonical byte
//! encoding, signing, and signature/input validation.

pub mod codec;
pub mod crypto;
pub mod shashmap;
pub mod slip;
pub mod time;
pub mod transaction;
