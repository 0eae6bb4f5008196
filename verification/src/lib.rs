//! Mining-share ecash issuance: quotes, keysets, blind signatures and the
//! wallet and mint rules around them.

pub mod amount;
pub mod error;
pub mod util;
pub mod table;
pub mod secp;
pub mod nuts;
pub mod dhke;
pub mod quote_id;
pub mod types;
pub mod hashpool;
pub mod cln;
pub mod wallet;
pub mod mint;
pub mod laws;
