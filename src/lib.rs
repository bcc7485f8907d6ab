//! Escrowed order core of a small marketplace: fee arithmetic, order
//! validation, the order ledger with its admission cap, and the order
//! lifecycle.

pub mod fee;
pub mod error;
pub mod request;
pub mod ledger;
pub mod hex;
pub mod settings;
pub mod task;
