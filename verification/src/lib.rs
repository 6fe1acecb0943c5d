//! Guardian-based account recovery for custodial wallets.
//!
//! A wallet record names an owner and a set of guardians. Guardians are added
//! in a pending state and become active only after a timelock; once active, a
//! quorum of them can transfer ownership of the wallet to a new principal
//! through a recovery attempt, while fund movement is blocked for the whole
//! episode. Every operation is a pure transition on the records it is handed,
//! with the clock injected as an argument, so the hosting runtime only has to
//! execute each call atomically.

pub mod errors;
pub mod laws;
pub mod principal;
pub mod recovery;
pub mod store;
pub mod timelock;
pub mod wallet;
