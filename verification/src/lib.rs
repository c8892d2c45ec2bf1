//! A fungible-token ledger for one isolated token instance.
//!
//! The ledger tracks per-account balances and delegated spending rights
//! (allowances) and enforces administrative controls — a fixed owner, a
//! global pause flag, and a per-account blacklist — over who may move
//! funds. The caller's identity is passed explicitly into every
//! operation, and each mutating operation returns the notification
//! record it emits, so the core stays pure and checkable without any
//! hosting environment.

pub mod account;
pub mod admin;
pub mod allowances;
pub mod batch;
pub mod engine;
pub mod errors;
pub mod events;
pub mod laws;
pub mod ledger;
pub mod token;

pub use account::AccountId;
pub use errors::TokenError;
pub use events::Approval;
pub use events::Burn;
pub use events::Mint;
pub use events::Transfer;
pub use token::SimpleToken;
