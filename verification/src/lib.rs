//! A minimal synthetic-asset ledger.
//!
//! The crate keeps two linked balance pools — a short pool and a long pool —
//! that represent opposing positions on an underlying asset. The short pool is
//! minted against posted collateral; the long pool is a claim against the short
//! supply and can never outgrow it. Each pool is a [`token::Token`] ledger
//! whose total supply is proved equal to the sum of its balances.
//!
//! Hosting concerns (caller identity, collateral custody, price oracles, event
//! delivery) stay outside: the market takes the caller, the collateral amount
//! and the looked-up price as plain values and returns the minted-token event
//! as a plain value.

pub mod error;
pub mod market;
pub mod token;

pub use error::Error;
pub use market::get_price;
pub use market::Synthetics;
pub use market::TokenMinted;
pub use token::AccountId;
pub use token::Balance;
pub use token::Token;
