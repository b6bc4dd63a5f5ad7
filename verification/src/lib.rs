//! Construction, balancing and authorization of ledger transactions.
//!
//! The crate models exact 64-bit monetary values, inputs drawn from
//! unspent outputs or accounts, outputs, an optional certificate, and the
//! pipeline that turns them into a signed transaction: a mutable builder
//! accumulates the pieces, a fee policy and a change policy settle the
//! balance, and a finalizer collects one witness per input.

pub mod address;
pub mod builder;
pub mod certificate;
pub mod codec;
pub mod digest;
pub mod encoding;
pub mod error;
pub mod fee;
pub mod finalizer;
pub mod fragment;
pub mod keys;
pub mod provider;
pub mod transaction;
pub mod value;
pub mod witness;
