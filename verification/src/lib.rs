//! Ledger-state core of a blockchain full node.
//!
//! The ledger keeps the chain height and the ordered leaf sequence of the
//! record-commitment accumulator. Everything that touches the key-value
//! backend is expressed as a request the caller performs, followed by a
//! function that interprets the bytes the backend answered with, so that every
//! decision the ledger takes is a function of plain values.

pub mod bootstrap;
pub mod codec;
pub mod error;
pub mod genesis;
pub mod ledger;
pub mod order;
pub mod scanner;
pub mod store;
