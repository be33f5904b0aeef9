//! Turns the Standard-JSON output of a Solidity compiler into one flat
//! artifact record per compiled contract, and assembles the request that is
//! handed to the compiler.
//!
//! The reading of sources from disk, the call of the compiler and the writing
//! of artifact files happen around this library: it computes the values in
//! between and states, in its contracts, what each of them is.

pub mod model;
pub mod decompose;
pub mod request;
pub mod sources;
pub mod writer;
