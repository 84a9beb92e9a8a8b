//! Bitcoin address derivation from BIP39 mnemonics, and the bookkeeping of a
//! scan that checks freshly generated mnemonics for funds.
//!
//! The cryptography is done by the `bip32`, `bip39`, `bitcoin` and
//! `bitcoin-address-generator` crates. Every call into them is made in
//! [`outside`], and each function there documents what is taken on trust.
//! Everything else in this crate is verified against the contracts stated on
//! the functions.

pub mod error;
pub mod network;
pub mod text;
pub mod path;
pub mod mnemonic;
pub mod outside;
pub mod hd;
pub mod address;
pub mod scan;
pub mod provider;
