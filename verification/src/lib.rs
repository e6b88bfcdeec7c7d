//! Core of a P25 (Project 25) Phase 1 baseband library.
//!
//! Two subsystems make up the crate: the BCH(63,16,23) coder/decoder over
//! GF(2^6) (systematic encoding, syndrome computation, Berlekamp-Massey
//! error-locator synthesis, and Chien search), and the C4FM symbol shaper
//! that turns a dibit stream into scaled impulses at symbol boundaries.

pub mod galois;
pub mod polynomial;
pub mod bmcf;
pub mod bch;
pub mod baseband;
pub mod values;
