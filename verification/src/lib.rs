//! A fixed-capacity set of small non-negative integers packed into one
//! 128-bit word.
//!
//! A [`BitSet`] of capacity `c`, at most 128, holds elements below `c`. Bit
//! `i` of its word is one exactly when `i` is a member. Elements are added,
//! removed and asked for one at a time; an element outside the domain, or a
//! removal of what is not there, is answered with a [`BitSetError`] and
//! changes nothing.
//!
//! - `set` holds the set and its operations, each with its contract.
//! - `model` holds what a set stands for, a mathematical set of naturals and
//!   a capacity, and what each operation does to it.
//! - `laws` holds what is proved of every set.
//! - `bits` holds the facts about the bits of a word that the proofs rest on.
//! - `error` holds the two ways in which an operation fails.

pub mod bits;
pub mod error;
pub mod laws;
pub mod model;
pub mod set;

pub use crate::error::BitSetError;
pub use crate::set::BitSet;
