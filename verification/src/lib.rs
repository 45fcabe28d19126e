//! Weighted random selection over a dense, append-only set of slots, and a
//! small simulation built on it.
//!
//! A slot is created with a weight, its weight can later be changed, and a
//! slot can be switched off so that it is never drawn again. Drawing a slot
//! costs a logarithmic number of partial-sum queries on a Fenwick tree.
//!
//! - [`sums`]: partial sums of integer sequences, in which the contracts speak.
//! - [`slots`]: the state of a collection as plain mathematics.
//! - [`random`]: the collections themselves.
//! - [`history`]: what holds after every run of operations.
//! - [`model`]: goblins that earn gold, are born and die.
//! - [`fenwick`], [`draw`]: the Fenwick tree and the random generator that
//!   the collections rest on, with what is taken on trust about them.

pub mod draw;
pub mod fenwick;
pub mod history;
pub mod model;
pub mod random;
pub mod slots;
pub mod sums;
