//! Decoders for a board-observation sampler.
//!
//! A remote page marks each piece with a whitespace-delimited class list
//! (piece marker, piece kind, board square, optional drag flag) and places it
//! with a CSS `matrix(...)` transform. This crate holds the verified half of
//! the sampler: the pure decoders that turn those two attribute strings into
//! a structured piece record, and the snapshot assembly that runs them over
//! the raw elements of one poll cycle. The browser round-trips themselves
//! live outside the crate and hand in plain strings.

pub mod classlist;
pub mod piece;
pub mod poll;
pub mod snapshot;
pub mod transform;
