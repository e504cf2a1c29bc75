//! Transaction graph of a two-party payment channel: an ordered store of
//! transaction templates keyed by role and sequence number, a deterministic
//! commitment-transaction renderer, and a linker that rewrites stored HTLC
//! templates to spend the rendered commitment's outputs.

pub mod funding;
pub mod graph;
pub mod iter;
pub mod laws;
pub mod psbt;
pub mod render;
