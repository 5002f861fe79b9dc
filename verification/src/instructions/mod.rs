//! State transitions: what each instruction checks and changes, from plain
//! values to plain values. Moving tokens is left to the caller, who is told
//! the amount.

pub mod admin;
pub mod claim;
pub mod funding;
