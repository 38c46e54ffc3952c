//! A first-in-first-out queue built as a singly linked chain of nodes with a
//! sentinel at the head, the structure of a classic two-lock concurrent queue.
//! This crate verifies the chain manipulation itself: construction, push, pop,
//! bulk construction and draining, each with a contract over the sequence of
//! queued values.

pub mod tlqueue;
