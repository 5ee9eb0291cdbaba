//! Interval-overlap matching.
//!
//! A scanner owns two fixed sequences of one-dimensional intervals, a small
//! segmentation set and a large data set, and walks the segmentation set in
//! order. For each segment it reports the data intervals whose overlap with the
//! segment exceeds a threshold, together with the overlap and the overlap as a
//! fraction of either interval's length.
//!
//! Interval bounds and every measured quantity are IEEE-754 binary64 numbers,
//! carried as their 64-bit patterns. This crate selects, compares, orders and
//! keeps count on the patterns themselves. The two operations that round,
//! subtraction and division, are the caller's: the kernel takes them as
//! functions on patterns, and says of its results what holds whatever they
//! return.

pub mod binary64;
pub mod columns;
pub mod interval;
pub mod kernel;
pub mod matrix;
pub mod scanner;
