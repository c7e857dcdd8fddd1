//! Small, allocation-free utilities for constrained targets.
//!
//! The only module so far is [`time`], which turns a Unix timestamp into a
//! civil date and time of day in a fixed-offset zone.

pub mod time;
