//! A bump allocator for the 256 KB working-RAM window of a handheld console.
//!
//! Addresses are plain integers: the allocator decides where blocks go and
//! never touches the memory behind them.

pub mod align;
pub mod allocator;
pub mod config;
pub mod model;
pub mod region;
