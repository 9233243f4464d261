//! A simulated scalping engine for a spot or futures market.
use vstd::prelude::*;

pub mod fixed;
pub mod parse;
pub mod market;
pub mod feed;
pub mod position;
pub mod metrics;
pub mod logger;
pub mod strategy;
pub mod orderbook;
pub mod text;

verus! {
} // verus!
