//! Verified core of the quant platform: the reading of the feed and service
//! messages, the order book, signal, fill and risk decisions, rolling
//! windows, latency summaries and the integer bookkeeping of the research
//! backtests.
use vstd::prelude::*;

pub mod book;
pub mod execution;
pub mod feed;
pub mod json;
pub mod latency;
pub mod messages;
pub mod regime;
pub mod research;
pub mod risk;
pub mod strategy;
pub mod text;
pub mod window;

verus! {

} // verus!
