//! A harness that times the decoding of varint (LEB128) streams: it loads
//! fixture streams with zero padding behind them, replays them through a
//! checked decoder, and gathers the totals that throughput figures come from.
pub mod config;
pub mod fixture;
pub mod metrics;
pub mod runner;
pub mod validate;
pub mod varint;
