//! An automated trading decision engine: incremental indicator algorithms turn
//! price candles into directional signals, a signal manager turns signals into
//! position actions on an in-memory ledger, and a replay harness runs the same
//! pipeline over historical candles to produce performance statistics.
//!
//! Prices, margins and quantities are unsigned fixed-point integers.

pub mod account;
pub mod algorithm;
pub mod backtest;
pub mod bot;
pub mod indicators;
pub mod interval;
pub mod market;
pub mod metrics;
pub mod rules;
pub mod signal;
pub mod signing;
pub mod storage;
pub mod strategy;
pub mod types;
