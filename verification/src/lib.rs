//! The computing core of a financial-data pipeline: canonical ticker symbols
//! and technical indicators over price series.
//!
//! [`ticker`] reconciles the spellings of a symbol that brokers and data
//! vendors use. [`sma`], [`ema`], [`rsi`], [`macd`] and [`bbands`] compute
//! indicators that are index-aligned with their input, in the arithmetic of
//! [`arith`]. Every function is pure: it reads its arguments and returns a
//! value.

pub mod text;
pub mod tables;
pub mod ticker;
pub mod error;
pub mod arith;
pub mod sma;
pub mod ema;
pub mod rsi;
pub mod macd;
pub mod bbands;
pub mod exact;
