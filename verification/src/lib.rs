//! Verified engine for scanning daily OHLCV bar series of listed equities for
//! technical-analysis patterns: candlestick shapes, MACD-style crossovers,
//! rolling-window statistics, and composite multi-day reversal rules.
//!
//! Prices are carried as integers in hundredths of a currency unit; the
//! surrounding application converts external textual or floating-point data
//! before it enters the engine and renders the results afterwards.

pub mod candlestick;
pub mod cfg;
pub mod common;
pub mod complex;
pub mod data;
pub mod data_company;
pub mod doji;
pub mod engulfing;
pub mod macd;
pub mod macd_scan;
pub mod volume;
