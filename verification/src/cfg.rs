//! Scan configuration: lookback windows and rule thresholds that callers may
//! override (for instance to shrink windows in small fixtures).

use vstd::prelude::*;

verus! {

/// Tunable constants shared by the composite detectors.
///
/// `limit_up_num` / `limit_up_den` define the "limit-up" move: a bar whose
/// close is at or near the regulatory daily ceiling relative to the previous
/// close, namely `curr.close * limit_up_den >= prev.close * limit_up_num`.
/// The default `109 / 100` accepts a close within about one percent of a
/// ten-percent ceiling.
#[derive(Clone, Copy, PartialEq, Eq, Structural, Debug)]
pub struct ScanCfg {
    /// Bars of history a composite detector demands before the target date.
    pub look_back_days: usize,
    /// Window length for the doji max/min scan.
    pub doji_range: usize,
    /// Volume floor, in thousands of shares, for the large-volume MACD scan.
    pub large_volume: u64,
    /// Numerator of the limit-up ratio.
    pub limit_up_num: u64,
    /// Denominator of the limit-up ratio.
    pub limit_up_den: u64,
}

impl ScanCfg {
    /// Bounds that keep every threshold comparison free of overflow, and a
    /// lookback deep enough for the widest detector window (six bars).
    pub open spec fn wf(&self) -> bool {
        &&& 6 <= self.look_back_days
        &&& 1 <= self.doji_range
        &&& 0 < self.limit_up_den <= self.limit_up_num
        &&& self.limit_up_num <= 100000
        &&& self.large_volume <= 0x1000_0000
    }

    /// The production settings: three months of lookback, a six-month doji
    /// window, a two-million-share volume floor, and a nine-percent limit-up
    /// threshold.
    pub fn new() -> (c: ScanCfg)
        ensures
            c.look_back_days == 60,
            c.doji_range == 120,
            c.large_volume == 2000,
            c.limit_up_num == 109,
            c.limit_up_den == 100,
            c.wf(),
    {
        ScanCfg {
            look_back_days: 60,
            doji_range: 120,
            large_volume: 2000,
            limit_up_num: 109,
            limit_up_den: 100,
        }
    }
}

} // verus!
