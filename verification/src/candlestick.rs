//! Single-bar candlestick classification and the limit-up test.

use vstd::prelude::*;
use crate::cfg::ScanCfg;
use crate::data_company::StockData;

verus! {

/// One currency unit expressed in the engine's price scale (hundredths).
pub const PRICE_UNIT: u32 = 100;

/// The closed set of single-bar shapes, mutually exclusive, assigned in the
/// fixed priority order of [`spec_candlestick`].
#[derive(Clone, Copy, PartialEq, Eq, Structural, Debug)]
pub enum CandlestickType {
    LongRedCandle,
    LongGreenCandle,
    Doji,
    HangingMan,
    LongLowerShadow,
    LongUpperShadow,
    Unknown,
}

/// `|close - open|`: the candle's real body.
pub open spec fn spec_body_len(b: StockData) -> int {
    if b.close >= b.open {
        b.close - b.open
    } else {
        b.open - b.close
    }
}

/// `high - max(open, close)`: the wick above the body.
pub open spec fn spec_upper_shadow(b: StockData) -> int {
    b.high - (if b.open >= b.close { b.open } else { b.close })
}

/// `min(open, close) - low`: the wick below the body.
pub open spec fn spec_lower_shadow(b: StockData) -> int {
    (if b.open <= b.close { b.open } else { b.close }) - b.low
}

/// The day's range, floored at one currency unit so that the doji body
/// tightness test never degenerates when `high == low`.
pub open spec fn spec_range(b: StockData) -> int {
    if b.high - b.low >= PRICE_UNIT { b.high - b.low } else { PRICE_UNIT as int }
}

/// A body wider than five percent of the close.
pub open spec fn spec_long_body(b: StockData) -> bool {
    20 * spec_body_len(b) > b.close
}

/// A body tighter than one percent of the day's range, with neither end of
/// the body touching the day's extremes.
pub open spec fn spec_doji(b: StockData) -> bool {
    &&& 100 * spec_body_len(b) < spec_range(b)
    &&& b.open != b.high
    &&& b.open != b.low
    &&& b.close != b.high
    &&& b.close != b.low
}

/// Hanging man: a long lower shadow at least twice the body, with scarcely
/// any upper wick.  The exact thresholds are this engine's chosen
/// parameterization of the canonical "small body, long lower shadow,
/// negligible upper shadow" definition.
pub open spec fn spec_hanging_man(b: StockData) -> bool {
    &&& 20 * spec_lower_shadow(b) > b.close
    &&& spec_lower_shadow(b) >= 2 * spec_body_len(b)
    &&& 10 * spec_upper_shadow(b) <= b.high - b.low
}

/// The classification: first match in this order wins.
pub open spec fn spec_candlestick(b: StockData) -> CandlestickType {
    if spec_long_body(b) {
        if b.close > b.open {
            CandlestickType::LongRedCandle
        } else {
            CandlestickType::LongGreenCandle
        }
    } else if spec_doji(b) {
        CandlestickType::Doji
    } else if spec_hanging_man(b) {
        CandlestickType::HangingMan
    } else if 20 * spec_lower_shadow(b) > b.close {
        CandlestickType::LongLowerShadow
    } else if 20 * spec_upper_shadow(b) > b.close {
        CandlestickType::LongUpperShadow
    } else {
        CandlestickType::Unknown
    }
}

/// Classifies one bar into its shape category.
pub fn anal_candlestick(stock_data: &StockData) -> (r: CandlestickType)
    ensures
        r == spec_candlestick(*stock_data),
{
    let open = stock_data.open as i64;
    let close = stock_data.close as i64;
    let high = stock_data.high as i64;
    let low = stock_data.low as i64;

    let body_length = if close >= open { close - open } else { open - close };
    let upper_shadow = high - (if open >= close { open } else { close });
    let lower_shadow = (if open <= close { open } else { close }) - low;
    let range = if high - low >= PRICE_UNIT as i64 { high - low } else { PRICE_UNIT as i64 };

    if 20 * body_length > close {
        if close > open {
            CandlestickType::LongRedCandle
        } else {
            CandlestickType::LongGreenCandle
        }
    } else if 100 * body_length < range
        && open != high
        && open != low
        && close != high
        && close != low
    {
        CandlestickType::Doji
    } else if 20 * lower_shadow > close
        && lower_shadow >= 2 * body_length
        && 10 * upper_shadow <= high - low
    {
        CandlestickType::HangingMan
    } else if 20 * lower_shadow > close {
        CandlestickType::LongLowerShadow
    } else if 20 * upper_shadow > close {
        CandlestickType::LongUpperShadow
    } else {
        CandlestickType::Unknown
    }
}

/// A limit-up move: `curr` closed at or near the daily ceiling over `prev`'s
/// close, per the configured ratio.
pub open spec fn spec_limit_up(prev: StockData, curr: StockData, cfg: ScanCfg) -> bool {
    curr.close * cfg.limit_up_den >= prev.close * cfg.limit_up_num
}

/// Tests whether `curr` is a limit-up move relative to `prev`.
pub fn anal_limit_up(prev: &StockData, curr: &StockData, cfg: &ScanCfg) -> (r: bool)
    requires
        cfg.wf(),
    ensures
        r == spec_limit_up(*prev, *curr, *cfg),
{
    proof {
        vstd::arithmetic::mul::lemma_mul_upper_bound(
            curr.close as int, u32::MAX as int, cfg.limit_up_den as int, 100000,
        );
        vstd::arithmetic::mul::lemma_mul_upper_bound(
            prev.close as int, u32::MAX as int, cfg.limit_up_num as int, 100000,
        );
    }
    (curr.close as u64) * cfg.limit_up_den >= (prev.close as u64) * cfg.limit_up_num
}

/// First-match order is respected: a bar whose body exceeds five percent of
/// its close is classified long red or long green, never doji, even when it
/// would also satisfy the doji body-tightness test.
pub proof fn lemma_long_body_never_doji(b: StockData)
    requires
        spec_long_body(b),
    ensures
        spec_candlestick(b) != CandlestickType::Doji,
        spec_candlestick(b) == CandlestickType::LongRedCandle
            || spec_candlestick(b) == CandlestickType::LongGreenCandle,
{
}

} // verus!
