//! Rolling-window statistics: max/min of a trailing window, and trailing
//! volume sums for the 5/10/20-bar moving averages.

use vstd::prelude::*;
use crate::data_company::{DataCompany, StockData, VOLUME_MAX, spec_index_of, spec_volumes_ok};

verus! {

/// Largest `high` among `bars[lo..=hi]`.
pub open spec fn spec_max_high(bars: Seq<StockData>, lo: int, hi: int) -> int
    decreases hi - lo,
{
    if hi <= lo {
        bars[lo].high as int
    } else {
        let m = spec_max_high(bars, lo, hi - 1);
        if bars[hi].high > m {
            bars[hi].high as int
        } else {
            m
        }
    }
}

/// Smallest `low` among `bars[lo..=hi]`.
pub open spec fn spec_min_low(bars: Seq<StockData>, lo: int, hi: int) -> int
    decreases hi - lo,
{
    if hi <= lo {
        bars[lo].low as int
    } else {
        let m = spec_min_low(bars, lo, hi - 1);
        if bars[hi].low < m {
            bars[hi].low as int
        } else {
            m
        }
    }
}

/// Sum of the volumes of `bars[lo..=hi]`.
pub open spec fn spec_vol_sum(bars: Seq<StockData>, lo: int, hi: int) -> int
    decreases hi - lo,
{
    if hi <= lo {
        bars[lo].volume as int
    } else {
        spec_vol_sum(bars, lo, hi - 1) + bars[hi].volume as int
    }
}

/// A windowed volume sum of bounded width over capped volumes stays small.
pub proof fn lemma_vol_sum_bounds(bars: Seq<StockData>, lo: int, hi: int)
    requires
        0 <= lo <= hi < bars.len(),
        spec_volumes_ok(bars),
    ensures
        0 <= spec_vol_sum(bars, lo, hi) <= (hi - lo + 1) * VOLUME_MAX,
    decreases hi - lo,
{
    if hi <= lo {
    } else {
        lemma_vol_sum_bounds(bars, lo, hi - 1);
    }
}

/// Maximum `high` and minimum `low` over the `range`-bar window ending at
/// `date`.  Succeeds exactly when the date trades in the series and at least
/// `range - 1` bars precede it; too little history is the expected soft
/// failure, never a crash.
pub fn find_max_min_date_range_company(
    data_company: &DataCompany,
    date: u32,
    range: usize,
) -> (r: Option<(u32, u32)>)
    requires
        range >= 1,
    ensures
        (r is Some) == {
            &&& spec_index_of(data_company.stock_data@, date) matches Some(i)
            &&& i + 1 >= range
        },
        r matches Some(p) ==> {
            let i = spec_index_of(data_company.stock_data@, date).unwrap();
            &&& p.0 == spec_max_high(data_company.stock_data@, i - range + 1, i)
            &&& p.1 == spec_min_low(data_company.stock_data@, i - range + 1, i)
        },
{
    let bars = &data_company.stock_data;
    let n = bars.len();
    let curr_index = match data_company.index_of(date) {
        Some(i) => i,
        None => {
            return None;
        },
    };
    proof {
        crate::data_company::lemma_spec_index_of(bars@, date);
    }
    if curr_index + 1 < range {
        return None;
    }
    let start_index = curr_index + 1 - range;

    let mut max_price: u32 = bars[start_index].high;
    let mut min_price: u32 = bars[start_index].low;
    let mut i = start_index + 1;
    while i <= curr_index
        invariant
            start_index < i,
            i <= curr_index + 1,
            curr_index < n == bars@.len(),
            max_price == spec_max_high(bars@, start_index as int, i - 1),
            min_price == spec_min_low(bars@, start_index as int, i - 1),
        decreases curr_index + 1 - i,
    {
        if bars[i].high > max_price {
            max_price = bars[i].high;
        }
        if bars[i].low < min_price {
            min_price = bars[i].low;
        }
        i = i + 1;
    }

    Some((max_price, min_price))
}

/// Number of bars in the moving-volume window.
pub const MV_RANGE: usize = 20;

/// Sum of `bars[lo..=hi]`'s volumes, for windows of at most 64 bars.
fn sum_volume(bars: &Vec<StockData>, lo: usize, hi: usize) -> (s: u64)
    requires
        lo <= hi < bars@.len(),
        hi - lo < 64,
        spec_volumes_ok(bars@),
    ensures
        s == spec_vol_sum(bars@, lo as int, hi as int),
{
    let n = bars.len();
    let mut s: u64 = bars[lo].volume;
    let mut i = lo + 1;
    while i <= hi
        invariant
            lo < i,
            i <= hi + 1,
            hi < n == bars@.len(),
            hi - lo < 64,
            spec_volumes_ok(bars@),
            s == spec_vol_sum(bars@, lo as int, i - 1),
        decreases hi + 1 - i,
    {
        proof {
            lemma_vol_sum_bounds(bars@, lo as int, i - 1);
        }
        s = s + bars[i].volume;
        i = i + 1;
    }
    s
}

/// Trailing volume sums over the 20-bar window ending at `date`: the sums of
/// the last 5, 10, and 20 volumes.  Dividing them by 5, 10, and 20 gives the
/// `mv5` / `mv10` / `mv20` moving averages as exact rationals.  Succeeds
/// exactly when the date trades and at least 19 bars precede it.
pub fn find_mv(data_company: &DataCompany, date: u32) -> (r: Option<(u64, u64, u64)>)
    requires
        spec_volumes_ok(data_company.stock_data@),
    ensures
        (r is Some) == {
            &&& spec_index_of(data_company.stock_data@, date) matches Some(i)
            &&& i + 1 >= MV_RANGE
        },
        r matches Some(p) ==> {
            let i = spec_index_of(data_company.stock_data@, date).unwrap();
            &&& p.0 == spec_vol_sum(data_company.stock_data@, i - 4, i)
            &&& p.1 == spec_vol_sum(data_company.stock_data@, i - 9, i)
            &&& p.2 == spec_vol_sum(data_company.stock_data@, i - 19, i)
        },
{
    let bars = &data_company.stock_data;
    let n = bars.len();
    let curr_index = match data_company.index_of(date) {
        Some(i) => i,
        None => {
            return None;
        },
    };
    proof {
        crate::data_company::lemma_spec_index_of(bars@, date);
    }
    if curr_index + 1 < MV_RANGE {
        return None;
    }

    let sum_mv5 = sum_volume(bars, curr_index - 4, curr_index);
    let sum_mv10 = sum_volume(bars, curr_index - 9, curr_index);
    let sum_mv20 = sum_volume(bars, curr_index - 19, curr_index);

    Some((sum_mv5, sum_mv10, sum_mv20))
}

} // verus!
