//! Composite multi-day reversal detectors: dark cloud cover, harami
//! patterns, three-day harami reversals, upside gap two crows, and the
//! hanging-man-after-limit-ups rule.

use vstd::prelude::*;
use crate::candlestick::{
    CandlestickType, anal_candlestick, anal_limit_up, spec_candlestick, spec_limit_up,
};
use crate::cfg::ScanCfg;
use crate::data::{
    Data, lemma_scan_step_push, lemma_scan_step_skip, spec_matches_view, spec_opt_to_seq,
    spec_scan,
};
use crate::data_company::{
    DataCompany, StockData, StockDataWithNo, spec_dates_sorted, spec_index_of, spec_volumes_ok,
};
use crate::volume::{
    MV_RANGE, find_max_min_date_range_company, find_mv, lemma_vol_sum_bounds, spec_max_high,
    spec_min_low, spec_vol_sum,
};

verus! {

/// Resolves `date` and demands at least `range` earlier bars: the common
/// preamble of every composite detector.
pub open spec fn spec_lookback_index(bars: Seq<StockData>, date: u32, range: int) -> Option<int> {
    match spec_index_of(bars, date) {
        None => None,
        Some(i) => if i < range {
            None
        } else {
            Some(i)
        },
    }
}

/// The same resolution as executable code.
fn get_current_index_by_date(company_data: &DataCompany, date: u32, range: usize) -> (r: Option<
    usize,
>)
    ensures
        match r {
            Some(i) => spec_lookback_index(company_data.stock_data@, date, range as int) == Some(i as int),
            None => spec_lookback_index(company_data.stock_data@, date, range as int) is None,
        },
{
    match company_data.index_of(date) {
        Some(i) => if i < range {
            None
        } else {
            Some(i)
        },
        None => None,
    }
}

/// The swing-low validation at index `i`: honored unless the current close,
/// cut to seventy percent, already undershoots the windowed floor.
pub open spec fn spec_swing_low_at(bars: Seq<StockData>, i: int, range: int) -> bool {
    !(bars[i].close * 7 < spec_min_low(bars, i - range + 1, i) * 10)
}

/// The swing-high validation at index `i`: honored unless the current
/// close, grown by thirty percent, already overshoots the windowed ceiling.
pub open spec fn spec_swing_high_at(bars: Seq<StockData>, i: int, range: int) -> bool {
    !(bars[i].close * 13 > spec_max_high(bars, i - range + 1, i) * 10)
}

/// The swing-low check resolved from a date: false when the date is absent
/// or the window has too little history.
pub open spec fn spec_is_swing_low(
    bars: Seq<StockData>,
    curr: StockData,
    date: u32,
    range: int,
) -> bool {
    match spec_index_of(bars, date) {
        None => false,
        Some(i) => i + 1 >= range && !(curr.close * 7 < spec_min_low(bars, i - range + 1, i)
            * 10),
    }
}

/// The swing-high check resolved from a date.
pub open spec fn spec_is_swing_high(
    bars: Seq<StockData>,
    curr: StockData,
    date: u32,
    range: int,
) -> bool {
    match spec_index_of(bars, date) {
        None => false,
        Some(i) => i + 1 >= range && !(curr.close * 13 > spec_max_high(bars, i - range + 1, i)
            * 10),
    }
}

/// Validates that the recent floor is not already far below the current
/// close.
pub fn is_swing_low(
    company_data: &DataCompany,
    curr_stock_data: &StockData,
    date: u32,
    cfg: &ScanCfg,
) -> (r: bool)
    requires
        cfg.wf(),
    ensures
        r == spec_is_swing_low(
            company_data.stock_data@,
            *curr_stock_data,
            date,
            cfg.look_back_days as int,
        ),
{
    match find_max_min_date_range_company(company_data, date, cfg.look_back_days) {
        Some((_max_price, min_price)) => !(
        (curr_stock_data.close as u64) * 7 < (min_price as u64) * 10),
        None => false,
    }
}

/// Validates that the recent ceiling is not already far above the current
/// close.
pub fn is_swing_high(
    company_data: &DataCompany,
    curr_stock_data: &StockData,
    date: u32,
    cfg: &ScanCfg,
) -> (r: bool)
    requires
        cfg.wf(),
    ensures
        r == spec_is_swing_high(
            company_data.stock_data@,
            *curr_stock_data,
            date,
            cfg.look_back_days as int,
        ),
{
    match find_max_min_date_range_company(company_data, date, cfg.look_back_days) {
        Some((max_price, _min_price)) => !(
        (curr_stock_data.close as u64) * 13 > (max_price as u64) * 10),
        None => false,
    }
}

/// Bullish harami: today's bullish body rests inside yesterday's bearish
/// body.
pub open spec fn spec_is_bullish_harami(prev: StockData, curr: StockData) -> bool {
    &&& curr.close > curr.open
    &&& prev.close < prev.open
    &&& curr.open >= prev.close
    &&& curr.close <= prev.open
}

/// Bearish harami: today's bearish body rests inside yesterday's bullish
/// body.
pub open spec fn spec_is_bearish_harami(prev: StockData, curr: StockData) -> bool {
    &&& curr.close < curr.open
    &&& prev.close > prev.open
    &&& curr.open <= prev.close
    &&& curr.close >= prev.open
}

/// Tests the bullish harami body containment on a pair of bars.
pub fn is_bullish_harami_pattern(prev: &StockData, curr: &StockData) -> (r: bool)
    ensures
        r == spec_is_bullish_harami(*prev, *curr),
{
    if curr.close <= curr.open {
        return false;
    }
    if prev.close >= prev.open {
        return false;
    }
    if curr.open < prev.close || curr.close > prev.open {
        return false;
    }
    true
}

/// Tests the bearish harami body containment on a pair of bars.
pub fn is_bearish_harami_pattern(prev: &StockData, curr: &StockData) -> (r: bool)
    ensures
        r == spec_is_bearish_harami(*prev, *curr),
{
    if curr.close >= curr.open {
        return false;
    }
    if prev.close <= prev.open {
        return false;
    }
    if curr.open > prev.close || curr.close < prev.open {
        return false;
    }
    true
}

/// Dark cloud cover at index `i`: a bearish bar that opens above
/// yesterday's bullish close as a five-day fresh high, retraces into
/// yesterday's body, and passes the swing-low validation.
pub open spec fn spec_dark_cloud_at(bars: Seq<StockData>, i: int, range: int) -> bool {
    let curr = bars[i];
    let prev = bars[i - 1];
    &&& curr.close < curr.open
    &&& prev.close > prev.open
    &&& curr.open > prev.close
    &&& curr.open > bars[i - 1].close && curr.open > bars[i - 1].open
    &&& curr.open > bars[i - 2].close && curr.open > bars[i - 2].open
    &&& curr.open > bars[i - 3].close && curr.open > bars[i - 3].open
    &&& curr.open > bars[i - 4].close && curr.open > bars[i - 4].open
    &&& curr.open > bars[i - 5].close && curr.open > bars[i - 5].open
    &&& curr.close > prev.open
    &&& curr.close < prev.close
    &&& spec_swing_low_at(bars, i, range)
}

/// The dark-cloud-cover match in one series.
pub open spec fn spec_dark_cloud_match(bars: Seq<StockData>, date: u32, cfg: ScanCfg) -> Option<
    StockData,
> {
    match spec_lookback_index(bars, date, cfg.look_back_days as int) {
        None => None,
        Some(i) => if spec_dark_cloud_at(bars, i, cfg.look_back_days as int) {
            Some(bars[i])
        } else {
            None
        },
    }
}

/// The dark-cloud-cover match for one symbol, if any.
fn dark_cloud_match(company_data: &DataCompany, date: u32, cfg: &ScanCfg) -> (r: Option<
    StockData,
>)
    requires
        cfg.wf(),
    ensures
        r == spec_dark_cloud_match(company_data.stock_data@, date, *cfg),
{
    let bars = &company_data.stock_data;
    let curr_date_index = match get_current_index_by_date(company_data, date, cfg.look_back_days)
        {
        Some(i) => i,
        None => {
            return None;
        },
    };
    proof {
        crate::data_company::lemma_spec_index_of(bars@, date);
    }

    let prev = bars[curr_date_index - 1];
    let curr = bars[curr_date_index];

    if curr.close >= curr.open {
        return None;
    }
    if prev.close <= prev.open {
        return None;
    }
    if curr.open <= prev.close {
        return None;
    }
    if curr.open <= bars[curr_date_index - 1].close || curr.open <= bars[curr_date_index
        - 1].open {
        return None;
    }
    if curr.open <= bars[curr_date_index - 2].close || curr.open <= bars[curr_date_index
        - 2].open {
        return None;
    }
    if curr.open <= bars[curr_date_index - 3].close || curr.open <= bars[curr_date_index
        - 3].open {
        return None;
    }
    if curr.open <= bars[curr_date_index - 4].close || curr.open <= bars[curr_date_index
        - 4].open {
        return None;
    }
    if curr.open <= bars[curr_date_index - 5].close || curr.open <= bars[curr_date_index
        - 5].open {
        return None;
    }
    if curr.close <= prev.open || curr.close >= prev.close {
        return None;
    }
    if !is_swing_low(company_data, &curr, date, cfg) {
        return None;
    }
    Some(curr)
}

/// Every symbol in the universe showing dark cloud cover at `date`.
pub fn find_complex_dark_cloud_cover(data: &Data, date: u32, cfg: &ScanCfg) -> (r: Vec<
    StockDataWithNo,
>)
    requires
        data.wf(),
        cfg.wf(),
    ensures
        spec_matches_view(r@) == spec_scan(
            data.spec_companies(),
            (|bars: Seq<StockData>| spec_opt_to_seq(spec_dark_cloud_match(bars, date, *cfg))),
        ),
{
    let ghost companies = data.spec_companies();
    let ghost pred =
        (|bars: Seq<StockData>| spec_opt_to_seq(spec_dark_cloud_match(bars, date, *cfg)));
    let mut results: Vec<StockDataWithNo> = Vec::new();
    proof {
        assert(companies.take(0) =~= Seq::<(Seq<char>, Seq<StockData>)>::empty());
    }
    let n = data.company_map.stock_map.len();
    let mut i: usize = 0;
    while i < n
        invariant
            data.wf(),
            cfg.wf(),
            n == data.company_map.stock_map@.len(),
            i <= n,
            companies == data.spec_companies(),
            pred == (|bars: Seq<StockData>| spec_opt_to_seq(
                spec_dark_cloud_match(bars, date, *cfg),
            )),
            spec_matches_view(results@) == spec_scan(companies.take(i as int), pred),
        decreases n - i,
    {
        let company_data = &data.data_company[i];
        proof {
            assert(companies[i as int].1 == company_data.stock_data@);
            assert(companies[i as int].0 == data.company_map.stock_map@[i as int].stock_no@);
        }
        match dark_cloud_match(company_data, date, cfg) {
            Some(bar) => {
                let x = StockDataWithNo {
                    stock_no: data.company_map.stock_map[i].stock_no.clone(),
                    stock_data: bar,
                };
                proof {
                    lemma_scan_step_push(companies, pred, i as int, results@, x);
                }
                results.push(x);
            },
            None => {
                proof {
                    lemma_scan_step_skip(companies, pred, i as int, results@);
                }
            },
        }
        i = i + 1;
    }
    proof {
        assert(companies.take(n as int) =~= companies);
    }
    results
}

/// The bullish harami match in one series: the two-bar containment plus the
/// swing-high validation.
pub open spec fn spec_bullish_harami_match(bars: Seq<StockData>, date: u32, cfg: ScanCfg)
    -> Option<StockData> {
    match spec_lookback_index(bars, date, cfg.look_back_days as int) {
        None => None,
        Some(i) => if spec_is_bullish_harami(bars[i - 1], bars[i]) && spec_swing_high_at(
            bars,
            i,
            cfg.look_back_days as int,
        ) {
            Some(bars[i])
        } else {
            None
        },
    }
}

/// The bearish harami match in one series, with the swing-low validation.
pub open spec fn spec_bearish_harami_match(bars: Seq<StockData>, date: u32, cfg: ScanCfg)
    -> Option<StockData> {
    match spec_lookback_index(bars, date, cfg.look_back_days as int) {
        None => None,
        Some(i) => if spec_is_bearish_harami(bars[i - 1], bars[i]) && spec_swing_low_at(
            bars,
            i,
            cfg.look_back_days as int,
        ) {
            Some(bars[i])
        } else {
            None
        },
    }
}

/// The bullish harami match for one symbol, if any.
fn bullish_harami_match(company_data: &DataCompany, date: u32, cfg: &ScanCfg) -> (r: Option<
    StockData,
>)
    requires
        cfg.wf(),
    ensures
        r == spec_bullish_harami_match(company_data.stock_data@, date, *cfg),
{
    let bars = &company_data.stock_data;
    let curr_date_index = match get_current_index_by_date(company_data, date, cfg.look_back_days)
        {
        Some(i) => i,
        None => {
            return None;
        },
    };
    proof {
        crate::data_company::lemma_spec_index_of(bars@, date);
    }
    let prev = bars[curr_date_index - 1];
    let curr = bars[curr_date_index];
    if !is_bullish_harami_pattern(&prev, &curr) {
        return None;
    }
    if !is_swing_high(company_data, &curr, date, cfg) {
        return None;
    }
    Some(curr)
}

/// The bearish harami match for one symbol, if any.
fn bearish_harami_match(company_data: &DataCompany, date: u32, cfg: &ScanCfg) -> (r: Option<
    StockData,
>)
    requires
        cfg.wf(),
    ensures
        r == spec_bearish_harami_match(company_data.stock_data@, date, *cfg),
{
    let bars = &company_data.stock_data;
    let curr_date_index = match get_current_index_by_date(company_data, date, cfg.look_back_days)
        {
        Some(i) => i,
        None => {
            return None;
        },
    };
    proof {
        crate::data_company::lemma_spec_index_of(bars@, date);
    }
    let prev = bars[curr_date_index - 1];
    let curr = bars[curr_date_index];
    if !is_bearish_harami_pattern(&prev, &curr) {
        return None;
    }
    if !is_swing_low(company_data, &curr, date, cfg) {
        return None;
    }
    Some(curr)
}

/// Every symbol in the universe showing a bullish harami at `date`.
pub fn find_complex_bullish_harami_pattern(data: &Data, date: u32, cfg: &ScanCfg) -> (r: Vec<
    StockDataWithNo,
>)
    requires
        data.wf(),
        cfg.wf(),
    ensures
        spec_matches_view(r@) == spec_scan(
            data.spec_companies(),
            (|bars: Seq<StockData>| spec_opt_to_seq(spec_bullish_harami_match(bars, date, *cfg))),
        ),
{
    let ghost companies = data.spec_companies();
    let ghost pred =
        (|bars: Seq<StockData>| spec_opt_to_seq(spec_bullish_harami_match(bars, date, *cfg)));
    let mut results: Vec<StockDataWithNo> = Vec::new();
    proof {
        assert(companies.take(0) =~= Seq::<(Seq<char>, Seq<StockData>)>::empty());
    }
    let n = data.company_map.stock_map.len();
    let mut i: usize = 0;
    while i < n
        invariant
            data.wf(),
            cfg.wf(),
            n == data.company_map.stock_map@.len(),
            i <= n,
            companies == data.spec_companies(),
            pred == (|bars: Seq<StockData>| spec_opt_to_seq(
                spec_bullish_harami_match(bars, date, *cfg),
            )),
            spec_matches_view(results@) == spec_scan(companies.take(i as int), pred),
        decreases n - i,
    {
        let company_data = &data.data_company[i];
        proof {
            assert(companies[i as int].1 == company_data.stock_data@);
            assert(companies[i as int].0 == data.company_map.stock_map@[i as int].stock_no@);
        }
        match bullish_harami_match(company_data, date, cfg) {
            Some(bar) => {
                let x = StockDataWithNo {
                    stock_no: data.company_map.stock_map[i].stock_no.clone(),
                    stock_data: bar,
                };
                proof {
                    lemma_scan_step_push(companies, pred, i as int, results@, x);
                }
                results.push(x);
            },
            None => {
                proof {
                    lemma_scan_step_skip(companies, pred, i as int, results@);
                }
            },
        }
        i = i + 1;
    }
    proof {
        assert(companies.take(n as int) =~= companies);
    }
    results
}

/// Every symbol in the universe showing a bearish harami at `date`.
pub fn find_complex_bearish_harami_pattern(data: &Data, date: u32, cfg: &ScanCfg) -> (r: Vec<
    StockDataWithNo,
>)
    requires
        data.wf(),
        cfg.wf(),
    ensures
        spec_matches_view(r@) == spec_scan(
            data.spec_companies(),
            (|bars: Seq<StockData>| spec_opt_to_seq(spec_bearish_harami_match(bars, date, *cfg))),
        ),
{
    let ghost companies = data.spec_companies();
    let ghost pred =
        (|bars: Seq<StockData>| spec_opt_to_seq(spec_bearish_harami_match(bars, date, *cfg)));
    let mut results: Vec<StockDataWithNo> = Vec::new();
    proof {
        assert(companies.take(0) =~= Seq::<(Seq<char>, Seq<StockData>)>::empty());
    }
    let n = data.company_map.stock_map.len();
    let mut i: usize = 0;
    while i < n
        invariant
            data.wf(),
            cfg.wf(),
            n == data.company_map.stock_map@.len(),
            i <= n,
            companies == data.spec_companies(),
            pred == (|bars: Seq<StockData>| spec_opt_to_seq(
                spec_bearish_harami_match(bars, date, *cfg),
            )),
            spec_matches_view(results@) == spec_scan(companies.take(i as int), pred),
        decreases n - i,
    {
        let company_data = &data.data_company[i];
        proof {
            assert(companies[i as int].1 == company_data.stock_data@);
            assert(companies[i as int].0 == data.company_map.stock_map@[i as int].stock_no@);
        }
        match bearish_harami_match(company_data, date, cfg) {
            Some(bar) => {
                let x = StockDataWithNo {
                    stock_no: data.company_map.stock_map[i].stock_no.clone(),
                    stock_data: bar,
                };
                proof {
                    lemma_scan_step_push(companies, pred, i as int, results@, x);
                }
                results.push(x);
            },
            None => {
                proof {
                    lemma_scan_step_skip(companies, pred, i as int, results@);
                }
            },
        }
        i = i + 1;
    }
    proof {
        assert(companies.take(n as int) =~= companies);
    }
    results
}

/// The three-day bullish harami reversal at index `i`: the prior two bars
/// form a bullish harami, the current bar is bullish, closes at or above the
/// harami's bearish-body open, carries volume above one-and-a-half times
/// each of the prior bar's 5/10/20-bar volume averages, and passes the
/// swing-high validation.  The volume averages exist only when at least 20
/// bars end at `i - 1`.
pub open spec fn spec_bullish_three_day_at(bars: Seq<StockData>, i: int, range: int) -> bool {
    let curr = bars[i];
    &&& spec_is_bullish_harami(bars[i - 2], bars[i - 1])
    &&& curr.close > curr.open
    &&& curr.close >= bars[i - 2].open
    &&& i >= MV_RANGE
    &&& curr.volume * 10 > spec_vol_sum(bars, i - 5, i - 1) * 3
    &&& curr.volume * 20 > spec_vol_sum(bars, i - 10, i - 1) * 3
    &&& curr.volume * 40 > spec_vol_sum(bars, i - 20, i - 1) * 3
    &&& spec_swing_high_at(bars, i, range)
}

/// The three-day bearish harami reversal at index `i`: the mirror image,
/// with the volume required to stay strictly below one-and-a-half times all
/// three averages, and the swing-low validation.
pub open spec fn spec_bearish_three_day_at(bars: Seq<StockData>, i: int, range: int) -> bool {
    let curr = bars[i];
    &&& spec_is_bearish_harami(bars[i - 2], bars[i - 1])
    &&& curr.close < curr.open
    &&& curr.close <= bars[i - 2].open
    &&& i >= MV_RANGE
    &&& curr.volume * 10 < spec_vol_sum(bars, i - 5, i - 1) * 3
    &&& curr.volume * 20 < spec_vol_sum(bars, i - 10, i - 1) * 3
    &&& curr.volume * 40 < spec_vol_sum(bars, i - 20, i - 1) * 3
    &&& spec_swing_low_at(bars, i, range)
}

/// The three-day bullish reversal match in one date-sorted series.
pub open spec fn spec_bullish_three_day_match(bars: Seq<StockData>, date: u32, cfg: ScanCfg)
    -> Option<StockData> {
    match spec_lookback_index(bars, date, cfg.look_back_days as int) {
        None => None,
        Some(i) => if spec_bullish_three_day_at(bars, i, cfg.look_back_days as int) {
            Some(bars[i])
        } else {
            None
        },
    }
}

/// The three-day bearish reversal match in one date-sorted series.
pub open spec fn spec_bearish_three_day_match(bars: Seq<StockData>, date: u32, cfg: ScanCfg)
    -> Option<StockData> {
    match spec_lookback_index(bars, date, cfg.look_back_days as int) {
        None => None,
        Some(i) => if spec_bearish_three_day_at(bars, i, cfg.look_back_days as int) {
            Some(bars[i])
        } else {
            None
        },
    }
}

/// The three-day bullish reversal match for one symbol, if any.
fn bullish_three_day_match(company_data: &DataCompany, date: u32, cfg: &ScanCfg) -> (r: Option<
    StockData,
>)
    requires
        cfg.wf(),
        spec_dates_sorted(company_data.stock_data@),
        spec_volumes_ok(company_data.stock_data@),
    ensures
        r == spec_bullish_three_day_match(company_data.stock_data@, date, *cfg),
{
    let bars = &company_data.stock_data;
    let curr_date_index = match get_current_index_by_date(company_data, date, cfg.look_back_days)
        {
        Some(i) => i,
        None => {
            return None;
        },
    };
    proof {
        crate::data_company::lemma_spec_index_of(bars@, date);
    }
    let prev_prev = bars[curr_date_index - 2];
    let prev = bars[curr_date_index - 1];
    let curr = bars[curr_date_index];

    if !is_bullish_harami_pattern(&prev_prev, &prev) {
        return None;
    }
    if curr.close <= curr.open {
        return None;
    }
    if curr.close < prev_prev.open {
        return None;
    }

    proof {
        crate::data_company::lemma_sorted_index_of(bars@, curr_date_index - 1);
    }
    let mv = match find_mv(company_data, prev.date) {
        Some(mv) => mv,
        None => {
            return None;
        },
    };
    proof {
        let i = curr_date_index as int;
        lemma_vol_sum_bounds(bars@, i - 5, i - 1);
        lemma_vol_sum_bounds(bars@, i - 10, i - 1);
        lemma_vol_sum_bounds(bars@, i - 20, i - 1);
    }
    if curr.volume * 10 <= mv.0 * 3 || curr.volume * 20 <= mv.1 * 3 || curr.volume * 40 <= mv.2
        * 3 {
        return None;
    }

    if !is_swing_high(company_data, &curr, date, cfg) {
        return None;
    }
    Some(curr)
}

/// The three-day bearish reversal match for one symbol, if any.
fn bearish_three_day_match(company_data: &DataCompany, date: u32, cfg: &ScanCfg) -> (r: Option<
    StockData,
>)
    requires
        cfg.wf(),
        spec_dates_sorted(company_data.stock_data@),
        spec_volumes_ok(company_data.stock_data@),
    ensures
        r == spec_bearish_three_day_match(company_data.stock_data@, date, *cfg),
{
    let bars = &company_data.stock_data;
    let curr_date_index = match get_current_index_by_date(company_data, date, cfg.look_back_days)
        {
        Some(i) => i,
        None => {
            return None;
        },
    };
    proof {
        crate::data_company::lemma_spec_index_of(bars@, date);
    }
    let prev_prev = bars[curr_date_index - 2];
    let prev = bars[curr_date_index - 1];
    let curr = bars[curr_date_index];

    if !is_bearish_harami_pattern(&prev_prev, &prev) {
        return None;
    }
    if curr.close >= curr.open {
        return None;
    }
    if curr.close > prev_prev.open {
        return None;
    }

    proof {
        crate::data_company::lemma_sorted_index_of(bars@, curr_date_index - 1);
    }
    let mv = match find_mv(company_data, prev.date) {
        Some(mv) => mv,
        None => {
            return None;
        },
    };
    proof {
        let i = curr_date_index as int;
        lemma_vol_sum_bounds(bars@, i - 5, i - 1);
        lemma_vol_sum_bounds(bars@, i - 10, i - 1);
        lemma_vol_sum_bounds(bars@, i - 20, i - 1);
    }
    if curr.volume * 10 >= mv.0 * 3 || curr.volume * 20 >= mv.1 * 3 || curr.volume * 40 >= mv.2
        * 3 {
        return None;
    }

    if !is_swing_low(company_data, &curr, date, cfg) {
        return None;
    }
    Some(curr)
}

/// The upside-gap-two-crows match at index `i`: a bullish bar, then two
/// bearish bars gapped above its close, whose opens are five-day fresh
/// highs, with the swing-low validation.
pub open spec fn spec_upside_gap_at(bars: Seq<StockData>, i: int, range: int) -> bool {
    let prev_prev = bars[i - 2];
    let prev = bars[i - 1];
    let curr = bars[i];
    &&& prev_prev.close > prev_prev.open
    &&& prev.close < prev.open
    &&& curr.close < curr.open
    &&& curr.close > prev_prev.close
    &&& prev.close > prev_prev.close
    &&& curr.open > bars[i - 2].close && curr.open > bars[i - 2].open
    &&& prev.open > bars[i - 2].close && prev.open > bars[i - 2].open
    &&& curr.open > bars[i - 3].close && curr.open > bars[i - 3].open
    &&& prev.open > bars[i - 3].close && prev.open > bars[i - 3].open
    &&& curr.open > bars[i - 4].close && curr.open > bars[i - 4].open
    &&& prev.open > bars[i - 4].close && prev.open > bars[i - 4].open
    &&& curr.open > bars[i - 5].close && curr.open > bars[i - 5].open
    &&& prev.open > bars[i - 5].close && prev.open > bars[i - 5].open
    &&& curr.open > bars[i - 6].close && curr.open > bars[i - 6].open
    &&& prev.open > bars[i - 6].close && prev.open > bars[i - 6].open
    &&& spec_swing_low_at(bars, i, range)
}

/// The upside-gap-two-crows match in one series.
pub open spec fn spec_upside_gap_match(bars: Seq<StockData>, date: u32, cfg: ScanCfg) -> Option<
    StockData,
> {
    match spec_lookback_index(bars, date, cfg.look_back_days as int) {
        None => None,
        Some(i) => if spec_upside_gap_at(bars, i, cfg.look_back_days as int) {
            Some(bars[i])
        } else {
            None
        },
    }
}

/// The upside-gap-two-crows match for one symbol, if any.
fn upside_gap_match(company_data: &DataCompany, date: u32, cfg: &ScanCfg) -> (r: Option<
    StockData,
>)
    requires
        cfg.wf(),
    ensures
        r == spec_upside_gap_match(company_data.stock_data@, date, *cfg),
{
    let bars = &company_data.stock_data;
    let curr_date_index = match get_current_index_by_date(company_data, date, cfg.look_back_days)
        {
        Some(i) => i,
        None => {
            return None;
        },
    };
    proof {
        crate::data_company::lemma_spec_index_of(bars@, date);
    }
    let prev_prev = bars[curr_date_index - 2];
    let prev = bars[curr_date_index - 1];
    let curr = bars[curr_date_index];

    if prev_prev.close <= prev_prev.open {
        return None;
    }
    if prev.close >= prev.open {
        return None;
    }
    if curr.close >= curr.open {
        return None;
    }
    if curr.close <= prev_prev.close || prev.close <= prev_prev.close {
        return None;
    }
    if curr.open <= bars[curr_date_index - 2].close || curr.open <= bars[curr_date_index - 2].open
        || prev.open <= bars[curr_date_index - 2].close || prev.open <= bars[curr_date_index
        - 2].open {
        return None;
    }
    if curr.open <= bars[curr_date_index - 3].close || curr.open <= bars[curr_date_index - 3].open
        || prev.open <= bars[curr_date_index - 3].close || prev.open <= bars[curr_date_index
        - 3].open {
        return None;
    }
    if curr.open <= bars[curr_date_index - 4].close || curr.open <= bars[curr_date_index - 4].open
        || prev.open <= bars[curr_date_index - 4].close || prev.open <= bars[curr_date_index
        - 4].open {
        return None;
    }
    if curr.open <= bars[curr_date_index - 5].close || curr.open <= bars[curr_date_index - 5].open
        || prev.open <= bars[curr_date_index - 5].close || prev.open <= bars[curr_date_index
        - 5].open {
        return None;
    }
    if curr.open <= bars[curr_date_index - 6].close || curr.open <= bars[curr_date_index - 6].open
        || prev.open <= bars[curr_date_index - 6].close || prev.open <= bars[curr_date_index
        - 6].open {
        return None;
    }
    if !is_swing_low(company_data, &curr, date, cfg) {
        return None;
    }
    Some(curr)
}

/// The two limit-up alternatives behind the hanging-man rule: either the
/// prior two steps both closed limit-up (the bar at `i` over its
/// predecessor, and the predecessor over the bar before it), or the bar at
/// `i` qualifies against itself together with the step onto it.
pub open spec fn spec_hanging_man_limit_ups(bars: Seq<StockData>, i: int, cfg: ScanCfg) -> bool {
    ||| spec_limit_up(bars[i - 1], bars[i], cfg) && spec_limit_up(bars[i - 2], bars[i - 1], cfg)
    ||| spec_limit_up(bars[i], bars[i], cfg) && spec_limit_up(bars[i - 1], bars[i], cfg)
}

/// The hanging-man-after-limit-ups match in one series: the bar at `date`
/// classifies as a hanging man and one of the limit-up alternatives holds.
/// At most one entry is emitted even when both alternatives hold.
pub open spec fn spec_hanging_man_match(bars: Seq<StockData>, date: u32, cfg: ScanCfg) -> Option<
    StockData,
> {
    match spec_lookback_index(bars, date, 2) {
        None => None,
        Some(i) => if spec_candlestick(bars[i]) == CandlestickType::HangingMan
            && spec_hanging_man_limit_ups(bars, i, cfg) {
            Some(bars[i])
        } else {
            None
        },
    }
}

/// The hanging-man match for one symbol, if any.
fn hanging_man_match(company_data: &DataCompany, date: u32, cfg: &ScanCfg) -> (r: Option<
    StockData,
>)
    requires
        cfg.wf(),
    ensures
        r == spec_hanging_man_match(company_data.stock_data@, date, *cfg),
{
    let bars = &company_data.stock_data;
    let curr_date_index = match get_current_index_by_date(company_data, date, 2) {
        Some(i) => i,
        None => {
            return None;
        },
    };
    proof {
        crate::data_company::lemma_spec_index_of(bars@, date);
    }
    let prev_prev = bars[curr_date_index - 2];
    let prev = bars[curr_date_index - 1];
    let curr = bars[curr_date_index];

    if !matches!(anal_candlestick(&curr), CandlestickType::HangingMan) {
        return None;
    }
    let step_up = anal_limit_up(&prev, &curr, cfg);
    let prior_pair = step_up && anal_limit_up(&prev_prev, &prev, cfg);
    let self_pair = anal_limit_up(&curr, &curr, cfg) && step_up;
    if prior_pair || self_pair {
        Some(curr)
    } else {
        None
    }
}


/// Every symbol in the universe showing the three-day bullish harami reversal at `date`.
pub fn find_complex_bullish_harami_three_day_reversal_date(data: &Data, date: u32, cfg: &ScanCfg) -> (r: Vec<
    StockDataWithNo,
>)
    requires
        data.wf(),
        cfg.wf(),
    ensures
        spec_matches_view(r@) == spec_scan(
            data.spec_companies(),
            (|bars: Seq<StockData>| spec_opt_to_seq(spec_bullish_three_day_match(bars, date, *cfg))),
        ),
{
    let ghost companies = data.spec_companies();
    let ghost pred =
        (|bars: Seq<StockData>| spec_opt_to_seq(spec_bullish_three_day_match(bars, date, *cfg)));
    let mut results: Vec<StockDataWithNo> = Vec::new();
    proof {
        assert(companies.take(0) =~= Seq::<(Seq<char>, Seq<StockData>)>::empty());
    }
    let n = data.company_map.stock_map.len();
    let mut i: usize = 0;
    while i < n
        invariant
            data.wf(),
            cfg.wf(),
            n == data.company_map.stock_map@.len(),
            i <= n,
            companies == data.spec_companies(),
            pred == (|bars: Seq<StockData>| spec_opt_to_seq(
                spec_bullish_three_day_match(bars, date, *cfg),
            )),
            spec_matches_view(results@) == spec_scan(companies.take(i as int), pred),
        decreases n - i,
    {
        let company_data = &data.data_company[i];
        proof {
            assert(companies[i as int].1 == company_data.stock_data@);
            assert(companies[i as int].0 == data.company_map.stock_map@[i as int].stock_no@);
        }
        match bullish_three_day_match(company_data, date, cfg) {
            Some(bar) => {
                let x = StockDataWithNo {
                    stock_no: data.company_map.stock_map[i].stock_no.clone(),
                    stock_data: bar,
                };
                proof {
                    lemma_scan_step_push(companies, pred, i as int, results@, x);
                }
                results.push(x);
            },
            None => {
                proof {
                    lemma_scan_step_skip(companies, pred, i as int, results@);
                }
            },
        }
        i = i + 1;
    }
    proof {
        assert(companies.take(n as int) =~= companies);
    }
    results
}

/// Every symbol in the universe showing the three-day bearish harami reversal at `date`.
pub fn find_complex_bearish_harami_three_day_reversal_date(data: &Data, date: u32, cfg: &ScanCfg) -> (r: Vec<
    StockDataWithNo,
>)
    requires
        data.wf(),
        cfg.wf(),
    ensures
        spec_matches_view(r@) == spec_scan(
            data.spec_companies(),
            (|bars: Seq<StockData>| spec_opt_to_seq(spec_bearish_three_day_match(bars, date, *cfg))),
        ),
{
    let ghost companies = data.spec_companies();
    let ghost pred =
        (|bars: Seq<StockData>| spec_opt_to_seq(spec_bearish_three_day_match(bars, date, *cfg)));
    let mut results: Vec<StockDataWithNo> = Vec::new();
    proof {
        assert(companies.take(0) =~= Seq::<(Seq<char>, Seq<StockData>)>::empty());
    }
    let n = data.company_map.stock_map.len();
    let mut i: usize = 0;
    while i < n
        invariant
            data.wf(),
            cfg.wf(),
            n == data.company_map.stock_map@.len(),
            i <= n,
            companies == data.spec_companies(),
            pred == (|bars: Seq<StockData>| spec_opt_to_seq(
                spec_bearish_three_day_match(bars, date, *cfg),
            )),
            spec_matches_view(results@) == spec_scan(companies.take(i as int), pred),
        decreases n - i,
    {
        let company_data = &data.data_company[i];
        proof {
            assert(companies[i as int].1 == company_data.stock_data@);
            assert(companies[i as int].0 == data.company_map.stock_map@[i as int].stock_no@);
        }
        match bearish_three_day_match(company_data, date, cfg) {
            Some(bar) => {
                let x = StockDataWithNo {
                    stock_no: data.company_map.stock_map[i].stock_no.clone(),
                    stock_data: bar,
                };
                proof {
                    lemma_scan_step_push(companies, pred, i as int, results@, x);
                }
                results.push(x);
            },
            None => {
                proof {
                    lemma_scan_step_skip(companies, pred, i as int, results@);
                }
            },
        }
        i = i + 1;
    }
    proof {
        assert(companies.take(n as int) =~= companies);
    }
    results
}

/// Every symbol in the universe showing upside gap two crows at `date`.
pub fn find_complex_upside_gap_two_crows(data: &Data, date: u32, cfg: &ScanCfg) -> (r: Vec<
    StockDataWithNo,
>)
    requires
        data.wf(),
        cfg.wf(),
    ensures
        spec_matches_view(r@) == spec_scan(
            data.spec_companies(),
            (|bars: Seq<StockData>| spec_opt_to_seq(spec_upside_gap_match(bars, date, *cfg))),
        ),
{
    let ghost companies = data.spec_companies();
    let ghost pred =
        (|bars: Seq<StockData>| spec_opt_to_seq(spec_upside_gap_match(bars, date, *cfg)));
    let mut results: Vec<StockDataWithNo> = Vec::new();
    proof {
        assert(companies.take(0) =~= Seq::<(Seq<char>, Seq<StockData>)>::empty());
    }
    let n = data.company_map.stock_map.len();
    let mut i: usize = 0;
    while i < n
        invariant
            data.wf(),
            cfg.wf(),
            n == data.company_map.stock_map@.len(),
            i <= n,
            companies == data.spec_companies(),
            pred == (|bars: Seq<StockData>| spec_opt_to_seq(
                spec_upside_gap_match(bars, date, *cfg),
            )),
            spec_matches_view(results@) == spec_scan(companies.take(i as int), pred),
        decreases n - i,
    {
        let company_data = &data.data_company[i];
        proof {
            assert(companies[i as int].1 == company_data.stock_data@);
            assert(companies[i as int].0 == data.company_map.stock_map@[i as int].stock_no@);
        }
        match upside_gap_match(company_data, date, cfg) {
            Some(bar) => {
                let x = StockDataWithNo {
                    stock_no: data.company_map.stock_map[i].stock_no.clone(),
                    stock_data: bar,
                };
                proof {
                    lemma_scan_step_push(companies, pred, i as int, results@, x);
                }
                results.push(x);
            },
            None => {
                proof {
                    lemma_scan_step_skip(companies, pred, i as int, results@);
                }
            },
        }
        i = i + 1;
    }
    proof {
        assert(companies.take(n as int) =~= companies);
    }
    results
}

/// Every symbol in the universe showing a hanging man after consecutive limit-up moves at `date`.
pub fn find_complex_hanging_man_date(data: &Data, date: u32, cfg: &ScanCfg) -> (r: Vec<
    StockDataWithNo,
>)
    requires
        data.wf(),
        cfg.wf(),
    ensures
        spec_matches_view(r@) == spec_scan(
            data.spec_companies(),
            (|bars: Seq<StockData>| spec_opt_to_seq(spec_hanging_man_match(bars, date, *cfg))),
        ),
{
    let ghost companies = data.spec_companies();
    let ghost pred =
        (|bars: Seq<StockData>| spec_opt_to_seq(spec_hanging_man_match(bars, date, *cfg)));
    let mut results: Vec<StockDataWithNo> = Vec::new();
    proof {
        assert(companies.take(0) =~= Seq::<(Seq<char>, Seq<StockData>)>::empty());
    }
    let n = data.company_map.stock_map.len();
    let mut i: usize = 0;
    while i < n
        invariant
            data.wf(),
            cfg.wf(),
            n == data.company_map.stock_map@.len(),
            i <= n,
            companies == data.spec_companies(),
            pred == (|bars: Seq<StockData>| spec_opt_to_seq(
                spec_hanging_man_match(bars, date, *cfg),
            )),
            spec_matches_view(results@) == spec_scan(companies.take(i as int), pred),
        decreases n - i,
    {
        let company_data = &data.data_company[i];
        proof {
            assert(companies[i as int].1 == company_data.stock_data@);
            assert(companies[i as int].0 == data.company_map.stock_map@[i as int].stock_no@);
        }
        match hanging_man_match(company_data, date, cfg) {
            Some(bar) => {
                let x = StockDataWithNo {
                    stock_no: data.company_map.stock_map[i].stock_no.clone(),
                    stock_data: bar,
                };
                proof {
                    lemma_scan_step_push(companies, pred, i as int, results@, x);
                }
                results.push(x);
            },
            None => {
                proof {
                    lemma_scan_step_skip(companies, pred, i as int, results@);
                }
            },
        }
        i = i + 1;
    }
    proof {
        assert(companies.take(n as int) =~= companies);
    }
    results
}

} // verus!
