//! Doji bars standing far from the recent extremes: a doji at the target
//! date is reported when the windowed maximum exceeds its close by thirty
//! percent or the windowed minimum undershoots it by thirty percent.

use vstd::prelude::*;
use crate::candlestick::{CandlestickType, anal_candlestick, spec_candlestick};
use crate::cfg::ScanCfg;
use crate::data::{
    Data, lemma_scan_step_push, lemma_scan_step_skip, spec_matches_view, spec_opt_to_seq,
    spec_scan,
};
use crate::data_company::{DataCompany, StockData, StockDataWithNo, spec_index_of};
use crate::volume::{find_max_min_date_range_company, spec_max_high, spec_min_low};

verus! {

/// The doji match in one series: the bar at `date` when it classifies as a
/// doji, the window has enough history, and at least one of the windowed
/// extremes stands thirty percent away from its close.  One match at most,
/// even when both extremes qualify.
pub open spec fn spec_doji_match(bars: Seq<StockData>, date: u32, range: int) -> Option<
    StockData,
> {
    match spec_index_of(bars, date) {
        None => None,
        Some(i) => if spec_candlestick(bars[i]) != CandlestickType::Doji {
            None
        } else if i + 1 < range {
            None
        } else {
            let mx = spec_max_high(bars, i - range + 1, i);
            let mn = spec_min_low(bars, i - range + 1, i);
            if mx * 10 > bars[i].close * 13 || mn * 10 < bars[i].close * 7 {
                Some(bars[i])
            } else {
                None
            }
        },
    }
}

/// The doji match for one symbol, if any.
fn doji_match(company_data: &DataCompany, date: u32, cfg: &ScanCfg) -> (r: Option<StockData>)
    requires
        cfg.wf(),
    ensures
        r == spec_doji_match(company_data.stock_data@, date, cfg.doji_range as int),
{
    let bar = match company_data.get_stock_data_by_date(date) {
        Some(b) => *b,
        None => {
            return None;
        },
    };
    if !matches!(anal_candlestick(&bar), CandlestickType::Doji) {
        return None;
    }
    match find_max_min_date_range_company(company_data, date, cfg.doji_range) {
        Some((max_price, min_price)) => {
            if (max_price as u64) * 10 > (bar.close as u64) * 13 || (min_price as u64) * 10 < (
            bar.close as u64) * 7 {
                Some(bar)
            } else {
                None
            }
        },
        None => None,
    }
}

/// Every symbol in the universe whose bar at `date` is a doji far from the
/// recent extremes; zero or one match per symbol.
pub fn find_doji_date_range_max_min(data: &Data, date: u32, cfg: &ScanCfg) -> (r: Vec<
    StockDataWithNo,
>)
    requires
        data.wf(),
        cfg.wf(),
    ensures
        spec_matches_view(r@) == spec_scan(
            data.spec_companies(),
            (|bars: Seq<StockData>| spec_opt_to_seq(
                spec_doji_match(bars, date, cfg.doji_range as int),
            )),
        ),
{
    let ghost companies = data.spec_companies();
    let ghost pred = (|bars: Seq<StockData>| spec_opt_to_seq(
        spec_doji_match(bars, date, cfg.doji_range as int),
    ));
    let mut results: Vec<StockDataWithNo> = Vec::new();
    proof {
        assert(companies.take(0) =~= Seq::<(Seq<char>, Seq<StockData>)>::empty());
    }
    let n = data.company_map.stock_map.len();
    let mut i: usize = 0;
    while i < n
        invariant
            data.wf(),
            cfg.wf(),
            n == data.company_map.stock_map@.len(),
            i <= n,
            companies == data.spec_companies(),
            pred == (|bars: Seq<StockData>| spec_opt_to_seq(
                spec_doji_match(bars, date, cfg.doji_range as int),
            )),
            spec_matches_view(results@) == spec_scan(companies.take(i as int), pred),
        decreases n - i,
    {
        let company_data = &data.data_company[i];
        proof {
            assert(companies[i as int].1 == company_data.stock_data@);
            assert(companies[i as int].0 == data.company_map.stock_map@[i as int].stock_no@);
        }
        match doji_match(company_data, date, cfg) {
            Some(bar) => {
                let x = StockDataWithNo {
                    stock_no: data.company_map.stock_map[i].stock_no.clone(),
                    stock_data: bar,
                };
                proof {
                    lemma_scan_step_push(companies, pred, i as int, results@, x);
                }
                results.push(x);
            },
            None => {
                proof {
                    lemma_scan_step_skip(companies, pred, i as int, results@);
                }
            },
        }
        i = i + 1;
    }
    proof {
        assert(companies.take(n as int) =~= companies);
    }
    results
}

} // verus!
