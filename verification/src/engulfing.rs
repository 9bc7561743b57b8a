//! Bullish engulfing: a bearish bar swallowed whole, shadows included, by
//! the next day's bullish body.

use vstd::prelude::*;
use crate::data::{
    Data, lemma_scan_step_push, lemma_scan_step_skip, spec_matches_view, spec_opt_to_seq,
    spec_pair_up, spec_scan,
};
use crate::data_company::{DataCompany, StockData, StockDataWithNo, spec_index_of};

verus! {

/// Yesterday bearish, today bullish, and today's body spans beyond both of
/// yesterday's extremes.
pub open spec fn spec_is_bullish_engulfing(prev: StockData, curr: StockData) -> bool {
    &&& prev.close < prev.open
    &&& curr.close > curr.open
    &&& curr.open < prev.low
    &&& curr.close > prev.high
}

/// Tests the engulfing condition on a consecutive pair of bars.
pub fn is_bullish_engulfing(prev: &StockData, curr: &StockData) -> (r: bool)
    ensures
        r == spec_is_bullish_engulfing(*prev, *curr),
{
    let prev_black = prev.close < prev.open;
    let curr_red = curr.close > curr.open;
    let engulf = curr.open < prev.low && curr.close > prev.high;
    prev_black && curr_red && engulf
}

/// The bar matched in one series: the bar at `date` when it trades, has a
/// predecessor, and engulfs it.
pub open spec fn spec_engulfing_match(bars: Seq<StockData>, date: u32) -> Option<StockData> {
    match spec_index_of(bars, date) {
        None => None,
        Some(i) => if i < 1 {
            None
        } else if spec_is_bullish_engulfing(bars[i - 1], bars[i]) {
            Some(bars[i])
        } else {
            None
        },
    }
}

/// The match in one series, if any.
fn engulfing_match(data_company: &DataCompany, date: u32) -> (r: Option<StockData>)
    ensures
        r == spec_engulfing_match(data_company.stock_data@, date),
{
    let curr_index = match data_company.index_of(date) {
        Some(i) => i,
        None => {
            return None;
        },
    };
    proof {
        crate::data_company::lemma_spec_index_of(data_company.stock_data@, date);
    }
    if curr_index < 1 {
        return None;
    }
    let curr_data = &data_company.stock_data[curr_index];
    let prev_data = &data_company.stock_data[curr_index - 1];
    if is_bullish_engulfing(prev_data, curr_data) {
        Some(*curr_data)
    } else {
        None
    }
}

/// Zero-or-one engulfing match for one symbol at `date`, tagged with the
/// symbol.
pub fn find_bullish_engulfing_date_company(data_company: &DataCompany, date: u32) -> (r: Vec<
    StockDataWithNo,
>)
    ensures
        spec_matches_view(r@) == spec_pair_up(
            data_company.stock_no@,
            spec_opt_to_seq(spec_engulfing_match(data_company.stock_data@, date)),
        ),
{
    let mut results: Vec<StockDataWithNo> = Vec::new();
    match engulfing_match(data_company, date) {
        Some(bar) => {
            results.push(
                StockDataWithNo { stock_no: data_company.stock_no.clone(), stock_data: bar },
            );
            proof {
                assert(spec_matches_view(results@) =~= spec_pair_up(
                    data_company.stock_no@,
                    spec_opt_to_seq(spec_engulfing_match(data_company.stock_data@, date)),
                ));
            }
        },
        None => {
            proof {
                assert(spec_matches_view(results@) =~= spec_pair_up(
                    data_company.stock_no@,
                    spec_opt_to_seq(spec_engulfing_match(data_company.stock_data@, date)),
                ));
            }
        },
    }
    results
}

/// Every symbol in the universe whose bar at `date` engulfs its
/// predecessor.
pub fn find_bullish_engulfing_date(data: &Data, date: u32) -> (r: Vec<StockDataWithNo>)
    requires
        data.wf(),
    ensures
        spec_matches_view(r@) == spec_scan(
            data.spec_companies(),
            (|bars: Seq<StockData>| spec_opt_to_seq(spec_engulfing_match(bars, date))),
        ),
{
    let ghost companies = data.spec_companies();
    let ghost pred = (|bars: Seq<StockData>| spec_opt_to_seq(spec_engulfing_match(bars, date)));
    let mut results: Vec<StockDataWithNo> = Vec::new();
    proof {
        assert(companies.take(0) =~= Seq::<(Seq<char>, Seq<StockData>)>::empty());
    }
    let n = data.company_map.stock_map.len();
    let mut i: usize = 0;
    while i < n
        invariant
            data.wf(),
            n == data.company_map.stock_map@.len(),
            i <= n,
            companies == data.spec_companies(),
            pred == (|bars: Seq<StockData>| spec_opt_to_seq(spec_engulfing_match(bars, date))),
            spec_matches_view(results@) == spec_scan(companies.take(i as int), pred),
        decreases n - i,
    {
        let data_company = &data.data_company[i];
        proof {
            assert(companies[i as int].1 == data_company.stock_data@);
            assert(companies[i as int].0 == data.company_map.stock_map@[i as int].stock_no@);
        }
        match engulfing_match(data_company, date) {
            Some(bar) => {
                let x = StockDataWithNo {
                    stock_no: data.company_map.stock_map[i].stock_no.clone(),
                    stock_data: bar,
                };
                proof {
                    lemma_scan_step_push(companies, pred, i as int, results@, x);
                }
                results.push(x);
            },
            None => {
                proof {
                    lemma_scan_step_skip(companies, pred, i as int, results@);
                }
            },
        }
        i = i + 1;
    }
    proof {
        assert(companies.take(n as int) =~= companies);
    }
    results
}

} // verus!
