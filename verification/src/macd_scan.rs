//! Whole-universe MACD golden-cross scans: symbols whose windowed oscillator
//! replay fires a golden cross exactly at the target date, optionally
//! restricted to bars with large traded volume.

use vstd::prelude::*;
use crate::cfg::ScanCfg;
use crate::data::{
    Data, get_company_data, lemma_scan_step_push, lemma_scan_step_skip, spec_dc_index_of,
    spec_matches_view, spec_opt_to_seq, spec_pair_up, spec_scan,
};
use crate::data_company::{
    DataCompany, StockData, StockDataWithNo, spec_dates_sorted, spec_index_of,
};
use crate::macd::{
    INTERVALS, MacdCalculator, MacdCrossType, lemma_cross_complete, lemma_crosses_indices,
    lemma_crosses_sound, spec_crosses, spec_feeds, spec_golden_at,
};

verus! {

/// The golden-cross match in one date-sorted series: the bar at `date` when
/// the windowed replay ending there fires a golden cross at its final step.
pub open spec fn spec_macd_golden_match(bars: Seq<StockData>, date: u32) -> Option<StockData> {
    match spec_index_of(bars, date) {
        None => None,
        Some(i) => if i < INTERVALS {
            None
        } else if spec_golden_at(spec_feeds(bars, i), INTERVALS as int) {
            Some(bars[i])
        } else {
            None
        },
    }
}

/// The golden-cross match for one symbol, if any: replays the window and
/// searches the emitted crossovers for a golden cross dated `date`.
fn macd_golden_match(company_data: &DataCompany, date: u32) -> (r: Option<StockData>)
    requires
        spec_dates_sorted(company_data.stock_data@),
    ensures
        r == spec_macd_golden_match(company_data.stock_data@, date),
{
    let bars = &company_data.stock_data;
    let end_index = match company_data.index_of(date) {
        Some(i) => i,
        None => {
            return None;
        },
    };
    proof {
        crate::data_company::lemma_spec_index_of(bars@, date);
    }
    let mut macd_calculator = MacdCalculator::new(company_data.stock_no.clone());
    let crosses = match macd_calculator.calc(company_data, date) {
        Some((_res, crosses)) => crosses,
        None => {
            return None;
        },
    };
    let ghost end = end_index as int;
    let ghost feeds = spec_feeds(bars@, end);
    let ghost cs = spec_crosses(feeds);
    proof {
        lemma_crosses_sound(feeds);
        lemma_crosses_indices(feeds);
    }

    let n = crosses.len();
    let mut j: usize = 0;
    while j < n
        invariant
            n == crosses@.len() == cs.len(),
            j <= n,
            spec_dates_sorted(bars@),
            spec_index_of(bars@, date) == Some(end),
            INTERVALS <= end < bars@.len() == company_data.stock_data@.len(),
            bars@ == company_data.stock_data@,
            end == end_index as int,
            end_index < company_data.stock_data@.len(),
            bars@[end].date == date,
            feeds == spec_feeds(bars@, end),
            cs == spec_crosses(feeds),
            forall|j2: int| 0 <= j2 < n ==> {
                &&& (#[trigger] crosses@[j2]).cross_type == cs[j2].1
                &&& crosses@[j2].date == bars@[end - INTERVALS + cs[j2].0].date
            },
            forall|j2: int| 0 <= j2 < n ==> 0 <= (#[trigger] cs[j2]).0 < feeds.len(),
            forall|j2: int| 0 <= j2 < n ==> {
                let e = #[trigger] cs[j2];
                &&& (e.1 == MacdCrossType::GoldenCross ==> spec_golden_at(feeds, e.0))
            },
            forall|j2: int| 0 <= j2 < j ==> !((#[trigger] crosses@[j2]).date == date
                && crosses@[j2].cross_type == MacdCrossType::GoldenCross),
        decreases n - j,
    {
        let c = &crosses[j];
        if c.date == date && matches!(c.cross_type, MacdCrossType::GoldenCross) {
            proof {
                let k = cs[j as int].0;
                if end - INTERVALS + k < end {
                    assert(bars@[end - INTERVALS + k].date < bars@[end].date);
                }
                assert(k == INTERVALS);
            }
            return Some(bars[end_index]);
        }
        j = j + 1;
    }

    proof {
        if spec_golden_at(feeds, INTERVALS as int) {
            lemma_cross_complete(feeds, INTERVALS as int);
            let e = (INTERVALS as int, MacdCrossType::GoldenCross);
            assert(cs.contains(e));
            let j2 = choose|j2: int| 0 <= j2 < cs.len() && cs[j2] == e;
            assert(crosses@[j2].date == bars@[end].date);
            assert(false);
        }
    }
    None
}

/// Golden-cross matches at `date` for the one symbol `stock_no`, which must
/// exist in the universe.
pub fn find_macd_golden_cross_date_company(data: &Data, stock_no: String, date: u32) -> (r: Vec<
    StockDataWithNo,
>)
    requires
        data.wf(),
        spec_dc_index_of(data.data_company@, stock_no@) is Some,
    ensures
        spec_matches_view(r@) == spec_pair_up(
            stock_no@,
            spec_opt_to_seq(
                spec_macd_golden_match(
                    data.data_company@[spec_dc_index_of(
                        data.data_company@,
                        stock_no@,
                    ).unwrap()].stock_data@,
                    date,
                ),
            ),
        ),
{
    let data_company = get_company_data(data, stock_no.as_str());
    let mut results: Vec<StockDataWithNo> = Vec::new();
    match macd_golden_match(data_company, date) {
        Some(bar) => {
            results.push(StockDataWithNo { stock_no: stock_no.clone(), stock_data: bar });
            proof {
                assert(spec_matches_view(results@) =~= spec_pair_up(
                    stock_no@,
                    spec_opt_to_seq(
                        spec_macd_golden_match(data_company.stock_data@, date),
                    ),
                ));
            }
        },
        None => {
            proof {
                assert(spec_matches_view(results@) =~= spec_pair_up(
                    stock_no@,
                    spec_opt_to_seq(
                        spec_macd_golden_match(data_company.stock_data@, date),
                    ),
                ));
            }
        },
    }
    results
}

/// Every symbol in the universe whose replay fires a golden cross at
/// `date`.
pub fn find_macd_golden_cross_date(data: &Data, date: u32) -> (r: Vec<StockDataWithNo>)
    requires
        data.wf(),
    ensures
        spec_matches_view(r@) == spec_scan(
            data.spec_companies(),
            (|bars: Seq<StockData>| spec_opt_to_seq(spec_macd_golden_match(bars, date))),
        ),
{
    let ghost companies = data.spec_companies();
    let ghost pred = (|bars: Seq<StockData>| spec_opt_to_seq(spec_macd_golden_match(bars, date)));
    let mut results: Vec<StockDataWithNo> = Vec::new();
    proof {
        assert(companies.take(0) =~= Seq::<(Seq<char>, Seq<StockData>)>::empty());
    }
    let n = data.company_map.stock_map.len();
    let mut i: usize = 0;
    while i < n
        invariant
            data.wf(),
            n == data.company_map.stock_map@.len(),
            i <= n,
            companies == data.spec_companies(),
            pred == (|bars: Seq<StockData>| spec_opt_to_seq(spec_macd_golden_match(bars, date))),
            spec_matches_view(results@) == spec_scan(companies.take(i as int), pred),
        decreases n - i,
    {
        let company_data = &data.data_company[i];
        proof {
            assert(companies[i as int].1 == company_data.stock_data@);
            assert(companies[i as int].0 == data.company_map.stock_map@[i as int].stock_no@);
        }
        match macd_golden_match(company_data, date) {
            Some(bar) => {
                let x = StockDataWithNo {
                    stock_no: data.company_map.stock_map[i].stock_no.clone(),
                    stock_data: bar,
                };
                proof {
                    lemma_scan_step_push(companies, pred, i as int, results@, x);
                }
                results.push(x);
            },
            None => {
                proof {
                    lemma_scan_step_skip(companies, pred, i as int, results@);
                }
            },
        }
        i = i + 1;
    }
    proof {
        assert(companies.take(n as int) =~= companies);
    }
    results
}

/// The golden-cross match restricted to bars whose traded volume reaches
/// the configured floor (given in thousands of shares).
pub open spec fn spec_macd_golden_large_match(bars: Seq<StockData>, date: u32, cfg: ScanCfg)
    -> Option<StockData> {
    match spec_macd_golden_match(bars, date) {
        Some(b) => if b.volume >= cfg.large_volume * 1000 {
            Some(b)
        } else {
            None
        },
        None => None,
    }
}

/// Every symbol whose golden cross at `date` came with large traded volume.
pub fn find_macd_golden_cross_date_large_volume(data: &Data, date: u32, cfg: &ScanCfg) -> (r: Vec<
    StockDataWithNo,
>)
    requires
        data.wf(),
        cfg.wf(),
    ensures
        spec_matches_view(r@) == spec_scan(
            data.spec_companies(),
            (|bars: Seq<StockData>| spec_opt_to_seq(
                spec_macd_golden_large_match(bars, date, *cfg),
            )),
        ),
{
    let ghost companies = data.spec_companies();
    let ghost pred =
        (|bars: Seq<StockData>| spec_opt_to_seq(spec_macd_golden_large_match(bars, date, *cfg)));
    let mut results: Vec<StockDataWithNo> = Vec::new();
    proof {
        assert(companies.take(0) =~= Seq::<(Seq<char>, Seq<StockData>)>::empty());
    }
    let n = data.company_map.stock_map.len();
    let mut i: usize = 0;
    while i < n
        invariant
            data.wf(),
            cfg.wf(),
            n == data.company_map.stock_map@.len(),
            i <= n,
            companies == data.spec_companies(),
            pred == (|bars: Seq<StockData>| spec_opt_to_seq(
                spec_macd_golden_large_match(bars, date, *cfg),
            )),
            spec_matches_view(results@) == spec_scan(companies.take(i as int), pred),
        decreases n - i,
    {
        let company_data = &data.data_company[i];
        proof {
            assert(companies[i as int].1 == company_data.stock_data@);
            assert(companies[i as int].0 == data.company_map.stock_map@[i as int].stock_no@);
        }
        let matched = match macd_golden_match(company_data, date) {
            Some(bar) => if bar.volume >= cfg.large_volume * 1000 {
                Some(bar)
            } else {
                None
            },
            None => None,
        };
        match matched {
            Some(bar) => {
                let x = StockDataWithNo {
                    stock_no: data.company_map.stock_map[i].stock_no.clone(),
                    stock_data: bar,
                };
                proof {
                    lemma_scan_step_push(companies, pred, i as int, results@, x);
                }
                results.push(x);
            },
            None => {
                proof {
                    lemma_scan_step_skip(companies, pred, i as int, results@);
                }
            },
        }
        i = i + 1;
    }
    proof {
        assert(companies.take(n as int) =~= companies);
    }
    results
}

} // verus!
