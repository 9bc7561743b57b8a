use twstock::cfg::ScanCfg;
use twstock::complex::{
    find_complex_bearish_harami_three_day_reversal_date, find_complex_bullish_harami_pattern,
    find_complex_bullish_harami_three_day_reversal_date, find_complex_dark_cloud_cover,
    find_complex_hanging_man_date, find_complex_upside_gap_two_crows, is_bearish_harami_pattern,
    is_bullish_harami_pattern,
};
use twstock::data::{CompanyInfo, CompanyMap, Data};
use twstock::data_company::{DataCompany, StockData};
use twstock::doji::find_doji_date_range_max_min;
use twstock::engulfing::{
    find_bullish_engulfing_date, find_bullish_engulfing_date_company, is_bullish_engulfing,
};

fn pbar(date: u32, open: u32, high: u32, low: u32, close: u32, volume: u64) -> StockData {
    StockData { date, open, high, low, close, volume, turnover: 0, change: 0 }
}

fn flat(date: u32) -> StockData {
    pbar(date, 1000, 1010, 990, 1005, 1000)
}

fn puniverse(bars: Vec<StockData>) -> Data {
    let dc = DataCompany::new(String::from("2330"), bars).unwrap();
    let infos = vec![CompanyInfo {
        stock_no: String::from("2330"),
        name: String::from("台積電"),
        industry: String::from("24"),
    }];
    Data::new(CompanyMap::new(infos), vec![dc]).unwrap()
}

fn short_cfg() -> ScanCfg {
    ScanCfg { look_back_days: 6, doji_range: 6, large_volume: 2000, limit_up_num: 109, limit_up_den: 100 }
}

#[test]
fn engulfing_condition_on_the_given_pair() {
    // prev bearish 110 -> 100, curr bullish 95 -> 115 engulfing prev's range
    let prev = pbar(20260101, 11000, 11100, 9900, 10000, 1000);
    let curr = pbar(20260102, 9500, 11600, 9400, 11500, 1000);
    assert!(is_bullish_engulfing(&prev, &curr));
    // raising curr's open above prev's low breaks the engulfment
    let curr2 = pbar(20260102, 10100, 11600, 9400, 11500, 1000);
    assert!(!is_bullish_engulfing(&prev, &curr2));
}

#[test]
fn engulfing_detector_per_company_and_universe() {
    let prev = pbar(20260101, 11000, 11100, 9900, 10000, 1000);
    let curr = pbar(20260102, 9500, 11600, 9400, 11500, 1000);
    let dc = DataCompany::new(String::from("2330"), vec![prev, curr]).unwrap();
    let hits = find_bullish_engulfing_date_company(&dc, 20260102);
    assert_eq!(hits.len(), 1);
    assert_eq!(hits[0].stock_no, "2330");
    assert_eq!(hits[0].stock_data, curr);
    // the first bar has no predecessor
    assert_eq!(find_bullish_engulfing_date_company(&dc, 20260101).len(), 0);

    let curr2 = pbar(20260102, 10100, 11600, 9400, 11500, 1000);
    let dc2 = DataCompany::new(String::from("2330"), vec![prev, curr2]).unwrap();
    assert_eq!(find_bullish_engulfing_date_company(&dc2, 20260102).len(), 0);

    let data = puniverse(vec![prev, curr]);
    let all = find_bullish_engulfing_date(&data, 20260102);
    assert_eq!(all.len(), 1);
}

#[test]
fn dark_cloud_cover_end_to_end() {
    // ten bars: bar[8] bullish with a close-to-date high, bar[9] opens above
    // it, retraces into its body, and the sixty-percent floor check holds
    let mut bars = Vec::new();
    for i in 0..8u32 {
        bars.push(flat(20260101 + i));
    }
    bars.push(pbar(20260109, 1000, 2005, 995, 2000, 1000)); // bar[8], bullish
    bars.push(pbar(20260110, 2100, 2110, 1490, 1500, 1000)); // bar[9], dark cloud
    let data = puniverse(bars);
    let cfg = short_cfg();
    let hits = find_complex_dark_cloud_cover(&data, 20260110, &cfg);
    assert_eq!(hits.len(), 1);
    assert_eq!(hits[0].stock_data.date, 20260110);
    // no other date matches
    assert_eq!(find_complex_dark_cloud_cover(&data, 20260109, &cfg).len(), 0);
}

#[test]
fn dark_cloud_requires_fresh_high_open() {
    let mut bars = Vec::new();
    for i in 0..7u32 {
        bars.push(flat(20260101 + i));
    }
    // a past bar already opened above the candidate's open
    bars.push(pbar(20260108, 2200, 2300, 995, 1005, 1000));
    bars.push(pbar(20260109, 1000, 2005, 995, 2000, 1000));
    bars.push(pbar(20260110, 2100, 2110, 1490, 1500, 1000));
    let data = puniverse(bars);
    assert_eq!(find_complex_dark_cloud_cover(&data, 20260110, &short_cfg()).len(), 0);
}

#[test]
fn harami_conditions() {
    let prev = pbar(20260101, 11000, 11100, 9900, 10000, 1000);
    let curr = pbar(20260102, 10100, 10900, 10000, 10800, 1000);
    assert!(is_bullish_harami_pattern(&prev, &curr));
    assert!(!is_bearish_harami_pattern(&prev, &curr));
    let prev_red = pbar(20260101, 10000, 11100, 9900, 11000, 1000);
    let curr_black = pbar(20260102, 10900, 10950, 10050, 10100, 1000);
    assert!(is_bearish_harami_pattern(&prev_red, &curr_black));
}

#[test]
fn swing_high_rejection_blocks_harami() {
    // the harami body containment holds either way; only the window ceiling
    // decides the match
    let mut tall = Vec::new();
    for i in 0..6u32 {
        tall.push(flat(20260101 + i));
    }
    // window ceiling at 2000 >= 1.3 * close 1080
    tall.push(pbar(20260107, 1000, 2000, 990, 1005, 1000));
    tall.push(pbar(20260108, 1100, 1105, 995, 1000, 1000)); // bearish
    tall.push(pbar(20260109, 1010, 1085, 1005, 1080, 1000)); // bullish inside
    let data = puniverse(tall);
    let cfg = short_cfg();
    assert_eq!(find_complex_bullish_harami_pattern(&data, 20260109, &cfg).len(), 1);

    // the market already rallied: ceiling 1200 < 1.3 * close 1080 = 1404
    let mut low = Vec::new();
    for i in 0..6u32 {
        low.push(flat(20260101 + i));
    }
    low.push(pbar(20260107, 1000, 1200, 990, 1005, 1000));
    low.push(pbar(20260108, 1100, 1105, 995, 1000, 1000));
    low.push(pbar(20260109, 1010, 1085, 1005, 1080, 1000));
    let rejected = puniverse(low);
    assert_eq!(find_complex_bullish_harami_pattern(&rejected, 20260109, &cfg).len(), 0);
}

#[test]
fn bullish_three_day_reversal() {
    let mut bars = Vec::new();
    for i in 0..22u32 {
        let mut b = flat(20260101 + i);
        if i == 20 {
            b.high = 1600; // keeps the swing-high validation satisfied
        }
        bars.push(b);
    }
    bars.push(pbar(20260123, 1100, 1105, 995, 1000, 1000)); // bearish
    bars.push(pbar(20260124, 1010, 1085, 1005, 1080, 1000)); // bullish inside
    bars.push(pbar(20260125, 1105, 1205, 1100, 1200, 2000)); // breakout with volume
    let data = puniverse(bars);
    let cfg = short_cfg();
    let hits = find_complex_bullish_harami_three_day_reversal_date(&data, 20260125, &cfg);
    assert_eq!(hits.len(), 1);
    assert_eq!(hits[0].stock_data.date, 20260125);
}

#[test]
fn bullish_three_day_reversal_needs_volume() {
    let mut bars = Vec::new();
    for i in 0..22u32 {
        let mut b = flat(20260101 + i);
        if i == 20 {
            b.high = 1600;
        }
        bars.push(b);
    }
    bars.push(pbar(20260123, 1100, 1105, 995, 1000, 1000));
    bars.push(pbar(20260124, 1010, 1085, 1005, 1080, 1000));
    // volume exactly 1.5x the averages is not enough: strict excess required
    bars.push(pbar(20260125, 1105, 1205, 1100, 1200, 1500));
    let data = puniverse(bars);
    let hits = find_complex_bullish_harami_three_day_reversal_date(&data, 20260125, &short_cfg());
    assert_eq!(hits.len(), 0);
}

#[test]
fn bearish_three_day_reversal() {
    let mut bars = Vec::new();
    for i in 0..22u32 {
        let mut b = flat(20260101 + i);
        if i == 20 {
            b.low = 600; // keeps the swing-low validation satisfied
        }
        bars.push(b);
    }
    bars.push(pbar(20260123, 1000, 1105, 995, 1100, 1000)); // bullish
    bars.push(pbar(20260124, 1090, 1095, 1005, 1010, 1000)); // bearish inside
    bars.push(pbar(20260125, 990, 995, 895, 900, 1000)); // quiet breakdown
    let data = puniverse(bars);
    let hits = find_complex_bearish_harami_three_day_reversal_date(&data, 20260125, &short_cfg());
    assert_eq!(hits.len(), 1);
    assert_eq!(hits[0].stock_data.date, 20260125);
}

#[test]
fn upside_gap_two_crows() {
    let mut bars = Vec::new();
    for i in 0..18u32 {
        let mut b = flat(20260101 + i);
        if i == 16 {
            b.low = 900; // keeps the swing-low validation satisfied
        }
        bars.push(b);
    }
    bars.push(pbar(20260119, 1000, 1210, 995, 1200, 1000)); // bullish
    bars.push(pbar(20260120, 1400, 1410, 1295, 1300, 1000)); // bearish, gapped up
    bars.push(pbar(20260121, 1450, 1460, 1340, 1350, 1000)); // bearish, still above
    let data = puniverse(bars);
    let cfg = short_cfg();
    let hits = find_complex_upside_gap_two_crows(&data, 20260121, &cfg);
    assert_eq!(hits.len(), 1);
    assert_eq!(hits[0].stock_data.date, 20260121);
    // without the gap over the bullish bar's close there is no match
    assert_eq!(find_complex_upside_gap_two_crows(&data, 20260120, &cfg).len(), 0);
}

#[test]
fn hanging_man_after_two_limit_ups() {
    let bars = vec![
        pbar(20260101, 1000, 1005, 995, 1000, 1000),
        pbar(20260102, 1010, 1105, 1005, 1100, 1000), // +10%
        pbar(20260103, 1220, 1225, 1100, 1210, 1000), // +10%, hanging man shape
    ];
    let data = puniverse(bars);
    let cfg = ScanCfg::new();
    let hits = find_complex_hanging_man_date(&data, 20260103, &cfg);
    assert_eq!(hits.len(), 1);
    assert_eq!(hits[0].stock_data.date, 20260103);
}

#[test]
fn hanging_man_needs_both_limit_ups() {
    let bars = vec![
        pbar(20260101, 1000, 1005, 995, 1000, 1000),
        pbar(20260102, 1010, 1045, 1005, 1040, 1000), // only +4%
        pbar(20260103, 1160, 1165, 1040, 1150, 1000),
    ];
    let data = puniverse(bars);
    assert_eq!(find_complex_hanging_man_date(&data, 20260103, &ScanCfg::new()).len(), 0);
}

#[test]
fn hanging_man_second_alternative() {
    // with a one-to-one ratio a "limit-up" is any non-falling close, and the
    // alternatives separate: the prior step falls, so only the alternative
    // built on the current bar itself fires
    let cfg = ScanCfg {
        look_back_days: 6,
        doji_range: 6,
        large_volume: 2000,
        limit_up_num: 100,
        limit_up_den: 100,
    };
    let bars = vec![
        pbar(20260101, 1000, 1105, 995, 1100, 1000),
        pbar(20260102, 1010, 1015, 990, 1000, 1000), // falls: first alternative dead
        pbar(20260103, 1220, 1225, 1100, 1210, 1000), // hanging man, non-falling close
    ];
    let data = puniverse(bars);
    let hits = find_complex_hanging_man_date(&data, 20260103, &cfg);
    assert_eq!(hits.len(), 1);
    assert_eq!(hits[0].stock_data.date, 20260103);
}

#[test]
fn doji_far_from_extremes() {
    let mut bars = Vec::new();
    for i in 0..5u32 {
        let mut b = flat(20260101 + i);
        if i == 2 {
            b.high = 1400; // ceiling thirty percent above the doji's close
        }
        bars.push(b);
    }
    // zero body, ends strictly inside the range
    bars.push(pbar(20260106, 1000, 1010, 990, 1000, 1000));
    let data = puniverse(bars);
    let cfg = short_cfg();
    let hits = find_doji_date_range_max_min(&data, 20260106, &cfg);
    assert_eq!(hits.len(), 1);
    assert_eq!(hits[0].stock_data.date, 20260106);
    // a non-doji date yields nothing
    assert_eq!(find_doji_date_range_max_min(&data, 20260105, &cfg).len(), 0);
}

#[test]
fn doji_matches_once_even_with_both_extremes() {
    let mut bars = Vec::new();
    for i in 0..5u32 {
        let mut b = flat(20260101 + i);
        if i == 2 {
            b.high = 1400; // ceiling thirty percent above the doji's close
            b.low = 600; // and floor thirty percent below it
        }
        bars.push(b);
    }
    bars.push(pbar(20260106, 1000, 1010, 990, 1000, 1000));
    let data = puniverse(bars);
    // zero or one match per symbol: both extremes still yield one entry
    let hits = find_doji_date_range_max_min(&data, 20260106, &short_cfg());
    assert_eq!(hits.len(), 1);
    assert_eq!(hits[0].stock_no, "2330");
    assert_eq!(hits[0].stock_data.date, 20260106);
}
