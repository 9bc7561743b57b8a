use twstock::cfg::ScanCfg;
use twstock::data::{CompanyInfo, CompanyMap, Data};
use twstock::data_company::{DataCompany, StockData};
use twstock::macd::{MacdCalculator, MacdCrossType};
use twstock::macd_scan::{
    find_macd_golden_cross_date, find_macd_golden_cross_date_company,
    find_macd_golden_cross_date_large_volume,
};

fn mbar(date: u32, close: u32, volume: u64) -> StockData {
    StockData {
        date,
        open: close,
        high: close + 10,
        low: close - 10,
        close,
        volume,
        turnover: 0,
        change: 0,
    }
}

// 100 constant closes, then one final bar jumped by `delta`
fn jump_series(delta: i64, volume: u64) -> DataCompany {
    let mut bars = Vec::new();
    for i in 0..100u32 {
        bars.push(mbar(20260101 + i, 1000, volume));
    }
    bars.push(mbar(20260101 + 100, (1000 + delta) as u32, volume));
    DataCompany::new(String::from("2330"), bars).unwrap()
}

fn universe(dc: DataCompany) -> Data {
    let infos = vec![CompanyInfo {
        stock_no: String::from("2330"),
        name: String::from("台積電"),
        industry: String::from("24"),
    }];
    Data::new(CompanyMap::new(infos), vec![dc]).unwrap()
}

#[test]
fn calc_needs_full_window() {
    let mut bars = Vec::new();
    for i in 0..100u32 {
        bars.push(mbar(20260101 + i, 1000, 1));
    }
    let dc = DataCompany::new(String::from("2330"), bars).unwrap();
    let mut calc = MacdCalculator::new(String::from("2330"));
    // index 99 has only 99 earlier bars: one short of the required 100
    assert!(calc.calc(&dc, 20260101 + 99).is_none());
    assert!(calc.calc(&dc, 20270101).is_none());
}

#[test]
fn golden_cross_fires_once_on_upward_jump() {
    let dc = jump_series(13, 1);
    let mut calc = MacdCalculator::new(String::from("2330"));
    let (results, crosses) = calc.calc(&dc, 20260101 + 100).unwrap();
    assert_eq!(results.len(), 101);
    // the flat stretch never crosses; the jump fires exactly one golden cross
    assert_eq!(crosses.len(), 1);
    assert_eq!(crosses[0].cross_type, MacdCrossType::GoldenCross);
    assert_eq!(crosses[0].date, 20260101 + 100);
    assert_eq!(crosses[0].stock_no, "2330");
}

#[test]
fn death_cross_fires_once_on_downward_jump() {
    let dc = jump_series(-13, 1);
    let mut calc = MacdCalculator::new(String::from("2330"));
    let (_results, crosses) = calc.calc(&dc, 20260101 + 100).unwrap();
    assert_eq!(crosses.len(), 1);
    assert_eq!(crosses[0].cross_type, MacdCrossType::DeathCross);
    assert_eq!(crosses[0].date, 20260101 + 100);
}

#[test]
fn scan_is_idempotent_across_reuse() {
    let dc = jump_series(13, 1);
    let date = 20260101 + 100;

    let mut fresh = MacdCalculator::new(String::from("2330"));
    let (_r1, c1) = fresh.calc(&dc, date).unwrap();

    // drag another calculator through an unrelated scan first
    let mut reused = MacdCalculator::new(String::from("2330"));
    let _ = reused.calc(&dc, 20260101 + 100);
    let _ = reused.calc(&dc, 20270101);
    let (_r2, c2) = reused.calc(&dc, date).unwrap();

    assert_eq!(c1.len(), c2.len());
    for (a, b) in c1.iter().zip(c2.iter()) {
        assert_eq!(a.date, b.date);
        assert_eq!(a.cross_type, b.cross_type);
        assert_eq!(a.stock_no, b.stock_no);
    }
}

#[test]
fn golden_cross_scan_finds_the_symbol() {
    let data = universe(jump_series(13, 1));
    let hits = find_macd_golden_cross_date_company(&data, String::from("2330"), 20260101 + 100);
    assert_eq!(hits.len(), 1);
    assert_eq!(hits[0].stock_no, "2330");
    assert_eq!(hits[0].stock_data.date, 20260101 + 100);

    let all = find_macd_golden_cross_date(&data, 20260101 + 100);
    assert_eq!(all.len(), 1);

    // a death cross is not a golden cross
    let down = universe(jump_series(-13, 1));
    assert_eq!(find_macd_golden_cross_date(&down, 20260101 + 100).len(), 0);
}

#[test]
fn large_volume_filter() {
    let cfg = ScanCfg::new();
    // 2,000 thousand shares is the floor
    let loud = universe(jump_series(13, 2_000_000));
    assert_eq!(find_macd_golden_cross_date_large_volume(&loud, 20260101 + 100, &cfg).len(), 1);
    let quiet = universe(jump_series(13, 1_999_999));
    assert_eq!(find_macd_golden_cross_date_large_volume(&quiet, 20260101 + 100, &cfg).len(), 0);
}
