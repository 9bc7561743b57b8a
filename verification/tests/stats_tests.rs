use twstock::common::{
    convert_date_to_fugle_format, convert_fugle_date_to_yyyymmdd, format_commas, str_eq,
    str_volume,
};
use twstock::data::{CompanyInfo, CompanyMap, Data, build_industry_map, get_company_data};
use twstock::data_company::{DataCompany, StockData};
use twstock::volume::{find_max_min_date_range_company, find_mv};

fn sbar(date: u32, high: u32, low: u32, volume: u64) -> StockData {
    StockData { date, open: 1000, high, low, close: 1000, volume, turnover: 0, change: 0 }
}

fn series(bars: Vec<StockData>) -> DataCompany {
    DataCompany::new(String::from("2330"), bars).unwrap()
}

#[test]
fn date_conversions_round_trip() {
    assert_eq!(convert_date_to_fugle_format("20260211"), "2026-02-11");
    assert_eq!(convert_fugle_date_to_yyyymmdd("2026-02-11"), "20260211");
}

#[test]
fn format_commas_groups_of_three() {
    assert_eq!(format_commas(0), "0");
    assert_eq!(format_commas(999), "999");
    assert_eq!(format_commas(1000), "1,000");
    assert_eq!(format_commas(1234567), "1,234,567");
}

#[test]
fn str_volume_thousands() {
    assert_eq!(str_volume(2000000), "2,000");
    assert_eq!(str_volume(999), "0");
}

#[test]
fn str_eq_compares_contents() {
    assert!(str_eq("2330", "2330"));
    assert!(!str_eq("2330", "2317"));
    assert!(!str_eq("2330", "233"));
}

#[test]
fn series_construction_enforces_sorted_dates() {
    let good = vec![sbar(20260101, 1010, 990, 1), sbar(20260102, 1010, 990, 1)];
    assert!(DataCompany::new(String::from("2330"), good).is_some());
    let unsorted = vec![sbar(20260102, 1010, 990, 1), sbar(20260101, 1010, 990, 1)];
    assert!(DataCompany::new(String::from("2330"), unsorted).is_none());
    let duplicate = vec![sbar(20260101, 1010, 990, 1), sbar(20260101, 1010, 990, 1)];
    assert!(DataCompany::new(String::from("2330"), duplicate).is_none());
}

#[test]
fn index_lookup() {
    let dc = series(vec![sbar(20260101, 1010, 990, 1), sbar(20260103, 1010, 990, 1)]);
    assert_eq!(dc.index_of(20260103), Some(1));
    // weekends and holidays are absent: a normal outcome, not an error
    assert_eq!(dc.index_of(20260102), None);
    assert_eq!(dc.get_stock_data_by_date(20260103).unwrap().date, 20260103);
    assert!(dc.get_stock_data_by_date(20260102).is_none());
}

#[test]
fn windowed_slicing() {
    let dc = series(vec![
        sbar(20260101, 1010, 990, 1),
        sbar(20260102, 1011, 991, 2),
        sbar(20260103, 1012, 992, 3),
    ]);
    assert_eq!(dc.at(1).date, 20260102);
    let w = dc.window(2, 2).unwrap();
    assert_eq!(w.len(), 2);
    assert_eq!(w[0].date, 20260102);
    assert_eq!(w[1].date, 20260103);
    // asking for more history than exists is a soft failure
    assert!(dc.window(2, 4).is_none());
    assert!(dc.window(3, 1).is_none());
    assert!(dc.window(2, 0).is_none());
}

#[test]
fn max_min_requires_full_window() {
    let bars: Vec<StockData> = (0..5)
        .map(|i| sbar(20260101 + i as u32, 1010 + i as u32, 990 - i as u32, 1))
        .collect();
    let dc = series(bars);
    // five bars end at the last date: a six-bar window is one short
    assert_eq!(find_max_min_date_range_company(&dc, 20260105, 6), None);
    let (mx, mn) = find_max_min_date_range_company(&dc, 20260105, 5).unwrap();
    assert_eq!((mx, mn), (1014, 986));
    // a shorter window sees only its own bars
    let (mx2, mn2) = find_max_min_date_range_company(&dc, 20260105, 2).unwrap();
    assert_eq!((mx2, mn2), (1014, 986));
    assert_eq!(find_max_min_date_range_company(&dc, 20260199, 5), None);
}

#[test]
fn moving_volume_sums_are_exact_means() {
    // volumes 1..=20: mv5 = 18, mv10 = 15.5, mv20 = 10.5, as exact rationals
    let bars: Vec<StockData> = (0..20)
        .map(|i| sbar(20260101 + i as u32, 1010, 990, (i + 1) as u64))
        .collect();
    let dc = series(bars);
    let (s5, s10, s20) = find_mv(&dc, 20260120).unwrap();
    assert_eq!(s5, 90); // 5 * 18
    assert_eq!(s10, 155); // 10 * 15.5
    assert_eq!(s20, 210); // 20 * 10.5
    assert_eq!(s5 % 5, 0);
    assert_eq!(s10 * 2 % 10, 0);
}

#[test]
fn moving_volume_requires_twenty_bars() {
    let bars: Vec<StockData> = (0..19)
        .map(|i| sbar(20260101 + i as u32, 1010, 990, 1))
        .collect();
    let dc = series(bars);
    assert_eq!(find_mv(&dc, 20260119), None);
}

#[test]
fn industry_map_has_all_codes() {
    let m = build_industry_map();
    assert_eq!(m.len(), 37);
    assert_eq!(m[0].0, "01");
    assert_eq!(m[0].1, "水泥工業");
}

#[test]
fn company_display_name() {
    let infos = vec![CompanyInfo {
        stock_no: String::from("2330"),
        name: String::from("台積電"),
        industry: String::from("24"),
    }, CompanyInfo {
        stock_no: String::from("9999"),
        name: String::from("無名"),
        industry: String::from("99"),
    }];
    let cm = CompanyMap::new(infos);
    assert_eq!(cm.get_name("2330"), "台積電/半導體業");
    assert_eq!(cm.get_name("9999"), "無名/未知產業");
}

#[test]
fn universe_alignment_is_validated() {
    let infos = vec![CompanyInfo {
        stock_no: String::from("2330"),
        name: String::from("台積電"),
        industry: String::from("24"),
    }];
    let cm = CompanyMap::new(infos);
    let dc = series(vec![sbar(20260101, 1010, 990, 1)]);
    let data = Data::new(cm, vec![dc]).unwrap();
    assert_eq!(get_company_data(&data, "2330").stock_no, "2330");

    let infos2 = vec![CompanyInfo {
        stock_no: String::from("2317"),
        name: String::from("鴻海"),
        industry: String::from("25"),
    }];
    let cm2 = CompanyMap::new(infos2);
    let dc2 = series(vec![sbar(20260101, 1010, 990, 1)]);
    assert!(Data::new(cm2, vec![dc2]).is_none());
}
