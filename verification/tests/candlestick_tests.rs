use twstock::candlestick::{CandlestickType, anal_candlestick, anal_limit_up};
use twstock::cfg::ScanCfg;
use twstock::data_company::StockData;

fn cbar(open: u32, high: u32, low: u32, close: u32) -> StockData {
    StockData { date: 20260101, open, high, low, close, volume: 1000, turnover: 0, change: 0 }
}

#[test]
fn long_red_candle() {
    // body 600 > 5% of close 10600
    let b = cbar(10000, 10700, 9900, 10600);
    assert_eq!(anal_candlestick(&b), CandlestickType::LongRedCandle);
}

#[test]
fn long_green_candle() {
    let b = cbar(10600, 10700, 9900, 10000);
    assert_eq!(anal_candlestick(&b), CandlestickType::LongGreenCandle);
}

#[test]
fn doji() {
    // zero body, ends strictly inside the day's range
    let b = cbar(10000, 10100, 9900, 10000);
    assert_eq!(anal_candlestick(&b), CandlestickType::Doji);
}

#[test]
fn long_body_never_doji() {
    // body 1200 > 5% of close 21200, yet tighter than 1% of the huge range:
    // the long-body rule short-circuits, so this is never a doji
    let b = cbar(20000, 150000, 19999, 21200);
    assert_eq!(anal_candlestick(&b), CandlestickType::LongRedCandle);
}

#[test]
fn hanging_man() {
    // small body 10, lower shadow 110, upper shadow 5
    let b = cbar(1220, 1225, 1100, 1210);
    assert_eq!(anal_candlestick(&b), CandlestickType::HangingMan);
}

#[test]
fn long_lower_shadow() {
    // lower shadow 110 but upper shadow too large for a hanging man
    let b = cbar(1220, 1300, 1100, 1210);
    assert_eq!(anal_candlestick(&b), CandlestickType::LongLowerShadow);
}

#[test]
fn long_upper_shadow() {
    let b = cbar(1210, 1330, 1205, 1220);
    assert_eq!(anal_candlestick(&b), CandlestickType::LongUpperShadow);
}

#[test]
fn unknown_shape() {
    let b = cbar(1000, 1002, 999, 1001);
    assert_eq!(anal_candlestick(&b), CandlestickType::Unknown);
}

#[test]
fn limit_up_threshold() {
    let cfg = ScanCfg::new();
    let prev = cbar(1000, 1005, 995, 1000);
    // nine percent up: exactly at the default threshold
    let at = cbar(1080, 1095, 1070, 1090);
    assert!(anal_limit_up(&prev, &at, &cfg));
    let below = cbar(1080, 1090, 1070, 1089);
    assert!(!anal_limit_up(&prev, &below, &cfg));
}
