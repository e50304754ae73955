use ctb::sma::calculate_sma;
use ctb::trend::{analyze_trend_moving_average, Trend};

#[test]
pub fn test_calculate_sma() {
    let data = vec![1, 2, 3, 4, 5, 6, 7, 8, 9, 10];
    let sma = calculate_sma(&data, 3);
    assert_eq!(sma, Some(9));

    let data = vec![1, 2, 3, 4, 5, 6, 7, 8, 9, 10];
    let sma = calculate_sma(&data, 5);
    assert_eq!(sma, Some(8));

    let data = vec![1, 2, 3, 4, 5, 6, 7, 8, 9, 10];
    let sma = calculate_sma(&data, 7);
    assert_eq!(sma, Some(7));
}

#[test]
fn test_calculate_sma_short_series() {
    let data = vec![5, 6];
    assert_eq!(calculate_sma(&data, 3), None);
    assert_eq!(calculate_sma(&data, 0), None);
}

#[test]
pub fn test_analyze_trend_moving_average() {
    let prices = vec![100, 101, 102, 103, 104, 105, 106, 107, 108, 109, 110];
    let trend = analyze_trend_moving_average(&prices, 3, 7);
    assert_eq!(trend, Some(Trend::Uptrend));
}

#[test]
pub fn test_analyze_trend_moving_average_complex() {
    // rising segment
    let prices_up = vec![100, 102, 104, 106, 108, 110, 112];
    let trend_up = analyze_trend_moving_average(&prices_up, 3, 5);
    assert_eq!(trend_up, Some(Trend::Uptrend));

    // falling segment
    let prices_down = vec![120, 118, 116, 114, 112, 110, 108];
    let trend_down = analyze_trend_moving_average(&prices_down, 3, 5);
    assert_eq!(trend_down, Some(Trend::Downtrend));

    // sideways segment, prices scaled by ten to keep the half units integral
    let prices_sideways = vec![1000, 1005, 995, 1000, 1002, 998, 1000];
    let trend_sideways = analyze_trend_moving_average(&prices_sideways, 3, 5);
    assert_eq!(trend_sideways, Some(Trend::Sideways));

    // rise then fall: the tail decides
    let prices_mixed = vec![100, 102, 104, 106, 108, 110, 108, 106, 104, 102, 100];
    let trend_mixed = analyze_trend_moving_average(&prices_mixed, 3, 7);
    assert_eq!(trend_mixed, Some(Trend::Downtrend));
}

#[test]
fn test_analyze_trend_bad_periods() {
    let prices = vec![100, 101, 102];
    assert_eq!(analyze_trend_moving_average(&prices, 5, 3), None);
    assert_eq!(analyze_trend_moving_average(&prices, 2, 5), None);
}
