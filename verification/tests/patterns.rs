use ctb::candle::Candle;
use ctb::patterns::{
    identify_candle_pattern, is_doji, is_dragonfly_doji, is_falling_shooting_star,
    is_four_price_doji, is_gravestone_doji, is_hammer, is_hanging_man, is_inverted_hammer,
    is_long_bearish_candle, is_long_bullish_candle, is_rising_shooting_star, is_shooting_star,
    CandlePattern,
};

fn create_candle(opening: u64, high: u64, low: u64, trade: u64) -> Candle {
    Candle {
        minute: 0,
        opening_price: opening,
        high_price: high,
        low_price: low,
        trade_price: trade,
        candle_acc_trade_price: 1_000_000,
        candle_acc_trade_volume: 1_000,
    }
}

#[test]
fn test_hammer_pattern() {
    let hammer_candle = create_candle(100, 105, 95, 102);
    assert!(is_hammer(&hammer_candle));

    let normal_candle = create_candle(100, 110, 90, 108);
    assert!(!is_hammer(&normal_candle));
}

#[test]
fn test_inverted_hammer_pattern() {
    let inverted_hammer_candle = create_candle(100, 115, 98, 102);
    assert!(is_inverted_hammer(&inverted_hammer_candle));
}

#[test]
fn test_long_bullish_candle() {
    let long_bullish_candle = create_candle(100, 120, 98, 118);

    let previous_candles = vec![
        create_candle(100, 105, 98, 103),
        create_candle(103, 107, 100, 105),
        create_candle(105, 108, 102, 106),
    ];

    assert!(is_long_bullish_candle(&long_bullish_candle, &previous_candles));
}

#[test]
fn test_long_bearish_candle() {
    let long_bearish_candle = create_candle(120, 122, 100, 102);

    let previous_candles = vec![
        create_candle(100, 105, 98, 103),
        create_candle(103, 107, 100, 105),
        create_candle(105, 108, 102, 106),
    ];

    assert!(is_long_bearish_candle(&long_bearish_candle, &previous_candles));
}

#[test]
fn test_doji_patterns() {
    // prices scaled by ten so the half-unit close stays integral
    let doji_candle = create_candle(1000, 1050, 950, 1005);
    assert!(is_doji(&doji_candle));

    let gravestone_doji_candle = create_candle(100, 115, 100, 100);
    assert!(is_gravestone_doji(&gravestone_doji_candle));

    let dragonfly_doji_candle = create_candle(100, 100, 85, 100);
    assert!(is_dragonfly_doji(&dragonfly_doji_candle));
}

#[test]
fn test_shooting_star_patterns() {
    let rising_shooting_star_candle = create_candle(100, 110, 100, 105);
    assert!(is_rising_shooting_star(&rising_shooting_star_candle));

    let falling_shooting_star_candle = create_candle(110, 115, 100, 100);
    assert!(is_falling_shooting_star(&falling_shooting_star_candle));
}

#[test]
fn test_hanging_man_pattern() {
    let hanging_man_candle = create_candle(100, 101, 85, 99);
    assert!(is_hanging_man(&hanging_man_candle));
}

#[test]
fn test_identify_candle_pattern() {
    let previous_candles = vec![
        create_candle(100, 105, 98, 103),
        create_candle(103, 107, 100, 105),
    ];

    let hammer_candle = create_candle(100, 105, 95, 102);
    assert_eq!(
        identify_candle_pattern(&hammer_candle, &previous_candles).map(|p| p.to_korean_name()),
        Some("망치형")
    );

    let long_bullish_candle = create_candle(100, 120, 98, 118);
    assert_eq!(
        identify_candle_pattern(&long_bullish_candle, &previous_candles)
            .map(|p| p.to_korean_name()),
        Some("장대 양봉형")
    );

    // prices scaled by ten so the half-unit close stays integral
    let doji_candle = create_candle(1000, 1050, 950, 1005);
    assert_eq!(
        identify_candle_pattern(&doji_candle, &previous_candles).map(|p| p.to_korean_name()),
        Some("십자형")
    );

    let normal_candle = create_candle(100, 110, 90, 108);
    assert_eq!(identify_candle_pattern(&normal_candle, &previous_candles), None);
}

#[test]
fn test_pattern_precedence_and_shapes() {
    // a four-price doji: all four prices equal
    let flat = create_candle(1000, 1000, 1000, 1000);
    assert!(is_four_price_doji(&flat));
    assert_eq!(
        identify_candle_pattern(&flat, &[]),
        Some(CandlePattern::FourPriceDoji)
    );

    // a textbook shooting star: long upper shadow, no lower shadow
    let star = create_candle(100, 120, 100, 103);
    assert!(is_shooting_star(&star));
    assert_eq!(identify_candle_pattern(&star, &[]), Some(CandlePattern::ShootingStar));
}
