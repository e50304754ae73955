use ctb::trade::{filter_trades_by_same_minute, is_trade_time_previous_minute, AskBid, Trade};

// minute discriminators of 2024-01-01 12:00, 12:01 and 12:02 UTC
const M1200: u64 = 28401840;
const M1201: u64 = 28401841;
const M1202: u64 = 28401842;

fn get_default_trade(minute: u64) -> Trade {
    Trade {
        trade_price: 0,
        trade_volume: 0,
        ask_bid: AskBid::Ask,
        minute,
    }
}

#[test]
pub fn test_filter_trades_by_previous_minute() {
    let trades = vec![
        get_default_trade(M1200),
        get_default_trade(M1201),
        get_default_trade(M1202),
    ];

    // 12:01 KST is 03:01 UTC: none of the trades fall in that minute
    let filtered_trades = filter_trades_by_same_minute(&trades, M1201 - 9 * 60);
    // 21:01 KST is 12:01 UTC
    let filtered_trades_2 = filter_trades_by_same_minute(&trades, M1201);
    // 21:02 KST is 12:02 UTC
    let filtered_trades_3 = filter_trades_by_same_minute(&trades, M1202);

    assert_eq!(filtered_trades.len(), 0);
    assert_eq!(filtered_trades_2.len(), 1);
    assert_eq!(filtered_trades_3.len(), 1);
}

#[test]
pub fn test_is_trade_time_previous_minute() {
    let trades = vec![
        get_default_trade(M1200),
        get_default_trade(M1201),
        get_default_trade(M1202),
    ];
    // 21:01 KST is 12:01 UTC
    let is_previous_minute = is_trade_time_previous_minute(&trades[0], M1201);
    assert_eq!(is_previous_minute, true);
    let is_previous_minute = is_trade_time_previous_minute(&trades[1], M1201);
    assert_eq!(is_previous_minute, false);
    let is_previous_minute = is_trade_time_previous_minute(&trades[2], M1201);
    assert_eq!(is_previous_minute, false);
}
