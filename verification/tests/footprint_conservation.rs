use ctb::footprint::{footprint, FootprintTrade};
use ctb::trade::AskBid;

fn trade(side: AskBid, price: u64, volume: u64) -> FootprintTrade {
    FootprintTrade { ask_bid: side, price, volume }
}

#[test]
fn test_footprint_conservation() {
    // trades at three price levels, both sides, one level hit twice per side
    let trades = vec![
        trade(AskBid::Ask, 100, 5),
        trade(AskBid::Bid, 100, 7),
        trade(AskBid::Ask, 101, 3),
        trade(AskBid::Bid, 99, 11),
        trade(AskBid::Ask, 100, 2),
        trade(AskBid::Unknown, 99, 1),
    ];
    let input_volume: u64 = trades.iter().map(|t| t.volume).sum();

    let fp = footprint(&trades);

    let ask_total: u64 = fp.levels.iter().map(|l| l.value.ask_volume).sum();
    let bid_total: u64 = fp.levels.iter().map(|l| l.value.bid_volume).sum();
    // every trade counted exactly once, none dropped
    assert_eq!(ask_total + bid_total, input_volume);

    // one level per distinct price, sorted ascending
    let prices: Vec<u64> = fp.levels.iter().map(|l| l.price).collect();
    assert_eq!(prices, vec![99, 100, 101]);

    // per-level sums by side; an unknown side counts as bid
    assert_eq!(fp.levels[0].value.ask_volume, 0);
    assert_eq!(fp.levels[0].value.bid_volume, 12);
    assert_eq!(fp.levels[1].value.ask_volume, 7);
    assert_eq!(fp.levels[1].value.bid_volume, 7);
    assert_eq!(fp.levels[2].value.ask_volume, 3);
    assert_eq!(fp.levels[2].value.bid_volume, 0);
}

#[test]
fn test_footprint_empty() {
    let trades: Vec<FootprintTrade> = Vec::new();
    let fp = footprint(&trades);
    assert_eq!(fp.levels.len(), 0);
}
