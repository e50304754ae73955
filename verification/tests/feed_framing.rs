use ctb::feed::{classify_message, subscription_request, StreamKind};

#[test]
fn test_subscription_request() {
    let codes = vec!["KRW-BTC".to_string(), "KRW-ETH".to_string()];
    let request = subscription_request(&codes);
    let section = |ty: &str| {
        format!(
            "{{\"codes\":[\"KRW-BTC\",\"KRW-ETH\"],\"is_only_realtime\":true,\"type\":\"{}\"}}",
            ty
        )
    };
    let expected = format!(
        "[{{\"ticket\":\"unique_ticket\"}},{},{},{},{},{{\"format\":\"SIMPLE\"}}]",
        section("trade"),
        section("orderbook"),
        section("ticker"),
        section("candle.1m")
    );
    assert_eq!(request, expected);
}

#[test]
fn test_subscription_request_single_code() {
    let codes = vec!["KRW-XRP".to_string()];
    let request = subscription_request(&codes);
    assert!(request.contains("{\"codes\":[\"KRW-XRP\"],\"is_only_realtime\":true,\"type\":\"ticker\"}"));
}

#[test]
fn test_subscription_request_no_codes() {
    let codes: Vec<String> = Vec::new();
    let request = subscription_request(&codes);
    assert!(request.contains("{\"codes\":[],\"is_only_realtime\":true,\"type\":\"trade\"}"));
}

#[test]
fn test_classify_message() {
    assert_eq!(classify_message(&"trade".to_string()), Some(StreamKind::TradeStream));
    assert_eq!(classify_message(&"orderbook".to_string()), Some(StreamKind::OrderbookStream));
    assert_eq!(classify_message(&"ticker".to_string()), Some(StreamKind::TickerStream));
    assert_eq!(classify_message(&"candle.1m".to_string()), Some(StreamKind::CandleStream));
    assert_eq!(classify_message(&"candle.5m".to_string()), None);
    assert_eq!(classify_message(&"".to_string()), None);
}
