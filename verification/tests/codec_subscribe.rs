use cyberpunk_display::codec::{encode_pong, encode_subscribe};
use cyberpunk_display::stream::{resolve, Market};
use cyberpunk_display::wire::{parse_message, Dialect, WireEvent};

fn chars(s: &str) -> Vec<char> {
    s.chars().collect()
}

fn btc_markets() -> Vec<Market> {
    vec![Market {
        symbol: "BTCUSDT".to_string(),
        name: "BTC".to_string(),
    }]
}

#[test]
fn test_encode_subscribe_compact() {
    let text = encode_subscribe(Dialect::Compact, &btc_markets());
    assert_eq!(
        text.iter().collect::<String>(),
        r#"{"method":"SUBSCRIBE","params":["btcusdt@aggTrade"],"id":1}"#
    );
}

#[test]
fn test_encode_subscribe_two_markets() {
    let mut markets = btc_markets();
    markets.push(Market {
        symbol: "ETHUSDT".to_string(),
        name: "ETH".to_string(),
    });
    let text = encode_subscribe(Dialect::Compact, &markets);
    assert_eq!(
        text.iter().collect::<String>(),
        r#"{"method":"SUBSCRIBE","params":["btcusdt@aggTrade","ethusdt@aggTrade"],"id":1}"#
    );
    let text = encode_subscribe(Dialect::Typed, &markets);
    assert_eq!(
        text.iter().collect::<String>(),
        r#"{"type":"subscribe","channels":["BTCUSDT","ETHUSDT"]}"#
    );
}

#[test]
fn test_subscribe_ack_round_trip() {
    // encode a subscribe request for [{BTCUSDT, BTC}], parse the exchange's
    // acknowledgment for BTCUSDT, and resolve it back to BTC
    let markets = btc_markets();
    let request = encode_subscribe(Dialect::Typed, &markets);
    assert_eq!(
        request.iter().collect::<String>(),
        r#"{"type":"subscribe","channels":["BTCUSDT"]}"#
    );
    let ack = parse_message(
        Dialect::Typed,
        &chars(r#"{"type":"subscribed","channel":"BTCUSDT"}"#),
    );
    match ack {
        Ok(WireEvent::SubscriptionAck { channel }) => {
            let sym = channel.unwrap();
            assert_eq!(sym, chars("BTCUSDT"));
            assert_eq!(resolve(&markets, &sym).unwrap(), "BTC");
        }
        _ => panic!("expected an acknowledgment"),
    }
}

#[test]
fn test_encode_pong() {
    let text: String = encode_pong(Dialect::Typed, 42).iter().collect();
    assert_eq!(text, r#"{"type":"pong","nonce":42}"#);
    let text: String = encode_pong(Dialect::Nonced, 7).iter().collect();
    assert_eq!(text, r#"{"pong":7}"#);
    let text: String = encode_pong(Dialect::Status, 0).iter().collect();
    assert_eq!(text, r#"{"status":"pong","nonce":0}"#);
    let text: String = encode_pong(Dialect::Compact, 123456).iter().collect();
    assert_eq!(text, r#"{"pong":123456}"#);
}

#[test]
fn test_encode_subscribe_nonced_and_status() {
    let markets = btc_markets();
    let text = encode_subscribe(Dialect::Nonced, &markets);
    assert_eq!(
        text.iter().collect::<String>(),
        r#"{"subscribe":["BTCUSDT"]}"#
    );
    let text = encode_subscribe(Dialect::Status, &markets);
    assert_eq!(
        text.iter().collect::<String>(),
        r#"{"op":"subscribe","channels":["BTCUSDT"]}"#
    );
}
