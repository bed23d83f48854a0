use cyberpunk_display::fixed::{parse_fixed, Fixed};
use cyberpunk_display::wire::{parse_json, parse_message, Dialect, Msg, ParseError, WireEvent};

fn chars(s: &str) -> Vec<char> {
    s.chars().collect()
}

#[test]
fn test_parse_json() {
    let ack = parse_json(r#"{"result": null, "id": 1}"#).unwrap();
    assert!(matches!(ack, Msg::Subscribed));

    let update = parse_json(
        r#"{"e": "aggTrade", "E": 123456789, "s": "BNBBTC", "a": 12345, "p": "0.001", "q": "100", "f": 100, "l": 105, "T": 123456785, "m": true, "M": true}"#,
    )
    .unwrap();
    match update {
        Msg::Price { symbol, price } => {
            assert_eq!(symbol, chars("BNBBTC"));
            assert_eq!(price, parse_fixed(&chars("0.001")).unwrap());
        }
        _ => panic!("expected a price update"),
    }
}

#[test]
fn test_parse_fixed_exact() {
    let p = parse_fixed(&chars("0.001")).unwrap();
    assert_eq!(p.units, 100_000);
    assert_eq!(p.pscale, 3);
    let p = parse_fixed(&chars("50000.00")).unwrap();
    assert_eq!(p.units, 5_000_000_000_000);
    assert_eq!(p.pscale, 2);
    let p = parse_fixed(&chars("100000")).unwrap();
    assert_eq!(p.units, 10_000_000_000_000);
    assert_eq!(p.pscale, 0);
    let p = parse_fixed(&chars("1.12345678")).unwrap();
    assert_eq!(p.units, 112_345_678);
    assert_eq!(p.pscale, 8);
}

#[test]
fn test_parse_fixed_rejects() {
    // too many fractional digits to hold exactly
    assert!(parse_fixed(&chars("1.123456789")).is_none());
    // not a number at all
    assert!(parse_fixed(&chars("abc")).is_none());
    // a NaN-like or signed text is not a price
    assert!(parse_fixed(&chars("NaN")).is_none());
    assert!(parse_fixed(&chars("-1.0")).is_none());
    // empty fraction
    assert!(parse_fixed(&chars("1.")).is_none());
    // too large for the representation
    assert!(parse_fixed(&chars("999999999999999999999")).is_none());
}

#[test]
fn test_parse_price_update_each_dialect() {
    let expected = parse_fixed(&chars("50000.00")).unwrap();
    let cases: [(Dialect, &str); 4] = [
        (Dialect::Compact, r#"{"s":"BTCUSDT","p":"50000.00"}"#),
        (
            Dialect::Typed,
            r#"{"type":"update","symbol":"BTCUSDT","price":"50000.00"}"#,
        ),
        (Dialect::Nonced, r#"{"symbol":"BTCUSDT","price":"50000.00"}"#),
        (Dialect::Status, r#"{"channel":"BTCUSDT","price":"50000.00"}"#),
    ];
    for (d, payload) in cases {
        match parse_message(d, &chars(payload)) {
            Ok(WireEvent::Price { symbol, price }) => {
                assert_eq!(symbol, chars("BTCUSDT"));
                assert_eq!(price, expected);
            }
            _ => panic!("expected a price event"),
        }
    }
}

#[test]
fn test_parse_acks() {
    match parse_message(Dialect::Compact, &chars(r#"{"result":null,"id":1}"#)) {
        Ok(WireEvent::SubscriptionAck { channel }) => assert!(channel.is_none()),
        _ => panic!("expected an acknowledgment"),
    }
    match parse_message(
        Dialect::Typed,
        &chars(r#"{"type":"subscribed","channel":"BTCUSDT"}"#),
    ) {
        Ok(WireEvent::SubscriptionAck { channel }) => {
            assert_eq!(channel.unwrap(), chars("BTCUSDT"))
        }
        _ => panic!("expected an acknowledgment"),
    }
    match parse_message(Dialect::Nonced, &chars(r#"{"subscribed":"BTCUSDT"}"#)) {
        Ok(WireEvent::SubscriptionAck { channel }) => {
            assert_eq!(channel.unwrap(), chars("BTCUSDT"))
        }
        _ => panic!("expected an acknowledgment"),
    }
}

#[test]
fn test_parse_pings_and_pongs() {
    match parse_message(Dialect::Nonced, &chars(r#"{"ping":42}"#)) {
        Ok(WireEvent::Ping { nonce }) => assert_eq!(nonce, 42),
        _ => panic!("expected a ping"),
    }
    match parse_message(Dialect::Typed, &chars(r#"{"type":"ping","nonce":42}"#)) {
        Ok(WireEvent::Ping { nonce }) => assert_eq!(nonce, 42),
        _ => panic!("expected a ping"),
    }
    assert!(matches!(
        parse_message(Dialect::Typed, &chars(r#"{"type":"pong"}"#)),
        Ok(WireEvent::Pong)
    ));
    assert!(matches!(
        parse_message(Dialect::Nonced, &chars(r#"{"pong":42}"#)),
        Ok(WireEvent::Pong)
    ));
    assert!(matches!(
        parse_message(Dialect::Status, &chars(r#"{"status":"pong"}"#)),
        Ok(WireEvent::Pong)
    ));
}

#[test]
fn test_parse_malformed_payloads() {
    // missing price field
    assert!(matches!(
        parse_message(Dialect::Compact, &chars(r#"{"s":"BTCUSDT"}"#)),
        Err(ParseError::UnknownShape)
    ));
    // non-numeric price
    assert!(matches!(
        parse_message(Dialect::Compact, &chars(r#"{"s":"BTCUSDT","p":"abc"}"#)),
        Err(ParseError::InvalidPrice)
    ));
    // truncated JSON
    assert!(matches!(
        parse_message(Dialect::Compact, &chars(r#"{"s":"BTCUSDT","p":"50000.0"#)),
        Err(ParseError::UnknownShape)
    ));
    // not an object at all
    assert!(matches!(
        parse_message(Dialect::Compact, &chars("hello")),
        Err(ParseError::UnknownShape)
    ));
    // empty input
    assert!(matches!(
        parse_message(Dialect::Compact, &chars("")),
        Err(ParseError::UnknownShape)
    ));
    // unknown shape for the dialect
    assert!(matches!(
        parse_message(Dialect::Typed, &chars(r#"{"kind":"update"}"#)),
        Err(ParseError::UnknownShape)
    ));
}

#[test]
fn test_parse_is_stateless_across_failures() {
    let good = chars(r#"{"s":"BTCUSDT","p":"1.5"}"#);
    let bad = chars(r#"{"s":"BTCUSDT""#);
    assert!(parse_message(Dialect::Compact, &good).is_ok());
    assert!(parse_message(Dialect::Compact, &bad).is_err());
    // a failure on one message does not corrupt the next
    match parse_message(Dialect::Compact, &good) {
        Ok(WireEvent::Price { symbol, price }) => {
            assert_eq!(symbol, chars("BTCUSDT"));
            assert_eq!(price, Fixed::new(150_000_000, 1));
        }
        _ => panic!("expected a price event"),
    }
}
