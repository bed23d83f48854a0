use cyberpunk_display::fixed::parse_fixed;
use cyberpunk_display::stream::{
    default_markets, ConnectionState, Market, PriceStream, RecvError, StreamAction, StreamEvent,
};
use cyberpunk_display::wire::Dialect;

fn chars(s: &str) -> Vec<char> {
    s.chars().collect()
}

fn started_stream(d: Dialect) -> PriceStream {
    let mut st = PriceStream::new(default_markets(), d);
    let a = st.step(StreamEvent::Started);
    assert!(matches!(a[..], [StreamAction::Connect]));
    let a = st.step(StreamEvent::ConnectOk);
    assert!(a.is_empty());
    assert_eq!(st.state, ConnectionState::Connected);
    st
}

#[test]
fn test_scenario_ack_price_ping() {
    // ack, price, ping in order: one tick for BTC at 50000.00, one pong with
    // the same nonce, nothing else
    let mut st = started_stream(Dialect::Typed);

    let a = st.step(StreamEvent::Frame(chars(
        r#"{"type":"subscribed","channel":"BTCUSDT"}"#,
    )));
    assert!(a.is_empty());

    let a = st.step(StreamEvent::Frame(chars(
        r#"{"type":"update","symbol":"BTCUSDT","price":"50000.00"}"#,
    )));
    assert_eq!(a.len(), 1);
    match &a[0] {
        StreamAction::Emit(tick) => {
            assert_eq!(tick.name, "BTC");
            assert_eq!(tick.price, parse_fixed(&chars("50000.00")).unwrap());
        }
        _ => panic!("expected one tick"),
    }

    let a = st.step(StreamEvent::Frame(chars(r#"{"type":"ping","nonce":7}"#)));
    assert_eq!(a.len(), 1);
    assert!(matches!(a[0], StreamAction::SendPongNonce(7)));
    assert_eq!(st.state, ConnectionState::Connected);
}

#[test]
fn test_keep_alive_ping_nonce_echo() {
    // a ping with nonce 42 draws exactly one pong carrying 42 and no tick
    let mut st = started_stream(Dialect::Nonced);
    let a = st.step(StreamEvent::Frame(chars(r#"{"ping":42}"#)));
    assert_eq!(a.len(), 1);
    assert!(matches!(a[0], StreamAction::SendPongNonce(42)));
    assert_eq!(st.state, ConnectionState::Connected);
}

#[test]
fn test_keep_alive_transport_ping() {
    let mut st = started_stream(Dialect::Compact);
    let a = st.step(StreamEvent::TransportPing(vec![4, 2]));
    assert_eq!(a.len(), 1);
    match &a[0] {
        StreamAction::SendPong(data) => assert_eq!(data, &vec![4, 2]),
        _ => panic!("expected one pong"),
    }
}

#[test]
fn test_reconnect_guard_idempotent() {
    // two racing failure detections start exactly one reconnect sequence
    let mut st = started_stream(Dialect::Compact);
    let a = st.step(StreamEvent::Timeout);
    assert!(matches!(a[..], [StreamAction::Sleep]));
    assert_eq!(st.state, ConnectionState::Reconnecting);
    let a = st.step(StreamEvent::TransportClosed);
    assert!(a.is_empty());
    assert_eq!(st.state, ConnectionState::Reconnecting);
    let a = st.step(StreamEvent::Timeout);
    assert!(a.is_empty());
    assert_eq!(st.state, ConnectionState::Reconnecting);
}

#[test]
fn test_timeout_then_reconnect_resumes_ticks() {
    // a receive timeout sends the stream through backoff and reconnect, and
    // ticks resume; the consumer never sees an error value
    let mut st = started_stream(Dialect::Compact);
    let a = st.step(StreamEvent::Timeout);
    assert!(matches!(a[..], [StreamAction::Sleep]));
    assert_eq!(st.state, ConnectionState::Reconnecting);
    let a = st.step(StreamEvent::BackoffElapsed);
    assert!(matches!(a[..], [StreamAction::Connect]));
    assert_eq!(st.state, ConnectionState::Connecting);
    let a = st.step(StreamEvent::ConnectOk);
    assert!(a.is_empty());
    assert_eq!(st.state, ConnectionState::Connected);
    let a = st.step(StreamEvent::Frame(chars(r#"{"s":"BTCUSDT","p":"100.5"}"#)));
    assert_eq!(a.len(), 1);
    assert!(matches!(a[0], StreamAction::Emit(_)));
}

#[test]
fn test_connect_failure_retries() {
    let mut st = PriceStream::new(default_markets(), Dialect::Compact);
    let a = st.step(StreamEvent::Started);
    assert!(matches!(a[..], [StreamAction::Connect]));
    let a = st.step(StreamEvent::ConnectFailed);
    assert!(matches!(a[..], [StreamAction::Sleep]));
    assert_eq!(st.state, ConnectionState::Reconnecting);
    let a = st.step(StreamEvent::BackoffElapsed);
    assert!(matches!(a[..], [StreamAction::Connect]));
}

#[test]
fn test_parse_failure_forces_reconnect() {
    let mut st = started_stream(Dialect::Compact);
    let a = st.step(StreamEvent::Frame(chars("garbage")));
    assert!(matches!(a[..], [StreamAction::Sleep]));
    assert_eq!(st.state, ConnectionState::Reconnecting);
}

#[test]
fn test_unknown_symbol_is_fatal() {
    let mut st = started_stream(Dialect::Compact);
    let a = st.step(StreamEvent::Frame(chars(r#"{"s":"ETHUSDT","p":"1.0"}"#)));
    assert_eq!(a.len(), 1);
    match &a[0] {
        StreamAction::FatalUnknownSymbol(sym) => assert_eq!(sym, &chars("ETHUSDT")),
        _ => panic!("expected a fatal configuration error"),
    }
}

#[test]
fn test_recv_error_messages() {
    assert_eq!(RecvError::Timeout.message(), "Timeout");
    assert_eq!(RecvError::Disconnected.message(), "Disconnected");
    assert_eq!(
        RecvError::RecevingError("socket closed".to_string()).message(),
        "socket closed"
    );
    assert_eq!(
        RecvError::UnexpectedMsgError("binary frame".to_string()).message(),
        "binary frame"
    );
    assert_eq!(
        RecvError::ParsingError("bad frame".to_string()).message(),
        "bad frame"
    );
}

#[test]
fn test_resolve_takes_first_match() {
    let markets = vec![
        Market {
            symbol: "BTCUSDT".to_string(),
            name: "BTC".to_string(),
        },
        Market {
            symbol: "ETHUSDT".to_string(),
            name: "ETH".to_string(),
        },
        Market {
            symbol: "BTCUSDT".to_string(),
            name: "SHADOWED".to_string(),
        },
    ];
    let name = cyberpunk_display::stream::resolve(&markets, &chars("BTCUSDT")).unwrap();
    assert_eq!(name, "BTC");
    let name = cyberpunk_display::stream::resolve(&markets, &chars("ETHUSDT")).unwrap();
    assert_eq!(name, "ETH");
    assert!(cyberpunk_display::stream::resolve(&markets, &chars("XRPUSDT")).is_none());
}
