//! The resilient price stream, as a pure state machine.
//!
//! The machine owns no socket and performs no I/O: a driver loop feeds it one
//! `StreamEvent` at a time (a connection outcome, a raw frame, a timeout) and
//! performs the `StreamAction`s it returns (open a connection, sleep out the
//! backoff, send a pong, deliver a tick). Every decision of the stream —
//! reconnect policy, keep-alive answers, symbol resolution, error absorption —
//! is taken here and verified; the driver only moves bytes.
//!
//! Transport and parse errors never reach the tick consumer as values: they
//! collapse into a reconnect, and the caller-visible sequence holds ticks
//! only.

use crate::fixed::Fixed;
use crate::wire::{parse_message, result_view, spec_parse_message, Dialect, WireEvent, WireEventV};
use vstd::prelude::*;

verus! {

/// A subscription target: an exchange-native symbol and its display label.
pub struct Market {
    pub symbol: String,
    pub name: String,
}

/// One accepted price observation, as handed to consumers.
pub struct Price {
    pub name: String,
    pub price: Fixed,
}

/// Why one connection died. Every variant is absorbed into a reconnect;
/// none is handed to the tick consumer.
pub enum RecvError {
    Timeout,
    RecevingError(String),
    UnexpectedMsgError(String),
    ParsingError(String),
    Disconnected,
}

impl RecvError {
    /// A short description, in place of `Display`.
    pub fn message(&self) -> (r: String)
        ensures
            match self {
                RecvError::Timeout => r@ == "Timeout"@,
                RecvError::RecevingError(s) => r@ == s@,
                RecvError::UnexpectedMsgError(s) => r@ == s@,
                RecvError::ParsingError(s) => r@ == s@,
                RecvError::Disconnected => r@ == "Disconnected"@,
            },
    {
        match self {
            RecvError::Timeout => String::from_str("Timeout"),
            RecvError::RecevingError(s) => s.clone(),
            RecvError::UnexpectedMsgError(s) => s.clone(),
            RecvError::ParsingError(s) => s.clone(),
            RecvError::Disconnected => String::from_str("Disconnected"),
        }
    }
}

/// Where the one transport connection stands. Exactly one reconnect sequence
/// can be in flight: the `Reconnecting` state itself is the guard.
#[derive(Clone, Copy, PartialEq, Eq, Structural, Debug)]
pub enum ConnectionState {
    /// Before the stream was started.
    Disconnected,
    /// A connection attempt is in flight.
    Connecting,
    /// A live connection is streaming messages.
    Connected,
    /// The connection died; the backoff wait is in progress.
    Reconnecting,
}

/// What the driver loop tells the machine.
pub enum StreamEvent {
    /// The caller started the stream.
    Started,
    /// The connection manager returned a live, subscribed connection.
    ConnectOk,
    /// The connection manager failed to connect.
    ConnectFailed,
    /// The backoff wait has elapsed.
    BackoffElapsed,
    /// One text frame was read off the wire.
    Frame(Vec<char>),
    /// A transport-level ping frame arrived, with its opaque payload.
    TransportPing(Vec<u8>),
    /// Nothing was read within the receive timeout.
    Timeout,
    /// The transport failed or was closed by the peer.
    TransportClosed,
    /// A pong could not be sent; the connection is as good as dead.
    PongSendFailed,
}

/// The model of a driver event.
pub enum StreamEventV {
    Started,
    ConnectOk,
    ConnectFailed,
    BackoffElapsed,
    Frame(Seq<char>),
    TransportPing(Seq<u8>),
    Timeout,
    TransportClosed,
    PongSendFailed,
}

impl View for StreamEvent {
    type V = StreamEventV;

    open spec fn view(&self) -> StreamEventV {
        match self {
            StreamEvent::Started => StreamEventV::Started,
            StreamEvent::ConnectOk => StreamEventV::ConnectOk,
            StreamEvent::ConnectFailed => StreamEventV::ConnectFailed,
            StreamEvent::BackoffElapsed => StreamEventV::BackoffElapsed,
            StreamEvent::Frame(s) => StreamEventV::Frame(s@),
            StreamEvent::TransportPing(d) => StreamEventV::TransportPing(d@),
            StreamEvent::Timeout => StreamEventV::Timeout,
            StreamEvent::TransportClosed => StreamEventV::TransportClosed,
            StreamEvent::PongSendFailed => StreamEventV::PongSendFailed,
        }
    }
}

/// What the driver loop must do after a step, in order.
pub enum StreamAction {
    /// Open a fresh connection and perform the subscribe handshake.
    Connect,
    /// Wait out the reconnect backoff, then report `BackoffElapsed`.
    Sleep,
    /// Answer a transport-level ping with a pong carrying the same payload.
    SendPong(Vec<u8>),
    /// Answer a dialect-level ping by sending the pong message for `nonce`.
    SendPongNonce(u64),
    /// Deliver one tick to the consumer.
    Emit(Price),
    /// Abort: a price event named a symbol with no configured display name,
    /// so the subscription set and the parser have diverged.
    FatalUnknownSymbol(Vec<char>),
}

/// The model of a driver action.
pub enum StreamActionV {
    Connect,
    Sleep,
    SendPong(Seq<u8>),
    SendPongNonce(u64),
    Emit(Seq<char>, Fixed),
    FatalUnknownSymbol(Seq<char>),
}

impl View for StreamAction {
    type V = StreamActionV;

    open spec fn view(&self) -> StreamActionV {
        match self {
            StreamAction::Connect => StreamActionV::Connect,
            StreamAction::Sleep => StreamActionV::Sleep,
            StreamAction::SendPong(d) => StreamActionV::SendPong(d@),
            StreamAction::SendPongNonce(n) => StreamActionV::SendPongNonce(*n),
            StreamAction::Emit(p) => StreamActionV::Emit(p.name@, p.price),
            StreamAction::FatalUnknownSymbol(s) => StreamActionV::FatalUnknownSymbol(s@),
        }
    }
}

pub open spec fn actions_view(v: Seq<StreamAction>) -> Seq<StreamActionV> {
    v.map_values(|a: StreamAction| a@)
}

/// The configured markets as (symbol, display name) pairs.
pub open spec fn markets_view(ms: Seq<Market>) -> Seq<(Seq<char>, Seq<char>)> {
    ms.map_values(|m: Market| (m.symbol@, m.name@))
}

/// The display name of the first configured market with this symbol.
pub open spec fn spec_resolve(ms: Seq<(Seq<char>, Seq<char>)>, sym: Seq<char>) -> Option<Seq<char>>
    decreases ms.len(),
{
    if ms.len() == 0 {
        None
    } else if ms[0].0 == sym {
        Some(ms[0].1)
    } else {
        spec_resolve(ms.drop_first(), sym)
    }
}

/// Resolution takes the first market with the symbol: where all earlier
/// markets carry other symbols, a symbol resolves to its own market's name.
pub proof fn lemma_resolve_first(ms: Seq<(Seq<char>, Seq<char>)>, i: int)
    requires
        0 <= i < ms.len(),
        forall|j: int| 0 <= j < i ==> ms[j].0 != ms[i].0,
    ensures
        spec_resolve(ms, ms[i].0) == Some(ms[i].1),
    decreases i,
{
    if i > 0 {
        assert(forall|j: int| 0 <= j < i - 1 ==> ms.drop_first()[j] == ms[j + 1]);
        assert(ms.drop_first()[i - 1] == ms[i]);
        lemma_resolve_first(ms.drop_first(), i - 1);
    }
}

/// A failure detection: an event that says the live connection is dead.
pub open spec fn is_failure(e: StreamEventV) -> bool {
    e is Timeout || e is TransportClosed || e is PongSendFailed
}

/// The transition table of the stream: from a connection state and an event
/// to the next state and the actions the driver performs, in order.
///
/// Failure events move `Connected` to `Reconnecting` with one `Sleep`; in any
/// other state they are absorbed, so two racing failure detections start one
/// reconnect sequence. A frame that parses to a price resolves its symbol and
/// emits one tick; an unresolvable symbol is a fatal configuration error. A
/// ping is answered before anything further is processed. A parse failure is
/// fatal to the connection, never to the process, and no error value is ever
/// emitted towards the consumer.
pub open spec fn spec_next(
    st: ConnectionState,
    d: Dialect,
    ms: Seq<(Seq<char>, Seq<char>)>,
    e: StreamEventV,
) -> (ConnectionState, Seq<StreamActionV>) {
    match e {
        StreamEventV::Started => {
            if st is Disconnected {
                (ConnectionState::Connecting, seq![StreamActionV::Connect])
            } else {
                (st, Seq::empty())
            }
        },
        StreamEventV::ConnectOk => {
            if st is Connecting {
                (ConnectionState::Connected, Seq::empty())
            } else {
                (st, Seq::empty())
            }
        },
        StreamEventV::ConnectFailed => {
            if st is Connecting {
                (ConnectionState::Reconnecting, seq![StreamActionV::Sleep])
            } else {
                (st, Seq::empty())
            }
        },
        StreamEventV::BackoffElapsed => {
            if st is Reconnecting {
                (ConnectionState::Connecting, seq![StreamActionV::Connect])
            } else {
                (st, Seq::empty())
            }
        },
        StreamEventV::TransportPing(data) => {
            if st is Connected {
                (ConnectionState::Connected, seq![StreamActionV::SendPong(data)])
            } else {
                (st, Seq::empty())
            }
        },
        StreamEventV::Frame(text) => {
            if st is Connected {
                match spec_parse_message(d, text) {
                    Err(_) => (ConnectionState::Reconnecting, seq![StreamActionV::Sleep]),
                    Ok(WireEventV::Price { symbol, price }) => match spec_resolve(ms, symbol) {
                        Some(name) => (
                            ConnectionState::Connected,
                            seq![StreamActionV::Emit(name, price)],
                        ),
                        None => (
                            ConnectionState::Connected,
                            seq![StreamActionV::FatalUnknownSymbol(symbol)],
                        ),
                    },
                    Ok(WireEventV::SubscriptionAck { .. }) => (
                        ConnectionState::Connected,
                        Seq::empty(),
                    ),
                    Ok(WireEventV::Ping { nonce }) => (
                        ConnectionState::Connected,
                        seq![StreamActionV::SendPongNonce(nonce)],
                    ),
                    Ok(WireEventV::Pong) => (ConnectionState::Connected, Seq::empty()),
                }
            } else {
                (st, Seq::empty())
            }
        },
        _ => {
            // Timeout, TransportClosed, PongSendFailed
            if st is Connected {
                (ConnectionState::Reconnecting, seq![StreamActionV::Sleep])
            } else {
                (st, Seq::empty())
            }
        },
    }
}

/// The fixed reconnect backoff, in seconds.
pub const DEFAULT_BACKOFF_SECS: u64 = 60;

/// How long a silent connection is trusted before it counts as dead, in
/// seconds.
pub const DEFAULT_RECV_TIMEOUT_SECS: u64 = 60;

/// The resilient price stream: one per subscription set. It presents callers
/// with an unbounded sequence of ticks and hides all transport churn. The
/// driver waits `backoff_secs` after each failure (the `Sleep` action) and
/// treats `recv_timeout_secs` of silence as a dead connection (the `Timeout`
/// event).
pub struct PriceStream {
    pub state: ConnectionState,
    pub markets: Vec<Market>,
    pub dialect: Dialect,
    pub backoff_secs: u64,
    pub recv_timeout_secs: u64,
}

impl PriceStream {
    pub fn new(markets: Vec<Market>, dialect: Dialect) -> (s: PriceStream)
        ensures
            s.state == ConnectionState::Disconnected,
            s.markets == markets,
            s.dialect == dialect,
            s.backoff_secs == DEFAULT_BACKOFF_SECS,
            s.recv_timeout_secs == DEFAULT_RECV_TIMEOUT_SECS,
    {
        PriceStream {
            state: ConnectionState::Disconnected,
            markets,
            dialect,
            backoff_secs: DEFAULT_BACKOFF_SECS,
            recv_timeout_secs: DEFAULT_RECV_TIMEOUT_SECS,
        }
    }

    /// Feeds one event through the transition table.
    pub fn step(&mut self, event: StreamEvent) -> (actions: Vec<StreamAction>)
        ensures
            ({
                let (ns, acts) = spec_next(
                    old(self).state,
                    old(self).dialect,
                    markets_view(old(self).markets@),
                    event@,
                );
                &&& final(self).state == ns
                &&& actions_view(actions@) == acts
                &&& final(self).markets == old(self).markets
                &&& final(self).dialect == old(self).dialect
                &&& final(self).backoff_secs == old(self).backoff_secs
                &&& final(self).recv_timeout_secs == old(self).recv_timeout_secs
            }),
    {
        let mut actions: Vec<StreamAction> = Vec::new();
        match event {
            StreamEvent::Started => {
                if self.state == ConnectionState::Disconnected {
                    self.state = ConnectionState::Connecting;
                    actions.push(StreamAction::Connect);
                }
            },
            StreamEvent::ConnectOk => {
                if self.state == ConnectionState::Connecting {
                    self.state = ConnectionState::Connected;
                }
            },
            StreamEvent::ConnectFailed => {
                if self.state == ConnectionState::Connecting {
                    self.state = ConnectionState::Reconnecting;
                    actions.push(StreamAction::Sleep);
                }
            },
            StreamEvent::BackoffElapsed => {
                if self.state == ConnectionState::Reconnecting {
                    self.state = ConnectionState::Connecting;
                    actions.push(StreamAction::Connect);
                }
            },
            StreamEvent::TransportPing(data) => {
                if self.state == ConnectionState::Connected {
                    actions.push(StreamAction::SendPong(data));
                }
            },
            StreamEvent::Frame(text) => {
                if self.state == ConnectionState::Connected {
                    match parse_message(self.dialect, &text) {
                        Err(_) => {
                            self.state = ConnectionState::Reconnecting;
                            actions.push(StreamAction::Sleep);
                        },
                        Ok(WireEvent::Price { symbol, price }) => {
                            match resolve(&self.markets, &symbol) {
                                Some(name) => {
                                    actions.push(StreamAction::Emit(Price { name, price }));
                                },
                                None => {
                                    actions.push(StreamAction::FatalUnknownSymbol(symbol));
                                },
                            }
                        },
                        Ok(WireEvent::SubscriptionAck { .. }) => {},
                        Ok(WireEvent::Ping { nonce }) => {
                            actions.push(StreamAction::SendPongNonce(nonce));
                        },
                        Ok(WireEvent::Pong) => {},
                    }
                }
            },
            StreamEvent::Timeout | StreamEvent::TransportClosed | StreamEvent::PongSendFailed => {
                if self.state == ConnectionState::Connected {
                    self.state = ConnectionState::Reconnecting;
                    actions.push(StreamAction::Sleep);
                }
            },
        }
        actions
    }
}

/// The market set a stream subscribes to when none is configured: the
/// Bitcoin/Tether pair under the display name `BTC`.
pub fn default_markets() -> (ms: Vec<Market>)
    ensures
        ms@.len() == 1,
        ms@[0].symbol@ == "BTCUSDT"@,
        ms@[0].name@ == "BTC"@,
{
    let mut ms: Vec<Market> = Vec::new();
    ms.push(Market { symbol: String::from_str("BTCUSDT"), name: String::from_str("BTC") });
    ms
}

/// Resolves an exchange symbol to its configured display name: the first
/// matching market wins, and a clone of its name is returned.
pub fn resolve(markets: &Vec<Market>, sym: &Vec<char>) -> (r: Option<String>)
    ensures
        match r {
            Some(n) => spec_resolve(markets_view(markets@), sym@) == Some(n@),
            None => spec_resolve(markets_view(markets@), sym@) is None,
        },
{
    let ghost mv = markets_view(markets@);
    proof {
        assert(mv.skip(0) =~= mv);
    }
    let mut i: usize = 0;
    while i < markets.len()
        invariant
            mv == markets_view(markets@),
            mv.len() == markets@.len(),
            i <= markets@.len(),
            spec_resolve(mv, sym@) == spec_resolve(mv.skip(i as int), sym@),
        decreases markets@.len() - i,
    {
        proof {
            assert(mv.skip(i as int)[0] == mv[i as int]);
        }
        if crate::wire::eq_str(sym, markets[i].symbol.as_str()) {
            return Some(markets[i].name.clone());
        }
        proof {
            assert(mv.skip(i as int).drop_first() =~= mv.skip(i as int + 1));
        }
        i = i + 1;
    }
    None
}

/// The reconnect guard is idempotent: of two failure detections in a row on
/// one live connection, the first starts exactly one reconnect sequence (one
/// backoff sleep) and the second is absorbed without any action, leaving the
/// single `Reconnecting` state in place.
pub proof fn lemma_reconnect_guard_idempotent(
    d: Dialect,
    ms: Seq<(Seq<char>, Seq<char>)>,
    e1: StreamEventV,
    e2: StreamEventV,
)
    requires
        is_failure(e1),
        is_failure(e2),
    ensures
        ({
            let (s1, a1) = spec_next(ConnectionState::Connected, d, ms, e1);
            let (s2, a2) = spec_next(s1, d, ms, e2);
            &&& s1 == ConnectionState::Reconnecting
            &&& a1 == seq![StreamActionV::Sleep]
            &&& s2 == ConnectionState::Reconnecting
            &&& a2 == Seq::<StreamActionV>::empty()
        }),
{
}

/// Keep-alive: a frame that decodes to `Ping { nonce }` is answered with
/// exactly one pong for that nonce, before any further event is processed,
/// and produces no tick; the connection stays live. A transport-level ping is
/// answered the same way with its own payload.
pub proof fn lemma_ping_answered(
    d: Dialect,
    ms: Seq<(Seq<char>, Seq<char>)>,
    text: Seq<char>,
    nonce: u64,
    payload: Seq<u8>,
)
    requires
        spec_parse_message(d, text) == Ok::<WireEventV, crate::wire::ParseError>(
            WireEventV::Ping { nonce },
        ),
    ensures
        spec_next(ConnectionState::Connected, d, ms, StreamEventV::Frame(text)) == (
            ConnectionState::Connected,
            seq![StreamActionV::SendPongNonce(nonce)],
        ),
        spec_next(ConnectionState::Connected, d, ms, StreamEventV::TransportPing(payload)) == (
            ConnectionState::Connected,
            seq![StreamActionV::SendPong(payload)],
        ),
{
}

/// A receive timeout is never surfaced to the consumer: it sends the stream
/// through backoff and a fresh connect, after which ticks resume; none of the
/// three transitions emits a tick or any error value.
pub proof fn lemma_timeout_recovers(d: Dialect, ms: Seq<(Seq<char>, Seq<char>)>)
    ensures
        spec_next(ConnectionState::Connected, d, ms, StreamEventV::Timeout) == (
            ConnectionState::Reconnecting,
            seq![StreamActionV::Sleep],
        ),
        spec_next(ConnectionState::Reconnecting, d, ms, StreamEventV::BackoffElapsed) == (
            ConnectionState::Connecting,
            seq![StreamActionV::Connect],
        ),
        spec_next(ConnectionState::Connecting, d, ms, StreamEventV::ConnectOk) == (
            ConnectionState::Connected,
            Seq::<StreamActionV>::empty(),
        ),
{
}

} // verus!
