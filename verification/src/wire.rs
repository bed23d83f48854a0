//! The wire parser: one raw exchange message in, one typed event out.
//!
//! Four incompatible dialects are supported; each is a fixed interpretation
//! of the flat JSON object that `crate::json` scans. The parser is pure and
//! stateless: a failure on one message says nothing about the next.

use crate::fixed::{parse_fixed, spec_fixed_of, Fixed};
use crate::json::{fields_view, parse_object, spec_parse_object, Json, JsonV};
use vstd::prelude::*;
use vstd::slice::slice_to_vec;

verus! {

/// Which exchange wire format a message is written in.
#[derive(Clone, Copy, PartialEq, Eq, Structural, Debug)]
pub enum Dialect {
    /// Compact single-letter fields: `{"s":"BTCUSDT","p":"50000.00"}`;
    /// the subscribe acknowledgment is `{"result":null,"id":1}`.
    Compact,
    /// Typed objects: `{"type":"update","symbol":...,"price":...}`,
    /// `{"type":"subscribed","channel":...}`, `{"type":"ping","nonce":7}`,
    /// `{"type":"pong"}`.
    Typed,
    /// Bare keep-alive objects with numeric nonces: `{"ping":7}` and
    /// `{"pong":7}`, beside `{"symbol":...,"price":...}` updates and
    /// `{"subscribed":"BTCUSDT"}` acknowledgments.
    Nonced,
    /// Objects keyed by a status field: `{"status":"subscribed","channel":...}`,
    /// `{"status":"ping","nonce":7}`, `{"status":"pong"}`, and
    /// `{"channel":...,"price":...}` updates.
    Status,
}

/// One decoded exchange message.
pub enum WireEvent {
    /// A price update for an exchange-native symbol.
    Price { symbol: Vec<char>, price: Fixed },
    /// A subscription acknowledgment, with the channel where the dialect
    /// names one.
    SubscriptionAck { channel: Option<Vec<char>> },
    /// A keep-alive challenge that must be answered with a pong.
    Ping { nonce: u64 },
    /// A keep-alive answer.
    Pong,
}

/// The mathematical model of a decoded message.
pub enum WireEventV {
    Price { symbol: Seq<char>, price: Fixed },
    SubscriptionAck { channel: Option<Seq<char>> },
    Ping { nonce: u64 },
    Pong,
}

impl View for WireEvent {
    type V = WireEventV;

    open spec fn view(&self) -> WireEventV {
        match self {
            WireEvent::Price { symbol, price } => WireEventV::Price {
                symbol: symbol@,
                price: *price,
            },
            WireEvent::SubscriptionAck { channel } => WireEventV::SubscriptionAck {
                channel: match channel {
                    Some(c) => Some(c@),
                    None => None,
                },
            },
            WireEvent::Ping { nonce } => WireEventV::Ping { nonce: *nonce },
            WireEvent::Pong => WireEventV::Pong,
        }
    }
}

/// Why a message was rejected.
#[derive(Clone, Copy, PartialEq, Eq, Structural, Debug)]
pub enum ParseError {
    /// The payload is not a well-formed object of the dialect: truncated or
    /// malformed text, or a shape with no known meaning.
    UnknownShape,
    /// The shape is a price update but its price field does not hold an exact
    /// positive decimal that the price type can represent.
    InvalidPrice,
}

/// The model of a parse result.
pub open spec fn result_view(r: Result<WireEvent, ParseError>) -> Result<WireEventV, ParseError> {
    match r {
        Ok(e) => Ok(e@),
        Err(x) => Err(x),
    }
}

/// The value of the first field named `k`, in message order.
pub open spec fn lookup(fields: Seq<(Seq<char>, JsonV)>, k: Seq<char>) -> Option<JsonV>
    decreases fields.len(),
{
    if fields.len() == 0 {
        None
    } else if fields[0].0 == k {
        Some(fields[0].1)
    } else {
        lookup(fields.drop_first(), k)
    }
}

/// Compares a scanned text with a string slice, character by character.
pub fn eq_str(v: &Vec<char>, s: &str) -> (r: bool)
    ensures
        r == (v@ == s@),
{
    let n = s.unicode_len();
    if v.len() != n {
        return false;
    }
    let mut i: usize = 0;
    while i < n
        invariant
            n == s@.len(),
            v@.len() == n,
            i <= n,
            forall|k: int| 0 <= k < i ==> v@[k] == s@[k],
        decreases n - i,
    {
        if v[i] != s.get_char(i) {
            return false;
        }
        i = i + 1;
    }
    proof {
        assert(v@ =~= s@);
    }
    true
}

fn find_field<'a>(fields: &'a Vec<(Vec<char>, Json)>, k: &str) -> (r: Option<&'a Json>)
    ensures
        match r {
            Some(j) => lookup(fields_view(fields@), k@) == Some(j@),
            None => lookup(fields_view(fields@), k@) is None,
        },
{
    let ghost fv = fields_view(fields@);
    proof {
        assert(fv.skip(0) =~= fv);
    }
    let mut i: usize = 0;
    while i < fields.len()
        invariant
            fv == fields_view(fields@),
            fv.len() == fields@.len(),
            i <= fields@.len(),
            lookup(fv, k@) == lookup(fv.skip(i as int), k@),
        decreases fields@.len() - i,
    {
        proof {
            assert(fv.skip(i as int)[0] == fv[i as int]);
        }
        if eq_str(&fields[i].0, k) {
            return Some(&fields[i].1);
        }
        proof {
            assert(fv.skip(i as int).drop_first() =~= fv.skip(i as int + 1));
        }
        i = i + 1;
    }
    None
}

/// Copies out the content of a string field.
fn chars_of(v: &Vec<char>) -> (r: Vec<char>)
    ensures
        r@ == v@,
{
    slice_to_vec(v.as_slice())
}

/// A price update from its symbol and price texts.
fn price_event(sym: &Vec<char>, ps: &Vec<char>) -> (r: Result<WireEvent, ParseError>)
    ensures
        result_view(r) == match spec_fixed_of(ps@) {
            Some(fx) => Ok::<WireEventV, ParseError>(
                WireEventV::Price { symbol: sym@, price: fx },
            ),
            None => Err(ParseError::InvalidPrice),
        },
{
    match parse_fixed(ps) {
        Some(fx) => Ok(WireEvent::Price { symbol: chars_of(sym), price: fx }),
        None => Err(ParseError::InvalidPrice),
    }
}

/// What a message of the compact dialect means, field by field.
pub open spec fn spec_interpret_compact(f: Seq<(Seq<char>, JsonV)>) -> Result<
    WireEventV,
    ParseError,
> {
    match (lookup(f, "s"@), lookup(f, "p"@)) {
        (Some(JsonV::Str(sym)), Some(JsonV::Str(ps))) => match spec_fixed_of(ps) {
            Some(fx) => Ok(WireEventV::Price { symbol: sym, price: fx }),
            None => Err(ParseError::InvalidPrice),
        },
        _ => match (lookup(f, "result"@), lookup(f, "id"@)) {
            (Some(JsonV::Null), Some(JsonV::Int(_))) => Ok(
                WireEventV::SubscriptionAck { channel: None },
            ),
            _ => Err(ParseError::UnknownShape),
        },
    }
}

fn interpret_compact(fields: &Vec<(Vec<char>, Json)>) -> (r: Result<WireEvent, ParseError>)
    ensures
        result_view(r) == spec_interpret_compact(fields_view(fields@)),
{
    match (find_field(fields, "s"), find_field(fields, "p")) {
        (Some(Json::Str(sym)), Some(Json::Str(ps))) => price_event(sym, ps),
        _ => match (find_field(fields, "result"), find_field(fields, "id")) {
            (Some(Json::Null), Some(Json::Int(_))) => Ok(
                WireEvent::SubscriptionAck { channel: None },
            ),
            _ => Err(ParseError::UnknownShape),
        },
    }
}

/// What a message of the typed dialect means, field by field.
pub open spec fn spec_interpret_typed(f: Seq<(Seq<char>, JsonV)>) -> Result<
    WireEventV,
    ParseError,
> {
    match lookup(f, "type"@) {
        Some(JsonV::Str(t)) => {
            if t == "subscribed"@ {
                match lookup(f, "channel"@) {
                    Some(JsonV::Str(c)) => Ok(WireEventV::SubscriptionAck { channel: Some(c) }),
                    _ => Err(ParseError::UnknownShape),
                }
            } else if t == "update"@ {
                match (lookup(f, "symbol"@), lookup(f, "price"@)) {
                    (Some(JsonV::Str(sym)), Some(JsonV::Str(ps))) => match spec_fixed_of(ps) {
                        Some(fx) => Ok(WireEventV::Price { symbol: sym, price: fx }),
                        None => Err(ParseError::InvalidPrice),
                    },
                    _ => Err(ParseError::UnknownShape),
                }
            } else if t == "ping"@ {
                match lookup(f, "nonce"@) {
                    Some(JsonV::Int(n)) => {
                        if 0 <= n <= u64::MAX {
                            Ok(WireEventV::Ping { nonce: n as u64 })
                        } else {
                            Err(ParseError::UnknownShape)
                        }
                    },
                    _ => Err(ParseError::UnknownShape),
                }
            } else if t == "pong"@ {
                Ok(WireEventV::Pong)
            } else {
                Err(ParseError::UnknownShape)
            }
        },
        _ => Err(ParseError::UnknownShape),
    }
}

fn interpret_typed(fields: &Vec<(Vec<char>, Json)>) -> (r: Result<WireEvent, ParseError>)
    ensures
        result_view(r) == spec_interpret_typed(fields_view(fields@)),
{
    match find_field(fields, "type") {
        Some(Json::Str(t)) => {
            if eq_str(t, "subscribed") {
                match find_field(fields, "channel") {
                    Some(Json::Str(c)) => Ok(
                        WireEvent::SubscriptionAck { channel: Some(chars_of(c)) },
                    ),
                    _ => Err(ParseError::UnknownShape),
                }
            } else if eq_str(t, "update") {
                match (find_field(fields, "symbol"), find_field(fields, "price")) {
                    (Some(Json::Str(sym)), Some(Json::Str(ps))) => price_event(sym, ps),
                    _ => Err(ParseError::UnknownShape),
                }
            } else if eq_str(t, "ping") {
                match find_field(fields, "nonce") {
                    Some(Json::Int(n)) => Ok(WireEvent::Ping { nonce: *n }),
                    _ => Err(ParseError::UnknownShape),
                }
            } else if eq_str(t, "pong") {
                Ok(WireEvent::Pong)
            } else {
                Err(ParseError::UnknownShape)
            }
        },
        _ => Err(ParseError::UnknownShape),
    }
}

/// What a message of the nonced dialect means, field by field.
pub open spec fn spec_interpret_nonced(f: Seq<(Seq<char>, JsonV)>) -> Result<
    WireEventV,
    ParseError,
> {
    match lookup(f, "ping"@) {
        Some(JsonV::Int(n)) => {
            if 0 <= n <= u64::MAX {
                Ok(WireEventV::Ping { nonce: n as u64 })
            } else {
                Err(ParseError::UnknownShape)
            }
        },
        _ => match lookup(f, "pong"@) {
            Some(JsonV::Int(_)) => Ok(WireEventV::Pong),
            _ => match (lookup(f, "symbol"@), lookup(f, "price"@)) {
                (Some(JsonV::Str(sym)), Some(JsonV::Str(ps))) => match spec_fixed_of(ps) {
                    Some(fx) => Ok(WireEventV::Price { symbol: sym, price: fx }),
                    None => Err(ParseError::InvalidPrice),
                },
                _ => match lookup(f, "subscribed"@) {
                    Some(JsonV::Str(c)) => Ok(WireEventV::SubscriptionAck { channel: Some(c) }),
                    _ => Err(ParseError::UnknownShape),
                },
            },
        },
    }
}

fn interpret_nonced(fields: &Vec<(Vec<char>, Json)>) -> (r: Result<WireEvent, ParseError>)
    ensures
        result_view(r) == spec_interpret_nonced(fields_view(fields@)),
{
    match find_field(fields, "ping") {
        Some(Json::Int(n)) => Ok(WireEvent::Ping { nonce: *n }),
        _ => match find_field(fields, "pong") {
            Some(Json::Int(_)) => Ok(WireEvent::Pong),
            _ => match (find_field(fields, "symbol"), find_field(fields, "price")) {
                (Some(Json::Str(sym)), Some(Json::Str(ps))) => price_event(sym, ps),
                _ => match find_field(fields, "subscribed") {
                    Some(Json::Str(c)) => Ok(
                        WireEvent::SubscriptionAck { channel: Some(chars_of(c)) },
                    ),
                    _ => Err(ParseError::UnknownShape),
                },
            },
        },
    }
}

/// What a message of the status dialect means, field by field.
pub open spec fn spec_interpret_status(f: Seq<(Seq<char>, JsonV)>) -> Result<
    WireEventV,
    ParseError,
> {
    match lookup(f, "status"@) {
        Some(JsonV::Str(st)) => {
            if st == "subscribed"@ {
                match lookup(f, "channel"@) {
                    Some(JsonV::Str(c)) => Ok(WireEventV::SubscriptionAck { channel: Some(c) }),
                    _ => Err(ParseError::UnknownShape),
                }
            } else if st == "ping"@ {
                match lookup(f, "nonce"@) {
                    Some(JsonV::Int(n)) => {
                        if 0 <= n <= u64::MAX {
                            Ok(WireEventV::Ping { nonce: n as u64 })
                        } else {
                            Err(ParseError::UnknownShape)
                        }
                    },
                    _ => Err(ParseError::UnknownShape),
                }
            } else if st == "pong"@ {
                Ok(WireEventV::Pong)
            } else {
                Err(ParseError::UnknownShape)
            }
        },
        _ => match (lookup(f, "channel"@), lookup(f, "price"@)) {
            (Some(JsonV::Str(sym)), Some(JsonV::Str(ps))) => match spec_fixed_of(ps) {
                Some(fx) => Ok(WireEventV::Price { symbol: sym, price: fx }),
                None => Err(ParseError::InvalidPrice),
            },
            _ => Err(ParseError::UnknownShape),
        },
    }
}

fn interpret_status(fields: &Vec<(Vec<char>, Json)>) -> (r: Result<WireEvent, ParseError>)
    ensures
        result_view(r) == spec_interpret_status(fields_view(fields@)),
{
    match find_field(fields, "status") {
        Some(Json::Str(st)) => {
            if eq_str(st, "subscribed") {
                match find_field(fields, "channel") {
                    Some(Json::Str(c)) => Ok(
                        WireEvent::SubscriptionAck { channel: Some(chars_of(c)) },
                    ),
                    _ => Err(ParseError::UnknownShape),
                }
            } else if eq_str(st, "ping") {
                match find_field(fields, "nonce") {
                    Some(Json::Int(n)) => Ok(WireEvent::Ping { nonce: *n }),
                    _ => Err(ParseError::UnknownShape),
                }
            } else if eq_str(st, "pong") {
                Ok(WireEvent::Pong)
            } else {
                Err(ParseError::UnknownShape)
            }
        },
        _ => match (find_field(fields, "channel"), find_field(fields, "price")) {
            (Some(Json::Str(sym)), Some(Json::Str(ps))) => price_event(sym, ps),
            _ => Err(ParseError::UnknownShape),
        },
    }
}

/// What a field list means under each dialect.
pub open spec fn spec_interpret(d: Dialect, f: Seq<(Seq<char>, JsonV)>) -> Result<
    WireEventV,
    ParseError,
> {
    match d {
        Dialect::Compact => spec_interpret_compact(f),
        Dialect::Typed => spec_interpret_typed(f),
        Dialect::Nonced => spec_interpret_nonced(f),
        Dialect::Status => spec_interpret_status(f),
    }
}

/// What one raw message means under a dialect: the event it denotes, or the
/// error it is rejected with. Any text that is not a flat object of the
/// dialect's shape is rejected; nothing else is.
pub open spec fn spec_parse_message(d: Dialect, s: Seq<char>) -> Result<WireEventV, ParseError> {
    match spec_parse_object(s) {
        None => Err(ParseError::UnknownShape),
        Some(fs) => spec_interpret(d, fs),
    }
}

/// The canonical price-update payload of each dialect, for a symbol and a
/// price text.
pub open spec fn spec_update_text(d: Dialect, sym: Seq<char>, ps: Seq<char>) -> Seq<char> {
    match d {
        Dialect::Compact => crate::json::obj2_text("s"@, sym, "p"@, ps),
        Dialect::Typed => crate::json::obj3_text(
            "type"@,
            "update"@,
            "symbol"@,
            sym,
            "price"@,
            ps,
        ),
        Dialect::Nonced => crate::json::obj2_text("symbol"@, sym, "price"@, ps),
        Dialect::Status => crate::json::obj2_text("channel"@, sym, "price"@, ps),
    }
}

/// For every valid price-update payload of every supported dialect, the
/// parser yields a `Price` event whose symbol is the payload's symbol and
/// whose value is exactly the decimal value of the payload's price text.
proof fn lemma_update_compact(sym: Seq<char>, ps: Seq<char>, fx: Fixed)
    requires
        crate::json::plain_text(sym),
        crate::json::plain_text(ps),
        spec_fixed_of(ps) == Some(fx),
    ensures
        spec_parse_message(Dialect::Compact, spec_update_text(Dialect::Compact, sym, ps)) == Ok::<
            WireEventV,
            ParseError,
        >(WireEventV::Price { symbol: sym, price: fx }),
{
    reveal_with_fuel(lookup, 4);
    reveal_strlit("s");
    reveal_strlit("p");
    crate::json::lemma_parse_obj2("s"@, sym, "p"@, ps);
    let f = seq![("s"@, JsonV::Str(sym)), ("p"@, JsonV::Str(ps))];
    assert(lookup(f, "s"@) == Some(JsonV::Str(sym)));
    assert(f.drop_first() =~= seq![("p"@, JsonV::Str(ps))]);
    assert("s"@[0] == 's' && "p"@[0] == 'p');
    assert("s"@ != "p"@);
    assert(lookup(f, "p"@) == Some(JsonV::Str(ps)));
}

proof fn lemma_update_typed(sym: Seq<char>, ps: Seq<char>, fx: Fixed)
    requires
        crate::json::plain_text(sym),
        crate::json::plain_text(ps),
        spec_fixed_of(ps) == Some(fx),
    ensures
        spec_parse_message(Dialect::Typed, spec_update_text(Dialect::Typed, sym, ps)) == Ok::<
            WireEventV,
            ParseError,
        >(WireEventV::Price { symbol: sym, price: fx }),
{
    reveal_with_fuel(lookup, 4);
    reveal_strlit("type");
    reveal_strlit("update");
    reveal_strlit("subscribed");
    reveal_strlit("symbol");
    reveal_strlit("price");
    crate::json::lemma_parse_obj3("type"@, "update"@, "symbol"@, sym, "price"@, ps);
    let f = seq![
        ("type"@, JsonV::Str("update"@)),
        ("symbol"@, JsonV::Str(sym)),
        ("price"@, JsonV::Str(ps)),
    ];
    assert(lookup(f, "type"@) == Some(JsonV::Str("update"@)));
    assert(f.drop_first() =~= seq![("symbol"@, JsonV::Str(sym)), ("price"@, JsonV::Str(ps))]);
    assert(f.drop_first().drop_first() =~= seq![("price"@, JsonV::Str(ps))]);
    assert(lookup(f, "symbol"@) == Some(JsonV::Str(sym)));
    assert(lookup(f, "price"@) == Some(JsonV::Str(ps)));
    assert("update"@ != "subscribed"@);
}

proof fn lemma_update_nonced(sym: Seq<char>, ps: Seq<char>, fx: Fixed)
    requires
        crate::json::plain_text(sym),
        crate::json::plain_text(ps),
        spec_fixed_of(ps) == Some(fx),
    ensures
        spec_parse_message(Dialect::Nonced, spec_update_text(Dialect::Nonced, sym, ps)) == Ok::<
            WireEventV,
            ParseError,
        >(WireEventV::Price { symbol: sym, price: fx }),
{
    reveal_with_fuel(lookup, 4);
    reveal_strlit("symbol");
    reveal_strlit("price");
    reveal_strlit("ping");
    reveal_strlit("pong");
    crate::json::lemma_parse_obj2("symbol"@, sym, "price"@, ps);
    let f = seq![("symbol"@, JsonV::Str(sym)), ("price"@, JsonV::Str(ps))];
    assert(f.drop_first() =~= seq![("price"@, JsonV::Str(ps))]);
    assert(lookup(f, "ping"@) is None);
    assert(lookup(f, "pong"@) is None);
    assert(lookup(f, "symbol"@) == Some(JsonV::Str(sym)));
    assert(lookup(f, "price"@) == Some(JsonV::Str(ps)));
}

proof fn lemma_update_status(sym: Seq<char>, ps: Seq<char>, fx: Fixed)
    requires
        crate::json::plain_text(sym),
        crate::json::plain_text(ps),
        spec_fixed_of(ps) == Some(fx),
    ensures
        spec_parse_message(Dialect::Status, spec_update_text(Dialect::Status, sym, ps)) == Ok::<
            WireEventV,
            ParseError,
        >(WireEventV::Price { symbol: sym, price: fx }),
{
    reveal_with_fuel(lookup, 4);
    reveal_strlit("channel");
    reveal_strlit("price");
    reveal_strlit("status");
    crate::json::lemma_parse_obj2("channel"@, sym, "price"@, ps);
    let f = seq![("channel"@, JsonV::Str(sym)), ("price"@, JsonV::Str(ps))];
    assert(f.drop_first() =~= seq![("price"@, JsonV::Str(ps))]);
    assert(lookup(f, "status"@) is None);
    assert(lookup(f, "channel"@) == Some(JsonV::Str(sym)));
    assert(lookup(f, "price"@) == Some(JsonV::Str(ps)));
}

/// For every valid price-update payload of every supported dialect, the
/// parser yields a `Price` event whose symbol is the payload's symbol and
/// whose value is exactly the decimal value of the payload's price text.
pub proof fn lemma_price_update_exact(d: Dialect, sym: Seq<char>, ps: Seq<char>, fx: Fixed)
    requires
        crate::json::plain_text(sym),
        crate::json::plain_text(ps),
        spec_fixed_of(ps) == Some(fx),
    ensures
        spec_parse_message(d, spec_update_text(d, sym, ps)) == Ok::<WireEventV, ParseError>(
            WireEventV::Price { symbol: sym, price: fx },
        ),
{
    match d {
        Dialect::Compact => lemma_update_compact(sym, ps, fx),
        Dialect::Typed => lemma_update_typed(sym, ps, fx),
        Dialect::Nonced => lemma_update_nonced(sym, ps, fx),
        Dialect::Status => lemma_update_status(sym, ps, fx),
    }
}

/// Relies on str::chars: the characters of the text, in order.
#[verifier::external_body]
pub(crate) fn str_chars(s: &str) -> (r: Vec<char>)
    ensures
        r@ == s@,
{
    s.chars().collect()
}

/// Relies on String's FromIterator over char: the collected string holds
/// exactly the given characters, in order.
#[verifier::external_body]
pub(crate) fn chars_string(v: &Vec<char>) -> (r: String)
    ensures
        r@ == v@,
{
    v.iter().collect()
}

/// Decodes one raw message under the given dialect.
pub fn parse_message(d: Dialect, raw: &Vec<char>) -> (r: Result<WireEvent, ParseError>)
    ensures
        result_view(r) == spec_parse_message(d, raw@),
{
    match parse_object(raw) {
        None => Err(ParseError::UnknownShape),
        Some(fields) => match d {
            Dialect::Compact => interpret_compact(&fields),
            Dialect::Typed => interpret_typed(&fields),
            Dialect::Nonced => interpret_nonced(&fields),
            Dialect::Status => interpret_status(&fields),
        },
    }
}

/// What one compact-dialect message carries: a price update, or the
/// subscription acknowledgment. The compact dialect keeps its pings at the
/// transport level, so no other event can come out of it.
pub enum Msg {
    Subscribed,
    Price { symbol: Vec<char>, price: Fixed },
}

/// The compact dialect never denotes a keep-alive event.
pub proof fn lemma_compact_no_ping(f: Seq<(Seq<char>, JsonV)>)
    ensures
        !(spec_interpret_compact(f) matches Ok(e) && (e is Ping || e is Pong)),
{
}

/// Decodes one compact-dialect message.
pub fn parse_json(data: &str) -> (r: Result<Msg, ParseError>)
    ensures
        match spec_parse_message(Dialect::Compact, data@) {
            Ok(e) => match e {
                WireEventV::Price { symbol, price } => r matches Ok(
                    Msg::Price { symbol: s2, price: p2 },
                ) && s2@ == symbol && p2 == price,
                WireEventV::SubscriptionAck { .. } => r matches Ok(Msg::Subscribed),
                _ => false,
            },
            Err(e) => r == Err::<Msg, ParseError>(e),
        },
{
    let chars = str_chars(data);
    match parse_message(Dialect::Compact, &chars) {
        Ok(WireEvent::Price { symbol, price }) => Ok(Msg::Price { symbol, price }),
        Ok(WireEvent::SubscriptionAck { .. }) => Ok(Msg::Subscribed),
        Ok(_) => {
            proof {
                lemma_compact_no_ping(spec_parse_object(data@).unwrap());
            }
            Err(ParseError::UnknownShape)
        },
        Err(e) => Err(e),
    }
}

} // verus!
