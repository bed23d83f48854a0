//! Encoding of outbound messages: the subscribe request that the connection
//! manager sends right after a connection opens, in each supported dialect.

use crate::json::JsonV;
use crate::stream::{markets_view, Market};
use crate::wire::{Dialect, WireEventV};
use vstd::prelude::*;

verus! {

/// ASCII lowercasing, character by character; anything but an ASCII capital
/// is left as it is.
pub open spec fn spec_lower_char(c: char) -> char {
    match c {
        'A' => 'a',
        'B' => 'b',
        'C' => 'c',
        'D' => 'd',
        'E' => 'e',
        'F' => 'f',
        'G' => 'g',
        'H' => 'h',
        'I' => 'i',
        'J' => 'j',
        'K' => 'k',
        'L' => 'l',
        'M' => 'm',
        'N' => 'n',
        'O' => 'o',
        'P' => 'p',
        'Q' => 'q',
        'R' => 'r',
        'S' => 's',
        'T' => 't',
        'U' => 'u',
        'V' => 'v',
        'W' => 'w',
        'X' => 'x',
        'Y' => 'y',
        'Z' => 'z',
        _ => c,
    }
}

pub fn lower_char(c: char) -> (r: char)
    ensures
        r == spec_lower_char(c),
{
    match c {
        'A' => 'a',
        'B' => 'b',
        'C' => 'c',
        'D' => 'd',
        'E' => 'e',
        'F' => 'f',
        'G' => 'g',
        'H' => 'h',
        'I' => 'i',
        'J' => 'j',
        'K' => 'k',
        'L' => 'l',
        'M' => 'm',
        'N' => 'n',
        'O' => 'o',
        'P' => 'p',
        'Q' => 'q',
        'R' => 'r',
        'S' => 's',
        'T' => 't',
        'U' => 'u',
        'V' => 'v',
        'W' => 'w',
        'X' => 'x',
        'Y' => 'y',
        'Z' => 'z',
        _ => c,
    }
}

/// The channel a market subscribes on: the compact dialect uses the
/// lowercased symbol on the aggregate-trade stream; the others subscribe on
/// the symbol itself.
pub open spec fn spec_channel(d: Dialect, sym: Seq<char>) -> Seq<char> {
    match d {
        Dialect::Compact => sym.map_values(|c: char| spec_lower_char(c)) + "@aggTrade"@,
        _ => sym,
    }
}

/// The channels a subscribe request enumerates, one per market, in order.
pub open spec fn spec_channels(d: Dialect, ms: Seq<(Seq<char>, Seq<char>)>) -> Seq<Seq<char>> {
    ms.map_values(|p: (Seq<char>, Seq<char>)| spec_channel(d, p.0))
}

/// `"a","b",...`: the channels quoted and joined with commas.
pub open spec fn spec_quoted_join(chs: Seq<Seq<char>>) -> Seq<char>
    decreases chs.len(),
{
    if chs.len() == 0 {
        Seq::empty()
    } else if chs.len() == 1 {
        seq!['"'] + chs[0] + seq!['"']
    } else {
        seq!['"'] + chs[0] + seq!['"'] + seq![','] + spec_quoted_join(chs.drop_first())
    }
}

pub proof fn lemma_quoted_join_push(chs: Seq<Seq<char>>, x: Seq<char>)
    ensures
        spec_quoted_join(chs.push(x)) == if chs.len() == 0 {
            seq!['"'] + x + seq!['"']
        } else {
            spec_quoted_join(chs) + seq![','] + (seq!['"'] + x + seq!['"'])
        },
    decreases chs.len(),
{
    if chs.len() == 0 {
        assert(chs.push(x)[0] == x);
        assert(chs.push(x).len() == 1);
    } else if chs.len() == 1 {
        assert(chs.push(x)[0] == chs[0]);
        assert(chs.push(x).drop_first() =~= seq![x]);
        assert(spec_quoted_join(seq![x]) == seq!['"'] + x + seq!['"']);
        assert(seq!['"'] + chs[0] + seq!['"'] + seq![','] + (seq!['"'] + x + seq!['"'])
            =~= spec_quoted_join(chs) + seq![','] + (seq!['"'] + x + seq!['"']));
    } else {
        lemma_quoted_join_push(chs.drop_first(), x);
        assert(chs.push(x).drop_first() =~= chs.drop_first().push(x));
        assert(chs.push(x)[0] == chs[0]);
        assert(seq!['"'] + chs[0] + seq!['"'] + seq![','] + (spec_quoted_join(chs.drop_first())
            + seq![','] + (seq!['"'] + x + seq!['"'])) =~= spec_quoted_join(chs) + seq![',']
            + (seq!['"'] + x + seq!['"']));
    }
}

/// The subscribe request for a market set, in each dialect's shape.
pub open spec fn spec_subscribe_text(d: Dialect, ms: Seq<(Seq<char>, Seq<char>)>) -> Seq<char> {
    match d {
        Dialect::Compact => "{\"method\":\"SUBSCRIBE\",\"params\":["@ + spec_quoted_join(
            spec_channels(d, ms),
        ) + "],\"id\":1}"@,
        Dialect::Typed => "{\"type\":\"subscribe\",\"channels\":["@ + spec_quoted_join(
            spec_channels(d, ms),
        ) + "]}"@,
        Dialect::Nonced => "{\"subscribe\":["@ + spec_quoted_join(spec_channels(d, ms)) + "]}"@,
        Dialect::Status => "{\"op\":\"subscribe\",\"channels\":["@ + spec_quoted_join(
            spec_channels(d, ms),
        ) + "]}"@,
    }
}

/// Appends a string slice to a character buffer.
pub fn push_str(out: &mut Vec<char>, s: &str)
    ensures
        final(out)@ == old(out)@ + s@,
{
    let n = s.unicode_len();
    let mut i: usize = 0;
    while i < n
        invariant
            n == s@.len(),
            i <= n,
            out@ == old(out)@ + s@.subrange(0, i as int),
        decreases n - i,
    {
        out.push(s.get_char(i));
        i = i + 1;
        proof {
            assert(old(out)@ + s@.subrange(0, i - 1) + seq![s@[i - 1]] =~= old(out)@
                + s@.subrange(0, i as int));
        }
    }
    proof {
        assert(out@ =~= old(out)@ + s@);
    }
}

/// Appends the channel name of one market.
fn push_channel(out: &mut Vec<char>, d: Dialect, m: &Market)
    ensures
        final(out)@ == old(out)@ + spec_channel(d, m.symbol@),
{
    match d {
        Dialect::Compact => {
            let sym = m.symbol.as_str();
            let n = sym.unicode_len();
            let mut i: usize = 0;
            while i < n
                invariant
                    n == sym@.len(),
                    i <= n,
                    out@ == old(out)@ + sym@.subrange(0, i as int).map_values(
                        |c: char| spec_lower_char(c),
                    ),
                decreases n - i,
            {
                out.push(lower_char(sym.get_char(i)));
                i = i + 1;
                proof {
                    assert(out@ =~= old(out)@ + sym@.subrange(0, i as int).map_values(
                        |c: char| spec_lower_char(c),
                    ));
                }
            }
            proof {
                assert(sym@.subrange(0, n as int) =~= sym@);
            }
            push_str(out, "@aggTrade");
            proof {
                assert(out@ =~= old(out)@ + spec_channel(d, m.symbol@));
            }
        },
        _ => {
            push_str(out, m.symbol.as_str());
        },
    }
}

/// Builds the subscribe request that the connection manager sends once per
/// successful connect, enumerating every configured market's channel.
pub fn encode_subscribe(d: Dialect, markets: &Vec<Market>) -> (out: Vec<char>)
    ensures
        out@ == spec_subscribe_text(d, markets_view(markets@)),
{
    let mut out: Vec<char> = Vec::new();
    match d {
        Dialect::Compact => push_str(&mut out, "{\"method\":\"SUBSCRIBE\",\"params\":["),
        Dialect::Typed => push_str(&mut out, "{\"type\":\"subscribe\",\"channels\":["),
        Dialect::Nonced => push_str(&mut out, "{\"subscribe\":["),
        Dialect::Status => push_str(&mut out, "{\"op\":\"subscribe\",\"channels\":["),
    }
    let ghost head = out@;
    let ghost chans = spec_channels(d, markets_view(markets@));
    let mut i: usize = 0;
    while i < markets.len()
        invariant
            i <= markets@.len(),
            chans == spec_channels(d, markets_view(markets@)),
            chans.len() == markets@.len(),
            out@ == head + spec_quoted_join(chans.subrange(0, i as int)),
        decreases markets@.len() - i,
    {
        if i > 0 {
            push_str(&mut out, ",");
        }
        push_str(&mut out, "\"");
        push_channel(&mut out, d, &markets[i]);
        push_str(&mut out, "\"");
        i = i + 1;
        proof {
            reveal_strlit(",");
            reveal_strlit("\"");
            assert(chans.subrange(0, i as int) =~= chans.subrange(0, i - 1).push(
                chans[i - 1],
            ));
            lemma_quoted_join_push(chans.subrange(0, i - 1), chans[i - 1]);
            assert(chans[i - 1] == spec_channel(d, markets@[i - 1].symbol@));
            assert(out@ =~= head + spec_quoted_join(chans.subrange(0, i as int)));
        }
    }
    proof {
        assert(chans.subrange(0, markets@.len() as int) =~= chans);
    }
    match d {
        Dialect::Compact => push_str(&mut out, "],\"id\":1}"),
        _ => push_str(&mut out, "]}"),
    }
    proof {
        assert(out@ =~= spec_subscribe_text(d, markets_view(markets@)));
    }
    out
}


/// The pong message that answers `Ping { nonce }` in each dialect.
pub open spec fn spec_pong_text(d: Dialect, nonce: u64) -> Seq<char> {
    let ds = crate::digits::spec_digits(nonce as nat).map_values(|b: u8| b as char);
    match d {
        Dialect::Compact => "{\"pong\":"@ + ds + "}"@,
        Dialect::Typed => "{\"type\":\"pong\",\"nonce\":"@ + ds + "}"@,
        Dialect::Nonced => "{\"pong\":"@ + ds + "}"@,
        Dialect::Status => "{\"status\":\"pong\",\"nonce\":"@ + ds + "}"@,
    }
}

/// Builds the pong message for a keep-alive challenge, echoing its nonce.
pub fn encode_pong(d: Dialect, nonce: u64) -> (out: Vec<char>)
    ensures
        out@ == spec_pong_text(d, nonce),
{
    let mut out: Vec<char> = Vec::new();
    match d {
        Dialect::Compact => push_str(&mut out, "{\"pong\":"),
        Dialect::Typed => push_str(&mut out, "{\"type\":\"pong\",\"nonce\":"),
        Dialect::Nonced => push_str(&mut out, "{\"pong\":"),
        Dialect::Status => push_str(&mut out, "{\"status\":\"pong\",\"nonce\":"),
    }
    let ghost head = out@;
    let ds = crate::digits::digits(nonce);
    let ghost dsc = crate::digits::spec_digits(nonce as nat).map_values(|b: u8| b as char);
    let mut i: usize = 0;
    while i < ds.len()
        invariant
            ds@ == crate::digits::spec_digits(nonce as nat),
            dsc == crate::digits::spec_digits(nonce as nat).map_values(|b: u8| b as char),
            i <= ds@.len(),
            out@ == head + dsc.subrange(0, i as int),
        decreases ds@.len() - i,
    {
        out.push(ds[i] as char);
        i = i + 1;
        proof {
            assert(out@ =~= head + dsc.subrange(0, i as int));
        }
    }
    proof {
        assert(dsc.subrange(0, dsc.len() as int) =~= dsc);
    }
    push_str(&mut out, "}");
    proof {
        assert(out@ =~= spec_pong_text(d, nonce));
    }
    out
}

/// The acknowledgment each dialect sends for one subscribed channel. The
/// compact dialect acknowledges without naming a channel.
pub open spec fn spec_ack_text(d: Dialect, ch: Seq<char>) -> Seq<char> {
    match d {
        Dialect::Compact => "{\"result\":null,\"id\":1}"@,
        Dialect::Typed => crate::json::obj2_text("type"@, "subscribed"@, "channel"@, ch),
        Dialect::Nonced => crate::json::obj1_text("subscribed"@, ch),
        Dialect::Status => crate::json::obj2_text("status"@, "subscribed"@, "channel"@, ch),
    }
}

proof fn lemma_plain_keyword_texts()
    ensures
        crate::json::plain_text("subscribed"@),
{
    reveal_strlit("subscribed");
    assert forall|i: int| 0 <= i < "subscribed"@.len() implies crate::json::is_plain_str_char(
        #[trigger] "subscribed"@[i],
    ) by {
        let c = "subscribed"@[i];
        assert(c == 's' || c == 'u' || c == 'b' || c == 'c' || c == 'r' || c == 'i' || c == 'e'
            || c == 'd');
    }
}

proof fn lemma_ack_typed(ch: Seq<char>)
    requires
        crate::json::plain_text(ch),
    ensures
        crate::wire::spec_parse_message(Dialect::Typed, spec_ack_text(Dialect::Typed, ch)) == Ok::<
            WireEventV,
            crate::wire::ParseError,
        >(WireEventV::SubscriptionAck { channel: Some(ch) }),
{
    reveal_with_fuel(crate::wire::lookup, 4);
    reveal_strlit("type");
    reveal_strlit("subscribed");
    reveal_strlit("channel");
    lemma_plain_keyword_texts();
    crate::json::lemma_parse_obj2("type"@, "subscribed"@, "channel"@, ch);
    let f = seq![("type"@, JsonV::Str("subscribed"@)), ("channel"@, JsonV::Str(ch))];
    assert(crate::wire::lookup(f, "type"@) == Some(JsonV::Str("subscribed"@)));
    assert(f.drop_first() =~= seq![("channel"@, JsonV::Str(ch))]);
    assert(crate::wire::lookup(f, "channel"@) == Some(JsonV::Str(ch)));
}

proof fn lemma_ack_nonced(ch: Seq<char>)
    requires
        crate::json::plain_text(ch),
    ensures
        crate::wire::spec_parse_message(Dialect::Nonced, spec_ack_text(Dialect::Nonced, ch))
            == Ok::<WireEventV, crate::wire::ParseError>(
            WireEventV::SubscriptionAck { channel: Some(ch) },
        ),
{
    reveal_with_fuel(crate::wire::lookup, 4);
    reveal_strlit("subscribed");
    reveal_strlit("ping");
    reveal_strlit("pong");
    reveal_strlit("symbol");
    reveal_strlit("price");
    lemma_plain_keyword_texts();
    crate::json::lemma_parse_obj1("subscribed"@, ch);
    let f = seq![("subscribed"@, JsonV::Str(ch))];
    assert(f.drop_first() =~= Seq::<(Seq<char>, JsonV)>::empty());
    assert(crate::wire::lookup(f, "ping"@) is None);
    assert(crate::wire::lookup(f, "pong"@) is None);
    assert(crate::wire::lookup(f, "symbol"@) is None);
    assert(crate::wire::lookup(f, "price"@) is None);
    assert(crate::wire::lookup(f, "subscribed"@) == Some(JsonV::Str(ch)));
}

proof fn lemma_ack_status(ch: Seq<char>)
    requires
        crate::json::plain_text(ch),
    ensures
        crate::wire::spec_parse_message(Dialect::Status, spec_ack_text(Dialect::Status, ch))
            == Ok::<WireEventV, crate::wire::ParseError>(
            WireEventV::SubscriptionAck { channel: Some(ch) },
        ),
{
    reveal_with_fuel(crate::wire::lookup, 4);
    reveal_strlit("status");
    reveal_strlit("subscribed");
    reveal_strlit("channel");
    lemma_plain_keyword_texts();
    crate::json::lemma_parse_obj2("status"@, "subscribed"@, "channel"@, ch);
    let f = seq![("status"@, JsonV::Str("subscribed"@)), ("channel"@, JsonV::Str(ch))];
    assert(crate::wire::lookup(f, "status"@) == Some(JsonV::Str("subscribed"@)));
    assert(f.drop_first() =~= seq![("channel"@, JsonV::Str(ch))]);
    assert(crate::wire::lookup(f, "channel"@) == Some(JsonV::Str(ch)));
}

/// The compact dialect acknowledges a subscription with a result/id object
/// that names no channel; parsing it yields the channel-less acknowledgment.
pub proof fn lemma_ack_compact()
    ensures
        crate::wire::spec_parse_message(
            Dialect::Compact,
            spec_ack_text(Dialect::Compact, Seq::<char>::empty()),
        ) == Ok::<WireEventV, crate::wire::ParseError>(
            WireEventV::SubscriptionAck { channel: None },
        ),
{
    reveal_with_fuel(crate::wire::lookup, 4);
    reveal_strlit("{\"result\":null,\"id\":1}");
    reveal_strlit("null");
    reveal_strlit("s");
    reveal_strlit("p");
    reveal_strlit("result");
    reveal_strlit("id");
    let s = "{\"result\":null,\"id\":1}"@;
    assert(s.len() == 22);
    assert(crate::json::spec_skip_ws(s, 0) == 0);
    assert(s[0] == '{');
    // the "result" key
    assert(crate::json::spec_skip_ws(s, 1) == 1);
    assert(s[1] == '"');
    assert forall|c: int| 2 <= c < 8 implies crate::json::is_plain_str_char(s[c]) && s[c]
        != '"' by {
        assert(s[c] == 'r' || s[c] == 'e' || s[c] == 's' || s[c] == 'u' || s[c] == 'l' || s[c]
            == 't');
    }
    crate::json::lemma_scan_string_step(s, 2, 8);
    assert(s[8] == '"');
    assert(crate::json::spec_scan_string(s, 8) == Some((Seq::<char>::empty(), 9int)));
    assert(s.subrange(2, 8) =~= "result"@);
    assert(s.subrange(2, 8) + Seq::<char>::empty() =~= "result"@);
    assert(crate::json::spec_parse_string(s, 1) == Some(("result"@, 9int)));
    // the null value
    assert(s[9] == ':');
    assert(crate::json::spec_skip_ws(s, 9) == 9);
    assert(crate::json::spec_skip_ws(s, 10) == 10);
    assert(s[10] == 'n' && s[11] == 'u' && s[12] == 'l' && s[13] == 'l');
    assert(s.subrange(10, 14) =~= "null"@);
    assert(crate::json::lit_at(s, 10, "null"@));
    reveal_strlit("true");
    reveal_strlit("false");
    assert(s.subrange(10, 14)[0] == s[10]);
    assert(!crate::json::lit_at(s, 10, "true"@));
    assert(s.subrange(10, 15)[0] == s[10]);
    assert(!crate::json::lit_at(s, 10, "false"@));
    assert(crate::json::spec_parse_value(s, 10) == Some((JsonV::Null, 14int)));
    // the "id" key
    assert(s[14] == ',');
    assert(crate::json::spec_skip_ws(s, 14) == 14);
    assert(crate::json::spec_skip_ws(s, 15) == 15);
    assert(s[15] == '"');
    assert forall|c: int| 16 <= c < 18 implies crate::json::is_plain_str_char(s[c]) && s[c]
        != '"' by {
        assert(s[c] == 'i' || s[c] == 'd');
    }
    crate::json::lemma_scan_string_step(s, 16, 18);
    assert(s[18] == '"');
    assert(crate::json::spec_scan_string(s, 18) == Some((Seq::<char>::empty(), 19int)));
    assert(s.subrange(16, 18) =~= "id"@);
    assert(s.subrange(16, 18) + Seq::<char>::empty() =~= "id"@);
    assert(crate::json::spec_parse_string(s, 15) == Some(("id"@, 19int)));
    // the integer value
    assert(s[19] == ':');
    assert(crate::json::spec_skip_ws(s, 19) == 19);
    assert(crate::json::spec_skip_ws(s, 20) == 20);
    assert(s[20] == '1');
    assert(s[21] == '}');
    assert(crate::json::digit_end(s, 21) == 21);
    assert(crate::json::digit_end(s, 20) == 21);
    assert(('1' as u32) == 49);
    assert(crate::json::digits_value(s, 20, 20) == 0);
    assert(crate::json::digits_value(s, 20, 21) == 1);
    assert(crate::json::spec_parse_nat(s, 20) == Some((1int, 21int)));
    assert(crate::json::spec_parse_value(s, 20) == Some((JsonV::Int(1), 21int)));
    // the members and the whole object
    assert(crate::json::spec_skip_ws(s, 21) == 21);
    assert(crate::json::spec_parse_members(s, 15) == Some((seq![("id"@, JsonV::Int(1))], 22int)));
    assert(crate::json::spec_parse_members(s, 1) == Some(
        (seq![("result"@, JsonV::Null)] + seq![("id"@, JsonV::Int(1))], 22int),
    ));
    assert(crate::json::spec_skip_ws(s, 22) == 22);
    let f = seq![("result"@, JsonV::Null), ("id"@, JsonV::Int(1))];
    assert(seq![("result"@, JsonV::Null)] + seq![("id"@, JsonV::Int(1))] =~= f);
    assert(crate::json::spec_parse_object(s) == Some(f));
    // the interpretation: no price fields, a null result and an integer id
    assert(f.drop_first() =~= seq![("id"@, JsonV::Int(1))]);
    assert(crate::wire::lookup(f, "s"@) is None);
    assert(crate::wire::lookup(f, "p"@) is None);
    assert(crate::wire::lookup(f, "result"@) == Some(JsonV::Null));
    assert(crate::wire::lookup(f, "id"@) == Some(JsonV::Int(1)));
}

/// The subscribe/acknowledge round trip: for every market set and every
/// market in it whose symbol no earlier market shares, the encoded subscribe
/// request enumerates exactly that market's symbol as its channel (in every
/// dialect whose acknowledgments name channels), the acknowledgment the
/// exchange sends for that channel parses to a `SubscriptionAck` naming it,
/// and resolving the acknowledged symbol yields that market's display name.
pub proof fn lemma_subscribe_ack_round_trip(
    d: Dialect,
    ms: Seq<(Seq<char>, Seq<char>)>,
    i: int,
)
    requires
        d != Dialect::Compact,
        0 <= i < ms.len(),
        crate::json::plain_text(ms[i].0),
        forall|j: int| 0 <= j < i ==> ms[j].0 != ms[i].0,
    ensures
        spec_channels(d, ms)[i] == ms[i].0,
        crate::wire::spec_parse_message(d, spec_ack_text(d, ms[i].0)) == Ok::<
            WireEventV,
            crate::wire::ParseError,
        >(WireEventV::SubscriptionAck { channel: Some(ms[i].0) }),
        crate::stream::spec_resolve(ms, ms[i].0) == Some(ms[i].1),
{
    match d {
        Dialect::Compact => {},
        Dialect::Typed => lemma_ack_typed(ms[i].0),
        Dialect::Nonced => lemma_ack_nonced(ms[i].0),
        Dialect::Status => lemma_ack_status(ms[i].0),
    }
    crate::stream::lemma_resolve_first(ms, i);
}

} // verus!

