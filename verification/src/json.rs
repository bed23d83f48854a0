//! A verified scanner for the flat JSON objects that the supported exchange
//! wire dialects use: one object per message, whose values are strings
//! (without escapes), unsigned integers, booleans or `null`.
//!
//! The grammar is written once as total spec functions over `Seq<char>`
//! (`spec_parse_object` and its helpers); each executable parser returns
//! exactly what the corresponding spec function denotes.

use vstd::arithmetic::div_mod::lemma_fundamental_div_mod;
use vstd::prelude::*;

verus! {

/// One field value of a message object.
pub enum Json {
    Str(Vec<char>),
    Int(u64),
    Bool(bool),
    Null,
}

/// The mathematical model of a field value.
pub enum JsonV {
    Str(Seq<char>),
    Int(int),
    Bool(bool),
    Null,
}

impl View for Json {
    type V = JsonV;

    open spec fn view(&self) -> JsonV {
        match self {
            Json::Str(s) => JsonV::Str(s@),
            Json::Int(n) => JsonV::Int(*n as int),
            Json::Bool(b) => JsonV::Bool(*b),
            Json::Null => JsonV::Null,
        }
    }
}

/// The model of a parsed object: its fields in message order.
pub open spec fn fields_view(fields: Seq<(Vec<char>, Json)>) -> Seq<(Seq<char>, JsonV)> {
    fields.map_values(|p: (Vec<char>, Json)| (p.0@, p.1@))
}

pub open spec fn is_ws(c: char) -> bool {
    c == ' ' || c == '\t' || c == '\n' || c == '\r'
}

pub open spec fn is_digit(c: char) -> bool {
    '0' <= c && c <= '9'
}

/// A character allowed inside a string literal: no quote, no backslash
/// (escapes are not part of any supported dialect), no control character.
pub open spec fn is_plain_str_char(c: char) -> bool {
    c != '"' && c != '\\' && c as u32 >= 32
}

/// The first position at or after `i` that does not hold whitespace.
pub open spec fn spec_skip_ws(s: Seq<char>, i: int) -> int
    decreases s.len() - i,
{
    if 0 <= i < s.len() && is_ws(s[i]) {
        spec_skip_ws(s, i + 1)
    } else {
        i
    }
}

pub proof fn lemma_skip_ws_bounds(s: Seq<char>, i: int)
    ensures
        i <= spec_skip_ws(s, i),
        i <= s.len() ==> spec_skip_ws(s, i) <= s.len(),
    decreases s.len() - i,
{
    if 0 <= i < s.len() && is_ws(s[i]) {
        lemma_skip_ws_bounds(s, i + 1);
    }
}

/// The first position at or after `i` that does not hold a digit.
pub open spec fn digit_end(s: Seq<char>, i: int) -> int
    decreases s.len() - i,
{
    if 0 <= i < s.len() && is_digit(s[i]) {
        digit_end(s, i + 1)
    } else {
        i
    }
}

pub proof fn lemma_digit_end_bounds(s: Seq<char>, i: int)
    ensures
        i <= digit_end(s, i),
        i <= s.len() ==> digit_end(s, i) <= s.len(),
        forall|m: int| i <= m < digit_end(s, i) ==> is_digit(s[m]),
    decreases s.len() - i,
{
    if 0 <= i < s.len() && is_digit(s[i]) {
        lemma_digit_end_bounds(s, i + 1);
    }
}

/// The value of the decimal digits `s[i..j]`, most significant first.
pub open spec fn digits_value(s: Seq<char>, i: int, j: int) -> int
    decreases j - i,
{
    if i < j {
        digits_value(s, i, j - 1) * 10 + (s[j - 1] as u32 - 48)
    } else {
        0
    }
}

pub proof fn lemma_digits_value_nonneg(s: Seq<char>, i: int, j: int)
    requires
        forall|m: int| i <= m < j ==> is_digit(s[m]),
    ensures
        digits_value(s, i, j) >= 0,
    decreases j - i,
{
    if i < j {
        lemma_digits_value_nonneg(s, i, j - 1);
    }
}

pub proof fn lemma_digits_value_mono(s: Seq<char>, i: int, j: int, k: int)
    requires
        i <= j <= k,
        forall|m: int| i <= m < k ==> is_digit(s[m]),
    ensures
        digits_value(s, i, k) >= digits_value(s, i, j),
    decreases k - j,
{
    if j < k {
        lemma_digits_value_mono(s, i, j, k - 1);
        lemma_digits_value_nonneg(s, i, k - 1);
    }
}

/// The tail of a string literal, starting just after the opening quote:
/// the content up to the closing quote, and the position after it.
pub open spec fn spec_scan_string(s: Seq<char>, i: int) -> Option<(Seq<char>, int)>
    decreases s.len() - i,
{
    if !(0 <= i < s.len()) {
        None
    } else if s[i] == '"' {
        Some((Seq::empty(), i + 1))
    } else if is_plain_str_char(s[i]) {
        match spec_scan_string(s, i + 1) {
            Some((c, j)) => Some((seq![s[i]] + c, j)),
            None => None,
        }
    } else {
        None
    }
}

pub proof fn lemma_scan_string_bounds(s: Seq<char>, i: int)
    ensures
        spec_scan_string(s, i) matches Some(p) ==> i < p.1 <= s.len(),
    decreases s.len() - i,
{
    if 0 <= i < s.len() && s[i] != '"' && is_plain_str_char(s[i]) {
        lemma_scan_string_bounds(s, i + 1);
    }
}

/// Scanning from `i` equals scanning from `m` with the plain characters
/// `s[i..m]` put in front of the content.
pub proof fn lemma_scan_string_step(s: Seq<char>, i: int, m: int)
    requires
        0 <= i <= m <= s.len(),
        forall|k: int| i <= k < m ==> is_plain_str_char(s[k]) && s[k] != '"',
    ensures
        spec_scan_string(s, i) == match spec_scan_string(s, m) {
            Some(p) => Some((s.subrange(i, m) + p.0, p.1)),
            None => None::<(Seq<char>, int)>,
        },
    decreases m - i,
{
    if i < m {
        lemma_scan_string_step(s, i + 1, m);
        match spec_scan_string(s, m) {
            Some(p) => {
                assert(seq![s[i]] + (s.subrange(i + 1, m) + p.0) =~= s.subrange(i, m) + p.0);
            },
            None => {},
        }
    } else {
        match spec_scan_string(s, m) {
            Some(p) => {
                assert(s.subrange(i, m) + p.0 =~= p.0);
            },
            None => {},
        }
    }
}

/// A complete string literal at `i`: opening quote, plain content, closing
/// quote. Yields the content and the position after the closing quote.
pub open spec fn spec_parse_string(s: Seq<char>, i: int) -> Option<(Seq<char>, int)> {
    if 0 <= i < s.len() && s[i] == '"' {
        spec_scan_string(s, i + 1)
    } else {
        None
    }
}

pub proof fn lemma_parse_string_bounds(s: Seq<char>, i: int)
    ensures
        spec_parse_string(s, i) matches Some(p) ==> i + 1 < p.1 <= s.len(),
{
    if 0 <= i < s.len() && s[i] == '"' {
        lemma_scan_string_bounds(s, i + 1);
    }
}

/// An unsigned decimal integer at `i` that fits in a `u64`.
pub open spec fn spec_parse_nat(s: Seq<char>, i: int) -> Option<(int, int)> {
    let j = digit_end(s, i);
    if j > i && digits_value(s, i, j) <= u64::MAX {
        Some((digits_value(s, i, j), j))
    } else {
        None
    }
}

pub open spec fn lit_at(s: Seq<char>, i: int, lit: Seq<char>) -> bool {
    0 <= i && i + lit.len() <= s.len() && s.subrange(i, i + lit.len()) == lit
}

/// One field value at `i`: a string, an integer, a boolean or `null`.
pub open spec fn spec_parse_value(s: Seq<char>, i: int) -> Option<(JsonV, int)> {
    if !(0 <= i < s.len()) {
        None
    } else if s[i] == '"' {
        match spec_parse_string(s, i) {
            Some((c, j)) => Some((JsonV::Str(c), j)),
            None => None,
        }
    } else if is_digit(s[i]) {
        match spec_parse_nat(s, i) {
            Some((n, j)) => Some((JsonV::Int(n), j)),
            None => None,
        }
    } else if lit_at(s, i, "true"@) {
        Some((JsonV::Bool(true), i + 4))
    } else if lit_at(s, i, "false"@) {
        Some((JsonV::Bool(false), i + 5))
    } else if lit_at(s, i, "null"@) {
        Some((JsonV::Null, i + 4))
    } else {
        None
    }
}

pub proof fn lemma_parse_value_bounds(s: Seq<char>, i: int)
    ensures
        spec_parse_value(s, i) matches Some(p) ==> i < p.1 <= s.len(),
{
    reveal_strlit("true");
    reveal_strlit("false");
    reveal_strlit("null");
    lemma_parse_string_bounds(s, i);
    lemma_digit_end_bounds(s, i);
}

/// The members of an object, starting after the opening brace or after a
/// comma: `ws key ws ':' ws value ws` followed by `','` and further members,
/// or by the closing brace. Yields the fields and the position after the
/// closing brace.
pub open spec fn spec_parse_members(s: Seq<char>, i: int) -> Option<
    (Seq<(Seq<char>, JsonV)>, int),
>
    decreases s.len() - i,
    via members_decreases
{
    let i1 = spec_skip_ws(s, i);
    match spec_parse_string(s, i1) {
        None => None,
        Some((k, i2)) => {
            let i3 = spec_skip_ws(s, i2);
            if 0 <= i3 < s.len() && s[i3] == ':' {
                let i4 = spec_skip_ws(s, i3 + 1);
                match spec_parse_value(s, i4) {
                    None => None,
                    Some((v, i5)) => {
                        let i6 = spec_skip_ws(s, i5);
                        if 0 <= i6 < s.len() && s[i6] == ',' {
                            match spec_parse_members(s, i6 + 1) {
                                None => None,
                                Some((rest, j)) => Some((seq![(k, v)] + rest, j)),
                            }
                        } else if 0 <= i6 < s.len() && s[i6] == '}' {
                            Some((seq![(k, v)], i6 + 1))
                        } else {
                            None
                        }
                    },
                }
            } else {
                None
            }
        },
    }
}

#[via_fn]
proof fn members_decreases(s: Seq<char>, i: int) {
    let i1 = spec_skip_ws(s, i);
    lemma_skip_ws_bounds(s, i);
    lemma_parse_string_bounds(s, i1);
    match spec_parse_string(s, i1) {
        None => {},
        Some((k, i2)) => {
            let i3 = spec_skip_ws(s, i2);
            lemma_skip_ws_bounds(s, i2);
            if 0 <= i3 < s.len() && s[i3] == ':' {
                let i4 = spec_skip_ws(s, i3 + 1);
                lemma_skip_ws_bounds(s, i3 + 1);
                lemma_parse_value_bounds(s, i4);
                match spec_parse_value(s, i4) {
                    None => {},
                    Some((v, i5)) => {
                        lemma_skip_ws_bounds(s, i5);
                    },
                }
            }
        },
    }
}

/// A whole message: whitespace, one object, whitespace, end of input.
pub open spec fn spec_parse_object(s: Seq<char>) -> Option<Seq<(Seq<char>, JsonV)>> {
    let i0 = spec_skip_ws(s, 0);
    if 0 <= i0 < s.len() && s[i0] == '{' {
        let i1 = spec_skip_ws(s, i0 + 1);
        if 0 <= i1 < s.len() && s[i1] == '}' {
            if spec_skip_ws(s, i1 + 1) == s.len() {
                Some(Seq::empty())
            } else {
                None
            }
        } else {
            match spec_parse_members(s, i0 + 1) {
                None => None,
                Some((fs, j)) => {
                    if spec_skip_ws(s, j) == s.len() {
                        Some(fs)
                    } else {
                        None
                    }
                },
            }
        }
    } else {
        None
    }
}

/// A text whose characters may all stand inside a string literal.
pub open spec fn plain_text(s: Seq<char>) -> bool {
    forall|i: int| 0 <= i < s.len() ==> is_plain_str_char(#[trigger] s[i])
}

/// `"k":"v"` — one member as the canonical encoder writes it.
pub open spec fn member_text(k: Seq<char>, v: Seq<char>) -> Seq<char> {
    seq!['"'] + k + seq!['"', ':', '"'] + v + seq!['"']
}

/// `{"k":"v"}` — a one-member object.
pub open spec fn obj1_text(k1: Seq<char>, v1: Seq<char>) -> Seq<char> {
    seq!['{'] + member_text(k1, v1) + seq!['}']
}

/// `{"k1":"v1","k2":"v2"}` — a two-member object.
pub open spec fn obj2_text(k1: Seq<char>, v1: Seq<char>, k2: Seq<char>, v2: Seq<char>) -> Seq<
    char,
> {
    seq!['{'] + member_text(k1, v1) + seq![','] + member_text(k2, v2) + seq!['}']
}

/// `{"k1":"v1","k2":"v2","k3":"v3"}` — a three-member object.
pub open spec fn obj3_text(
    k1: Seq<char>,
    v1: Seq<char>,
    k2: Seq<char>,
    v2: Seq<char>,
    k3: Seq<char>,
    v3: Seq<char>,
) -> Seq<char> {
    seq!['{'] + member_text(k1, v1) + seq![','] + member_text(k2, v2) + seq![','] + member_text(
        k3,
        v3,
    ) + seq!['}']
}

/// Parsing one canonically encoded member `"k":"v"` at `i`: where a comma
/// follows, the member is prepended to whatever the rest parses to; where a
/// closing brace follows, it is the last member.
pub proof fn lemma_parse_member_at(s: Seq<char>, i: int, k: Seq<char>, v: Seq<char>)
    requires
        plain_text(k),
        plain_text(v),
        0 <= i,
        i + k.len() + v.len() + 6 <= s.len(),
        s.subrange(i, i + k.len() + v.len() + 5) == member_text(k, v),
        s[i + k.len() + v.len() + 5] == ',' || s[i + k.len() + v.len() + 5] == '}',
    ensures
        ({
            let j = i + k.len() + v.len() + 5;
            &&& (s[j] == '}' ==> spec_parse_members(s, i) == Some(
                (seq![(k, JsonV::Str(v))], j + 1),
            ))
            &&& (s[j] == ',' ==> spec_parse_members(s, i) == (match spec_parse_members(s, j + 1) {
                Some(p) => Some((seq![(k, JsonV::Str(v))] + p.0, p.1)),
                None => None::<(Seq<(Seq<char>, JsonV)>, int)>,
            }))
        }),
{
    let kl = k.len() as int;
    let vl = v.len() as int;
    let j = i + kl + vl + 5;
    let m = member_text(k, v);
    assert(s[i] == '"') by {
        assert(s.subrange(i, j)[0] == s[i]);
    }
    assert(s[i + 1 + kl] == '"') by {
        assert(s.subrange(i, j)[1 + kl] == s[i + 1 + kl]);
    }
    assert(s[i + 2 + kl] == ':') by {
        assert(s.subrange(i, j)[2 + kl] == s[i + 2 + kl]);
    }
    assert(s[i + 3 + kl] == '"') by {
        assert(s.subrange(i, j)[3 + kl] == s[i + 3 + kl]);
    }
    assert(s[i + 4 + kl + vl] == '"') by {
        assert(s.subrange(i, j)[4 + kl + vl] == s[i + 4 + kl + vl]);
    }

    // the key string
    assert(spec_skip_ws(s, i) == i);
    assert forall|c: int| i + 1 <= c < i + 1 + kl implies is_plain_str_char(s[c]) && s[c]
        != '"' by {
        assert(s.subrange(i, j)[c - i] == s[c]);
        assert(m[c - i] == k[c - i - 1]);
        assert(is_plain_str_char(k[c - i - 1]));
    }
    lemma_scan_string_step(s, i + 1, i + 1 + kl);
    assert(spec_scan_string(s, i + 1 + kl) == Some((Seq::<char>::empty(), i + 2 + kl)));
    assert(s.subrange(i + 1, i + 1 + kl) =~= k) by {
        assert forall|t: int| 0 <= t < kl implies s.subrange(i + 1, i + 1 + kl)[t] == k[t] by {
            assert(s.subrange(i, j)[1 + t] == s[i + 1 + t]);
            assert(m[1 + t] == k[t]);
        }
    }
    assert(s.subrange(i + 1, i + 1 + kl) + Seq::<char>::empty() =~= k);
    assert(spec_parse_string(s, i) == Some((k, i + 2 + kl)));

    // the colon and the value string
    assert(spec_skip_ws(s, i + 2 + kl) == i + 2 + kl);
    assert(spec_skip_ws(s, i + 3 + kl) == i + 3 + kl);
    assert forall|c: int| i + 4 + kl <= c < i + 4 + kl + vl implies is_plain_str_char(s[c]) && s[c]
        != '"' by {
        assert(s.subrange(i, j)[c - i] == s[c]);
        assert(m[c - i] == v[c - i - 4 - kl]);
        assert(is_plain_str_char(v[c - i - 4 - kl]));
    }
    lemma_scan_string_step(s, i + 4 + kl, i + 4 + kl + vl);
    assert(spec_scan_string(s, i + 4 + kl + vl) == Some((Seq::<char>::empty(), i + 5 + kl + vl)));
    assert(s.subrange(i + 4 + kl, i + 4 + kl + vl) =~= v) by {
        assert forall|t: int| 0 <= t < vl implies s.subrange(i + 4 + kl, i + 4 + kl + vl)[t]
            == v[t] by {
            assert(s.subrange(i, j)[4 + kl + t] == s[i + 4 + kl + t]);
            assert(m[4 + kl + t] == v[t]);
        }
    }
    assert(s.subrange(i + 4 + kl, i + 4 + kl + vl) + Seq::<char>::empty() =~= v);
    assert(spec_parse_string(s, i + 3 + kl) == Some((v, j)));
    assert(spec_parse_value(s, i + 3 + kl) == Some((JsonV::Str(v), j)));

    // the separator
    assert(spec_skip_ws(s, j) == j);
}

/// The canonical one-member object parses to exactly that member.
pub proof fn lemma_parse_obj1(k1: Seq<char>, v1: Seq<char>)
    requires
        plain_text(k1),
        plain_text(v1),
    ensures
        spec_parse_object(obj1_text(k1, v1)) == Some(seq![(k1, JsonV::Str(v1))]),
{
    let s = obj1_text(k1, v1);
    let kl = k1.len() as int;
    let vl = v1.len() as int;
    let j = 1 + kl + vl + 5;
    assert(s.len() == j + 1);
    assert(s[0] == '{');
    assert(s[j] == '}');
    assert(s.subrange(1, j) =~= member_text(k1, v1));
    lemma_parse_member_at(s, 1, k1, v1);
    assert(spec_skip_ws(s, 0) == 0);
    assert(s[1] == member_text(k1, v1)[0]);
    assert(s[1] == '"');
    assert(spec_skip_ws(s, 1) == 1);
    assert(spec_parse_members(s, 1) == Some((seq![(k1, JsonV::Str(v1))], j + 1)));
    assert(spec_skip_ws(s, j + 1) == s.len());
}

/// The canonical two-member object parses to exactly those members, in order.
pub proof fn lemma_parse_obj2(k1: Seq<char>, v1: Seq<char>, k2: Seq<char>, v2: Seq<char>)
    requires
        plain_text(k1),
        plain_text(v1),
        plain_text(k2),
        plain_text(v2),
    ensures
        spec_parse_object(obj2_text(k1, v1, k2, v2)) == Some(
            seq![(k1, JsonV::Str(v1)), (k2, JsonV::Str(v2))],
        ),
{
    let s = obj2_text(k1, v1, k2, v2);
    let kl1 = k1.len() as int;
    let vl1 = v1.len() as int;
    let kl2 = k2.len() as int;
    let vl2 = v2.len() as int;
    let j1 = 1 + kl1 + vl1 + 5;
    let i2 = j1 + 1;
    let j2 = i2 + kl2 + vl2 + 5;
    assert(s.len() == j2 + 1);
    assert(s[0] == '{');
    assert(s.subrange(1, j1) =~= member_text(k1, v1));
    assert(s[j1] == ',');
    assert(s.subrange(i2, j2) =~= member_text(k2, v2));
    assert(s[j2] == '}');
    lemma_parse_member_at(s, 1, k1, v1);
    lemma_parse_member_at(s, i2, k2, v2);
    assert(spec_parse_members(s, i2) == Some((seq![(k2, JsonV::Str(v2))], j2 + 1)));
    assert(spec_parse_members(s, 1) == Some(
        (seq![(k1, JsonV::Str(v1))] + seq![(k2, JsonV::Str(v2))], j2 + 1),
    ));
    assert(seq![(k1, JsonV::Str(v1))] + seq![(k2, JsonV::Str(v2))] =~= seq![
        (k1, JsonV::Str(v1)),
        (k2, JsonV::Str(v2)),
    ]);
    assert(spec_skip_ws(s, 0) == 0);
    assert(s[1] == member_text(k1, v1)[0]);
    assert(s[1] == '"');
    assert(spec_skip_ws(s, 1) == 1);
    assert(spec_skip_ws(s, j2 + 1) == s.len());
}

/// The canonical three-member object parses to exactly those members, in
/// order.
#[verifier::rlimit(80)]
pub proof fn lemma_parse_obj3(
    k1: Seq<char>,
    v1: Seq<char>,
    k2: Seq<char>,
    v2: Seq<char>,
    k3: Seq<char>,
    v3: Seq<char>,
)
    requires
        plain_text(k1),
        plain_text(v1),
        plain_text(k2),
        plain_text(v2),
        plain_text(k3),
        plain_text(v3),
    ensures
        spec_parse_object(obj3_text(k1, v1, k2, v2, k3, v3)) == Some(
            seq![(k1, JsonV::Str(v1)), (k2, JsonV::Str(v2)), (k3, JsonV::Str(v3))],
        ),
{
    let s = obj3_text(k1, v1, k2, v2, k3, v3);
    let kl1 = k1.len() as int;
    let vl1 = v1.len() as int;
    let kl2 = k2.len() as int;
    let vl2 = v2.len() as int;
    let kl3 = k3.len() as int;
    let vl3 = v3.len() as int;
    let j1 = 1 + kl1 + vl1 + 5;
    let i2 = j1 + 1;
    let j2 = i2 + kl2 + vl2 + 5;
    let i3 = j2 + 1;
    let j3 = i3 + kl3 + vl3 + 5;
    assert(s.len() == j3 + 1);
    assert(s[0] == '{');
    assert(s.subrange(1, j1) =~= member_text(k1, v1));
    assert(s[j1] == ',');
    assert(s.subrange(i2, j2) =~= member_text(k2, v2));
    assert(s[j2] == ',');
    assert(s.subrange(i3, j3) =~= member_text(k3, v3));
    assert(s[j3] == '}');
    lemma_parse_member_at(s, 1, k1, v1);
    lemma_parse_member_at(s, i2, k2, v2);
    lemma_parse_member_at(s, i3, k3, v3);
    assert(spec_parse_members(s, i3) == Some((seq![(k3, JsonV::Str(v3))], j3 + 1)));
    assert(spec_parse_members(s, i2) == Some(
        (seq![(k2, JsonV::Str(v2))] + seq![(k3, JsonV::Str(v3))], j3 + 1),
    ));
    assert(spec_parse_members(s, 1) == Some(
        (
            seq![(k1, JsonV::Str(v1))] + (seq![(k2, JsonV::Str(v2))] + seq![(k3, JsonV::Str(v3))]),
            j3 + 1,
        ),
    ));
    assert(seq![(k1, JsonV::Str(v1))] + (seq![(k2, JsonV::Str(v2))] + seq![(k3, JsonV::Str(v3))])
        =~= seq![(k1, JsonV::Str(v1)), (k2, JsonV::Str(v2)), (k3, JsonV::Str(v3))]);
    assert(spec_skip_ws(s, 0) == 0);
    assert(s[1] == member_text(k1, v1)[0]);
    assert(s[1] == '"');
    assert(spec_skip_ws(s, 1) == 1);
    assert(spec_skip_ws(s, j3 + 1) == s.len());
}

fn skip_ws(s: &Vec<char>, i: usize) -> (j: usize)
    requires
        i <= s@.len(),
    ensures
        j == spec_skip_ws(s@, i as int),
        i <= j <= s@.len(),
{
    let mut j = i;
    while j < s.len() && (s[j] == ' ' || s[j] == '\t' || s[j] == '\n' || s[j] == '\r')
        invariant
            i <= j <= s@.len(),
            spec_skip_ws(s@, i as int) == spec_skip_ws(s@, j as int),
        decreases s@.len() - j,
    {
        j = j + 1;
    }
    j
}

fn parse_string(s: &Vec<char>, i: usize) -> (r: Option<(Vec<char>, usize)>)
    requires
        i <= s@.len(),
    ensures
        match r {
            Some(p) => spec_parse_string(s@, i as int) == Some((p.0@, p.1 as int)) && i < p.1
                <= s@.len(),
            None => spec_parse_string(s@, i as int) is None,
        },
{
    if i == s.len() || s[i] != '"' {
        return None;
    }
    let mut acc: Vec<char> = Vec::new();
    let mut j = i + 1;
    loop
        invariant
            i < s@.len(),
            s@[i as int] == '"',
            i + 1 <= j <= s@.len(),
            acc@ == s@.subrange(i + 1, j as int),
            forall|k: int| i + 1 <= k < j ==> is_plain_str_char(s@[k]) && s@[k] != '"',
        decreases s@.len() - j,
    {
        if j == s.len() {
            proof {
                lemma_scan_string_step(s@, i + 1, j as int);
            }
            return None;
        }
        let c = s[j];
        if c == '"' {
            proof {
                lemma_scan_string_step(s@, i + 1, j as int);
                assert(s@.subrange(i + 1, j as int) + Seq::<char>::empty() =~= s@.subrange(
                    i + 1,
                    j as int,
                ));
            }
            return Some((acc, j + 1));
        }
        if c == '\\' || (c as u32) < 32 {
            proof {
                lemma_scan_string_step(s@, i + 1, j as int);
            }
            return None;
        }
        acc.push(c);
        j = j + 1;
        proof {
            assert(acc@ =~= s@.subrange(i + 1, j as int));
        }
    }
}

pub(crate) fn parse_nat(s: &Vec<char>, i: usize) -> (r: Option<(u64, usize)>)
    requires
        i <= s@.len(),
    ensures
        match r {
            Some(p) => spec_parse_nat(s@, i as int) == Some((p.0 as int, p.1 as int)) && i < p.1
                <= s@.len(),
            None => spec_parse_nat(s@, i as int) is None,
        },
{
    let mut j = i;
    let mut acc: u64 = 0;
    while j < s.len() && '0' <= s[j] && s[j] <= '9'
        invariant
            i <= j <= s@.len(),
            digit_end(s@, i as int) == digit_end(s@, j as int),
            acc as int == digits_value(s@, i as int, j as int),
            forall|m: int| i <= m < j ==> is_digit(s@[m]),
        decreases s@.len() - j,
    {
        let d = ((s[j] as u32) - 48) as u64;
        if acc > (u64::MAX - d) / 10 {
            proof {
                lemma_fundamental_div_mod((u64::MAX - d) as int, 10);
                assert(acc * 10 + d > u64::MAX);
                assert(digits_value(s@, i as int, j + 1) == acc * 10 + d);
                lemma_digit_end_bounds(s@, j + 1);
                lemma_digits_value_mono(s@, i as int, j + 1, digit_end(s@, i as int));
            }
            return None;
        }
        proof {
            lemma_fundamental_div_mod((u64::MAX - d) as int, 10);
        }
        acc = acc * 10 + d;
        j = j + 1;
    }
    if j == i {
        return None;
    }
    Some((acc, j))
}

/// Checks for the keyword `lit` (an ASCII literal) at position `i`.
fn parse_value(s: &Vec<char>, i: usize) -> (r: Option<(Json, usize)>)
    requires
        i <= s@.len(),
    ensures
        match r {
            Some(p) => spec_parse_value(s@, i as int) == Some((p.0@, p.1 as int)) && i < p.1
                <= s@.len(),
            None => spec_parse_value(s@, i as int) is None,
        },
{
    proof {
        reveal_strlit("true");
        reveal_strlit("false");
        reveal_strlit("null");
    }
    if i == s.len() {
        return None;
    }
    let c = s[i];
    proof {
        if s@.len() - i >= 4 {
            assert(s@.subrange(i as int, i + 4)[0] == s@[i as int]);
        }
        if s@.len() - i >= 5 {
            assert(s@.subrange(i as int, i + 5)[0] == s@[i as int]);
        }
    }
    if c == '"' {
        match parse_string(s, i) {
            Some((content, j)) => Some((Json::Str(content), j)),
            None => None,
        }
    } else if '0' <= c && c <= '9' {
        match parse_nat(s, i) {
            Some((n, j)) => Some((Json::Int(n), j)),
            None => None,
        }
    } else if c == 't' {
        if s.len() - i >= 4 && s[i + 1] == 'r' && s[i + 2] == 'u' && s[i + 3] == 'e' {
            proof {
                assert(s@.subrange(i as int, i + 4) =~= "true"@);
            }
            Some((Json::Bool(true), i + 4))
        } else {
            proof {
                if s@.len() - i >= 4 {
                    assert(s@.subrange(i as int, i + 4)[1] == s@[i + 1]);
                    assert(s@.subrange(i as int, i + 4)[2] == s@[i + 2]);
                    assert(s@.subrange(i as int, i + 4)[3] == s@[i + 3]);
                }
                assert(!lit_at(s@, i as int, "true"@));
            }
            None
        }
    } else if c == 'f' {
        if s.len() - i >= 5 && s[i + 1] == 'a' && s[i + 2] == 'l' && s[i + 3] == 's' && s[i + 4]
            == 'e' {
            proof {
                assert(s@.subrange(i as int, i + 5) =~= "false"@);
            }
            Some((Json::Bool(false), i + 5))
        } else {
            proof {
                if s@.len() - i >= 5 {
                    assert(s@.subrange(i as int, i + 5)[1] == s@[i + 1]);
                    assert(s@.subrange(i as int, i + 5)[2] == s@[i + 2]);
                    assert(s@.subrange(i as int, i + 5)[3] == s@[i + 3]);
                    assert(s@.subrange(i as int, i + 5)[4] == s@[i + 4]);
                }
                assert(!lit_at(s@, i as int, "false"@));
            }
            None
        }
    } else if c == 'n' {
        if s.len() - i >= 4 && s[i + 1] == 'u' && s[i + 2] == 'l' && s[i + 3] == 'l' {
            proof {
                assert(s@.subrange(i as int, i + 4) =~= "null"@);
            }
            Some((Json::Null, i + 4))
        } else {
            proof {
                if s@.len() - i >= 4 {
                    assert(s@.subrange(i as int, i + 4)[1] == s@[i + 1]);
                    assert(s@.subrange(i as int, i + 4)[2] == s@[i + 2]);
                    assert(s@.subrange(i as int, i + 4)[3] == s@[i + 3]);
                }
                assert(!lit_at(s@, i as int, "null"@));
            }
            None
        }
    } else {
        None
    }
}

fn parse_members(s: &Vec<char>, i: usize) -> (r: Option<(Vec<(Vec<char>, Json)>, usize)>)
    requires
        i <= s@.len(),
    ensures
        match r {
            Some(p) => spec_parse_members(s@, i as int) == Some((fields_view(p.0@), p.1 as int))
                && p.1 <= s@.len(),
            None => spec_parse_members(s@, i as int) is None,
        },
    decreases s@.len() - i,
{
    let i1 = skip_ws(s, i);
    let (k, i2) = match parse_string(s, i1) {
        Some(p) => p,
        None => {
            return None;
        },
    };
    let i3 = skip_ws(s, i2);
    if !(i3 < s.len() && s[i3] == ':') {
        return None;
    }
    let i4 = skip_ws(s, i3 + 1);
    let (v, i5) = match parse_value(s, i4) {
        Some(p) => p,
        None => {
            return None;
        },
    };
    let i6 = skip_ws(s, i5);
    if i6 < s.len() && s[i6] == ',' {
        match parse_members(s, i6 + 1) {
            Some((rest, j)) => {
                let ghost rest0 = rest@;
                let mut out = rest;
                out.insert(0, (k, v));
                proof {
                    assert(fields_view(out@) =~= seq![(k@, v@)] + fields_view(rest0));
                }
                Some((out, j))
            },
            None => None,
        }
    } else if i6 < s.len() && s[i6] == '}' {
        let mut out: Vec<(Vec<char>, Json)> = Vec::new();
        out.push((k, v));
        proof {
            assert(fields_view(out@) =~= seq![(k@, v@)]);
        }
        Some((out, i6 + 1))
    } else {
        None
    }
}

/// Parses one whole message as a flat JSON object and yields its fields in
/// message order, or nothing where the text is not such an object.
pub fn parse_object(s: &Vec<char>) -> (r: Option<Vec<(Vec<char>, Json)>>)
    ensures
        match r {
            Some(fs) => spec_parse_object(s@) == Some(fields_view(fs@)),
            None => spec_parse_object(s@) is None,
        },
{
    let i0 = skip_ws(s, 0);
    if !(i0 < s.len() && s[i0] == '{') {
        return None;
    }
    let i1 = skip_ws(s, i0 + 1);
    if i1 < s.len() && s[i1] == '}' {
        let j = skip_ws(s, i1 + 1);
        if j == s.len() {
            let out: Vec<(Vec<char>, Json)> = Vec::new();
            proof {
                assert(fields_view(out@) =~= Seq::<(Seq<char>, JsonV)>::empty());
            }
            Some(out)
        } else {
            None
        }
    } else {
        match parse_members(s, i0 + 1) {
            Some((fs, j)) => {
                let j2 = skip_ws(s, j);
                if j2 == s.len() {
                    Some(fs)
                } else {
                    None
                }
            },
            None => None,
        }
    }
}

} // verus!
