//! The round-trip law of the JSON codec: parsing the canonical text of
//! a well-formed value yields that value back.

use vstd::prelude::*;

use crate::json::{
    dec_digits, enc_elems, enc_field, enc_fields, enc_int, enc_json, enc_more_elems,
    enc_more_fields, enc_str, enc_str_body, esc, is_digit, is_ws, wf_json, wf_str, JsonV,
};
use crate::json_parser::{
    at_least, digits_end, digits_val, json_parse, parse_elems, parse_fields, parse_int,
    parse_str_body, parse_value, ws_end,
};

verus! {

/// `t` occurs in `s` starting at position `i`.
pub open spec fn matches_at(s: Seq<u8>, i: int, t: Seq<u8>) -> bool {
    0 <= i && i + t.len() <= s.len() && s.subrange(i, i + t.len()) == t
}

proof fn lemma_matches_byte(s: Seq<u8>, i: int, t: Seq<u8>, q: int)
    requires
        matches_at(s, i, t),
        0 <= q < t.len(),
    ensures
        s[i + q] == t[q],
{
    assert(s.subrange(i, i + t.len())[q] == s[i + q]);
}

proof fn lemma_matches_split(s: Seq<u8>, i: int, a: Seq<u8>, b: Seq<u8>)
    requires
        matches_at(s, i, a + b),
    ensures
        matches_at(s, i, a),
        matches_at(s, i + a.len(), b),
{
    assert forall|q: int|
        0 <= q < a.len() implies s.subrange(i, i + a.len())[q] == a[q] by {
        assert((a + b)[q] == a[q]);
        lemma_matches_byte(s, i, a + b, q);
        assert(s.subrange(i, i + a.len())[q] == s[i + q]);
    }
    assert(s.subrange(i, i + a.len()) =~= a);
    assert forall|q: int|
        0 <= q < b.len() implies s.subrange(i + a.len(), i + a.len() + b.len())[q] == b[q] by {
        assert((a + b)[a.len() + q] == b[q]);
        lemma_matches_byte(s, i, a + b, a.len() + q);
        assert(s.subrange(i + a.len(), i + a.len() + b.len())[q] == s[i + a.len() + q]);
    }
    assert(s.subrange(i + a.len(), i + a.len() + b.len()) =~= b);
}

/// Basic shape of a decimal digit run: nonempty, all digits, and no
/// leading zero unless the value is zero itself.
proof fn lemma_dec_digits_basic(n: nat)
    ensures
        dec_digits(n).len() >= 1,
        forall|q: int| 0 <= q < dec_digits(n).len() ==> is_digit(#[trigger] dec_digits(n)[q]),
        dec_digits(n)[0] == 0x30 ==> n == 0,
        n < 10 <==> dec_digits(n).len() == 1,
    decreases n,
{
    if n >= 10 {
        lemma_dec_digits_basic(n / 10);
        assert(dec_digits(n) == dec_digits(n / 10).push((0x30 + n % 10) as u8));
        assert(dec_digits(n)[0] == dec_digits(n / 10)[0]);
        assert forall|q: int|
            0 <= q < dec_digits(n).len() implies is_digit(#[trigger] dec_digits(n)[q]) by {
            if q < dec_digits(n / 10).len() {
                assert(dec_digits(n)[q] == dec_digits(n / 10)[q]);
            } else {
                assert(dec_digits(n)[q] == (0x30 + n % 10) as u8);
            }
        }
    }
}

/// A digit run embedded in `s` and delimited on the right scans to
/// exactly its end.
proof fn lemma_digits_end_embed(s: Seq<u8>, x: int, y: int)
    requires
        0 <= x <= y <= s.len(),
        forall|q: int| x <= q < y ==> is_digit(#[trigger] s[q]),
        y == s.len() || !is_digit(s[y]),
    ensures
        digits_end(s, x) == y,
    decreases y - x,
{
    if x < y {
        lemma_digits_end_embed(s, x + 1, y);
    }
}

/// The value scanned from digits embedded in `s` is the number whose
/// digits they are.
pub proof fn lemma_digits_val_embed(s: Seq<u8>, a: int, n: nat)
    requires
        matches_at(s, a, dec_digits(n)),
    ensures
        digits_val(s, a, a + dec_digits(n).len()) == n,
    decreases n,
{
    if n < 10 {
        assert(dec_digits(n) == seq![(0x30 + n) as u8]);
        lemma_matches_byte(s, a, dec_digits(n), 0);
        assert(s[a] == (0x30 + n) as u8);
        assert(digits_val(s, a, a + 1) == digits_val(s, a, a) * 10 + (s[a] - 0x30));
    } else {
        let d: u8 = (0x30 + n % 10) as u8;
        assert(dec_digits(n) == dec_digits(n / 10).push(d));
        assert(dec_digits(n) =~= dec_digits(n / 10) + seq![d]);
        lemma_matches_split(s, a, dec_digits(n / 10), seq![d]);
        lemma_digits_val_embed(s, a, n / 10);
        let l: int = dec_digits(n / 10).len() as int;
        lemma_matches_byte(s, a + l, seq![d], 0);
        assert(s[a + l] == d);
        assert(digits_val(s, a, a + l + 1) == digits_val(s, a, a + l) * 10 + (s[a + l] - 0x30));
        assert(digits_val(s, a, a + l + 1) == (n / 10) * 10 + n % 10);
    }
}

/// Every encoded value is nonempty and starts with a byte that opens a
/// value: a letter of a literal, a quote, a minus sign, a digit, or an
/// opening bracket or brace. In particular it is not whitespace and not
/// a closing delimiter.
proof fn lemma_enc_first(v: JsonV)
    ensures
        enc_json(v).len() >= 1,
        ({
            let b = enc_json(v)[0];
            (b == 0x6e || b == 0x74 || b == 0x66 || b == 0x22 || b == 0x2d || is_digit(b) || b
                == 0x5b || b == 0x7b)
        }),
{
    match v {
        JsonV::Int(i) => {
            if i < 0 {
                assert(enc_json(v) == seq![0x2du8] + dec_digits((-i) as nat));
                lemma_dec_digits_basic((-i) as nat);
                assert(enc_json(v)[0] == 0x2d);
            } else {
                lemma_dec_digits_basic(i as nat);
                assert(enc_json(v) == dec_digits(i as nat));
            }
        },
        JsonV::Str(t) => {
            assert(enc_json(v) == seq![0x22u8] + enc_str_body(t) + seq![0x22u8]);
            assert(enc_json(v)[0] == 0x22);
        },
        JsonV::Arr(a) => {
            assert(enc_json(v)[0] == 0x5b);
        },
        JsonV::Obj(o) => {
            assert(enc_json(v)[0] == 0x7b);
        },
        _ => {},
    }
}

/// Parsing an embedded, well-formed string body: the bytes come back
/// unescaped, and the position lands just after the closing quote.
proof fn lemma_parse_str_body_embed(s: Seq<u8>, i: int, t: Seq<u8>)
    requires
        wf_str(t),
        matches_at(s, i, enc_str_body(t)),
        i + enc_str_body(t).len() < s.len(),
        s[i + enc_str_body(t).len()] == 0x22,
    ensures
        parse_str_body(s, i) == Some((t, i + enc_str_body(t).len() + 1)),
    decreases t.len(),
{
    if t.len() == 0 {
        assert(enc_str_body(t) == Seq::<u8>::empty());
        assert(s[i] == 0x22);
    } else {
        let c = t[0];
        let t1 = t.drop_first();
        assert(enc_str_body(t) == esc(c) + enc_str_body(t1));
        lemma_matches_split(s, i, esc(c), enc_str_body(t1));
        assert(wf_str(t1));
        assert(c >= 0x20);
        let e: int = esc(c).len() as int;
        lemma_parse_str_body_embed(s, i + e, t1);
        if c == 0x22 || c == 0x5c {
            lemma_matches_byte(s, i, esc(c), 0);
            lemma_matches_byte(s, i, esc(c), 1);
            assert(s[i] == 0x5c);
            assert(s[i + 1] == c);
            assert(parse_str_body(s, i) == Some((seq![c] + t1, i + enc_str_body(t).len() + 1)));
            assert(seq![c] + t1 =~= t);
        } else {
            lemma_matches_byte(s, i, esc(c), 0);
            assert(s[i] == c);
            assert(parse_str_body(s, i) == Some((seq![c] + t1, i + enc_str_body(t).len() + 1)));
            assert(seq![c] + t1 =~= t);
        }
    }
}

/// Parsing an embedded integer that is delimited on the right.
proof fn lemma_parse_int_embed(s: Seq<u8>, i: int, iv: int)
    requires
        i64::MIN <= iv <= i64::MAX,
        matches_at(s, i, enc_int(iv)),
        i + enc_int(iv).len() == s.len() || !is_digit(s[i + enc_int(iv).len()]),
    ensures
        parse_int(s, i) == Some((JsonV::Int(iv), i + enc_int(iv).len())),
{
    if iv < 0 {
        let n = (-iv) as nat;
        assert(enc_int(iv) == seq![0x2du8] + dec_digits(n));
        lemma_matches_split(s, i, seq![0x2du8], dec_digits(n));
        lemma_dec_digits_basic(n);
        lemma_matches_byte(s, i, seq![0x2du8], 0);
        assert(s[i] == 0x2d);
        let d0 = i + 1;
        let l: int = dec_digits(n).len() as int;
        assert forall|q: int| d0 <= q < d0 + l implies is_digit(#[trigger] s[q]) by {
            lemma_matches_byte(s, d0, dec_digits(n), q - d0);
        }
        lemma_digits_end_embed(s, d0, d0 + l);
        lemma_digits_val_embed(s, d0, n);
        lemma_matches_byte(s, d0, dec_digits(n), 0);
        assert(s[d0] == dec_digits(n)[0]);
        if s[d0] == 0x30 {
            assert(n == 0);
            assert(false);
        }
        assert(digits_end(s, d0) == d0 + l);
        assert(digits_val(s, d0, d0 + l) == n);
    } else {
        let n = iv as nat;
        assert(enc_int(iv) == dec_digits(n));
        lemma_dec_digits_basic(n);
        let d0 = i;
        let l: int = dec_digits(n).len() as int;
        assert forall|q: int| d0 <= q < d0 + l implies is_digit(#[trigger] s[q]) by {
            lemma_matches_byte(s, d0, dec_digits(n), q - d0);
        }
        lemma_digits_end_embed(s, d0, d0 + l);
        lemma_digits_val_embed(s, d0, n);
        lemma_matches_byte(s, d0, dec_digits(n), 0);
        assert(s[d0] == dec_digits(n)[0]);
        if s[d0] == 0x30 && l > 1 {
            assert(n == 0);
            assert(false);
        }
        assert(s[i] != 0x2d);
    }
}

/// Parsing the canonical text of a well-formed value, embedded in a
/// larger text and (for integers) delimited on the right, yields the
/// value and stops exactly at its end.
proof fn lemma_parse_enc(s: Seq<u8>, i: int, v: JsonV)
    requires
        wf_json(v),
        matches_at(s, i, enc_json(v)),
        i + enc_json(v).len() == s.len() || !is_digit(s[i + enc_json(v).len()]),
    ensures
        parse_value(s, i) == Some((v, i + enc_json(v).len())),
    decreases v, 0int,
{
    lemma_enc_first(v);
    match v {
        JsonV::Null => {
            lemma_matches_byte(s, i, enc_json(v), 0);
            lemma_matches_byte(s, i, enc_json(v), 1);
            lemma_matches_byte(s, i, enc_json(v), 2);
            lemma_matches_byte(s, i, enc_json(v), 3);
            assert(s[i] == 0x6e && s[i + 1] == 0x75 && s[i + 2] == 0x6c && s[i + 3] == 0x6c);
        },
        JsonV::Bool(b) => {
            lemma_matches_byte(s, i, enc_json(v), 0);
            lemma_matches_byte(s, i, enc_json(v), 1);
            lemma_matches_byte(s, i, enc_json(v), 2);
            lemma_matches_byte(s, i, enc_json(v), 3);
            if !b {
                lemma_matches_byte(s, i, enc_json(v), 4);
            }
        },
        JsonV::Int(iv) => {
            lemma_parse_int_embed(s, i, iv);
            lemma_matches_byte(s, i, enc_json(v), 0);
            assert(s[i] == enc_json(v)[0]);
            assert(s[i] == 0x2d || is_digit(s[i]));
            assert(s[i] != 0x6e && s[i] != 0x74 && s[i] != 0x66 && s[i] != 0x22);
        },
        JsonV::Str(t) => {
            assert(enc_json(v) == enc_str(t));
            assert(enc_str(t) =~= seq![0x22u8] + (enc_str_body(t) + seq![0x22u8]));
            lemma_matches_split(s, i, seq![0x22u8], enc_str_body(t) + seq![0x22u8]);
            lemma_matches_split(s, i + 1, enc_str_body(t), seq![0x22u8]);
            lemma_matches_byte(s, i, seq![0x22u8], 0);
            assert(s[i] == 0x22);
            lemma_matches_byte(s, i + 1 + enc_str_body(t).len(), seq![0x22u8], 0);
            assert(s[i + 1 + enc_str_body(t).len()] == 0x22);
            lemma_parse_str_body_embed(s, i + 1, t);
        },
        JsonV::Arr(a) => {
            assert(enc_json(v) =~= seq![0x5bu8] + (enc_elems(a) + seq![0x5du8]));
            lemma_matches_split(s, i, seq![0x5bu8], enc_elems(a) + seq![0x5du8]);
            lemma_matches_split(s, i + 1, enc_elems(a), seq![0x5du8]);
            lemma_matches_byte(s, i, seq![0x5bu8], 0);
            assert(s[i] == 0x5b);
            let ec: int = enc_elems(a).len() as int;
            lemma_matches_byte(s, i + 1 + ec, seq![0x5du8], 0);
            assert(s[i + 1 + ec] == 0x5d);
            if a.len() == 0 {
                assert(enc_elems(a) == Seq::<u8>::empty());
                assert(s[i + 1] == 0x5d);
                assert(ws_end(s, i + 1) == i + 1);
                assert(at_least(i + 1, i + 1) == i + 1);
                assert(parse_value(s, i) == Some((JsonV::Arr(Seq::empty()), i + 2)));
                assert(a =~= Seq::<JsonV>::empty());
            } else {
                lemma_enc_first(a[0]);
                assert(enc_elems(a) == enc_json(a[0]) + enc_more_elems(a.drop_first()));
                lemma_matches_byte(s, i + 1, enc_elems(a), 0);
                assert(enc_elems(a)[0] == enc_json(a[0])[0]);
                assert(s[i + 1] == enc_json(a[0])[0]);
                assert(!is_ws(s[i + 1]));
                assert(ws_end(s, i + 1) == i + 1);
                assert(s[i + 1] != 0x5d);
                lemma_parse_elems_embed(s, i + 1, a);
                assert(parse_elems(s, i + 1) == Some((a, i + 1 + ec + 1)));
            }
        },
        JsonV::Obj(o) => {
            assert(enc_json(v) =~= seq![0x7bu8] + (enc_fields(o) + seq![0x7du8]));
            lemma_matches_split(s, i, seq![0x7bu8], enc_fields(o) + seq![0x7du8]);
            lemma_matches_split(s, i + 1, enc_fields(o), seq![0x7du8]);
            lemma_matches_byte(s, i, seq![0x7bu8], 0);
            assert(s[i] == 0x7b);
            let ec: int = enc_fields(o).len() as int;
            lemma_matches_byte(s, i + 1 + ec, seq![0x7du8], 0);
            assert(s[i + 1 + ec] == 0x7d);
            if o.len() == 0 {
                assert(enc_fields(o) == Seq::<u8>::empty());
                assert(s[i + 1] == 0x7d);
                assert(ws_end(s, i + 1) == i + 1);
                assert(parse_value(s, i) == Some((JsonV::Obj(Seq::empty()), i + 2)));
                assert(o =~= Seq::<(Seq<u8>, JsonV)>::empty());
            } else {
                assert(enc_fields(o) == enc_field(o[0]) + enc_more_fields(o.drop_first()));
                assert(enc_field(o[0]) == enc_str(o[0].0) + seq![0x3au8] + enc_json(o[0].1));
                lemma_matches_byte(s, i + 1, enc_fields(o), 0);
                assert(enc_fields(o)[0] == enc_field(o[0])[0]);
                assert(enc_field(o[0])[0] == enc_str(o[0].0)[0]);
                assert(enc_str(o[0].0)[0] == 0x22);
                assert(s[i + 1] == 0x22);
                assert(!is_ws(s[i + 1]));
                assert(ws_end(s, i + 1) == i + 1);
                assert(s[i + 1] != 0x7d);
                lemma_parse_fields_embed(s, i + 1, o);
                assert(parse_fields(s, i + 1) == Some((o, i + 1 + ec + 1)));
            }
        },
    }
}

/// Parsing embedded array elements followed by their closing bracket.
proof fn lemma_parse_elems_embed(s: Seq<u8>, i: int, a: Seq<JsonV>)
    requires
        a.len() >= 1,
        forall|k: int| 0 <= k < a.len() ==> wf_json(#[trigger] a[k]),
        matches_at(s, i, enc_elems(a)),
        i + enc_elems(a).len() < s.len(),
        s[i + enc_elems(a).len()] == 0x5d,
    ensures
        parse_elems(s, i) == Some((a, i + enc_elems(a).len() + 1)),
    decreases a, 1int,
{
    let v0 = a[0];
    let rest = a.drop_first();
    assert(wf_json(v0));
    assert(enc_elems(a) == enc_json(v0) + enc_more_elems(rest));
    lemma_matches_split(s, i, enc_json(v0), enc_more_elems(rest));
    let k = i + enc_json(v0).len();
    if rest.len() == 0 {
        assert(enc_more_elems(rest) == Seq::<u8>::empty());
        assert(k == i + enc_elems(a).len());
        assert(s[k] == 0x5d);
        lemma_parse_enc(s, i, v0);
        assert(at_least(i + 1, k) == k);
        assert(!is_ws(s[k]));
        assert(ws_end(s, k) == k);
        assert(at_least(k, k) == k);
        assert(parse_elems(s, i) == Some((seq![v0], k + 1)));
        assert(seq![v0] =~= a);
    } else {
        assert(enc_more_elems(rest) == seq![0x2cu8] + enc_json(rest[0]) + enc_more_elems(
            rest.drop_first(),
        ));
        assert(enc_elems(rest) == enc_json(rest[0]) + enc_more_elems(rest.drop_first()));
        assert(enc_more_elems(rest) =~= seq![0x2cu8] + enc_elems(rest));
        lemma_matches_split(s, k, seq![0x2cu8], enc_elems(rest));
        lemma_matches_byte(s, k, seq![0x2cu8], 0);
        assert(s[k] == 0x2c);
        lemma_parse_enc(s, i, v0);
        assert(at_least(i + 1, k) == k);
        assert(ws_end(s, k) == k);
        assert(at_least(k, k) == k);
        lemma_enc_first(rest[0]);
        lemma_matches_byte(s, k + 1, enc_elems(rest), 0);
        assert(enc_elems(rest)[0] == enc_json(rest[0])[0]);
        assert(s[k + 1] == enc_json(rest[0])[0]);
        assert(!is_ws(s[k + 1]));
        assert(ws_end(s, k + 1) == k + 1);
        assert(at_least(k + 1, k + 1) == k + 1);
        assert(forall|q: int| 0 <= q < rest.len() ==> wf_json(#[trigger] rest[q]));
        assert(k + 1 + enc_elems(rest).len() == i + enc_elems(a).len());
        lemma_parse_elems_embed(s, k + 1, rest);
        assert(parse_elems(s, k + 1) == Some((rest, i + enc_elems(a).len() + 1)));
        assert(parse_elems(s, i) == Some((seq![v0] + rest, i + enc_elems(a).len() + 1)));
        assert(seq![v0] + rest =~= a);
    }
}

/// Parsing embedded object fields followed by their closing brace.
#[verifier::rlimit(60)]
proof fn lemma_parse_fields_embed(s: Seq<u8>, i: int, o: Seq<(Seq<u8>, JsonV)>)
    requires
        o.len() >= 1,
        forall|k: int| 0 <= k < o.len() ==> wf_str((#[trigger] o[k]).0) && wf_json(o[k].1),
        matches_at(s, i, enc_fields(o)),
        i + enc_fields(o).len() < s.len(),
        s[i + enc_fields(o).len()] == 0x7d,
    ensures
        parse_fields(s, i) == Some((o, i + enc_fields(o).len() + 1)),
    decreases o, 1int,
{
    let key = o[0].0;
    let v0 = o[0].1;
    let rest = o.drop_first();
    assert(wf_str(key) && wf_json(v0));
    assert(enc_fields(o) == enc_field(o[0]) + enc_more_fields(rest));
    assert(enc_field(o[0]) == enc_str(key) + seq![0x3au8] + enc_json(v0));
    assert(enc_fields(o) =~= seq![0x22u8] + (enc_str_body(key) + (seq![0x22u8, 0x3au8] + (
    enc_json(v0) + enc_more_fields(rest)))));
    lemma_matches_split(
        s,
        i,
        seq![0x22u8],
        enc_str_body(key) + (seq![0x22u8, 0x3au8] + (enc_json(v0) + enc_more_fields(rest))),
    );
    lemma_matches_split(
        s,
        i + 1,
        enc_str_body(key),
        seq![0x22u8, 0x3au8] + (enc_json(v0) + enc_more_fields(rest)),
    );
    let bl: int = enc_str_body(key).len() as int;
    lemma_matches_split(
        s,
        i + 1 + bl,
        seq![0x22u8, 0x3au8],
        enc_json(v0) + enc_more_fields(rest),
    );
    lemma_matches_byte(s, i, seq![0x22u8], 0);
    assert(s[i] == 0x22);
    lemma_matches_byte(s, i + 1 + bl, seq![0x22u8, 0x3au8], 0);
    lemma_matches_byte(s, i + 1 + bl, seq![0x22u8, 0x3au8], 1);
    assert(s[i + 1 + bl] == 0x22);
    assert(s[i + 2 + bl] == 0x3a);
    lemma_parse_str_body_embed(s, i + 1, key);
    assert(parse_str_body(s, i + 1) == Some((key, i + 2 + bl)));
    let m = i + 2 + bl;
    assert(at_least(i + 1, m) == m);
    assert(ws_end(s, m) == m);
    assert(at_least(m, m) == m);
    let vp = m + 1;
    lemma_matches_split(s, vp, enc_json(v0), enc_more_fields(rest));
    lemma_enc_first(v0);
    lemma_matches_byte(s, vp, enc_json(v0), 0);
    assert(s[vp] == enc_json(v0)[0]);
    assert(!is_ws(s[vp]));
    assert(ws_end(s, vp) == vp);
    assert(at_least(m + 1, vp) == vp);
    let e = vp + enc_json(v0).len();
    if rest.len() == 0 {
        assert(enc_more_fields(rest) == Seq::<u8>::empty());
        assert(e == i + enc_fields(o).len());
        assert(s[e] == 0x7d);
        lemma_parse_enc(s, vp, v0);
        assert(at_least(vp + 1, e) == e);
        assert(!is_ws(s[e]));
        assert(ws_end(s, e) == e);
        assert(at_least(e, e) == e);
        assert(parse_fields(s, i) == Some((seq![(key, v0)], e + 1)));
        assert(seq![(key, v0)] =~= o);
    } else {
        assert(enc_more_fields(rest) == seq![0x2cu8] + enc_field(rest[0]) + enc_more_fields(
            rest.drop_first(),
        ));
        assert(enc_fields(rest) == enc_field(rest[0]) + enc_more_fields(rest.drop_first()));
        assert(enc_more_fields(rest) =~= seq![0x2cu8] + enc_fields(rest));
        lemma_matches_split(s, e, seq![0x2cu8], enc_fields(rest));
        lemma_matches_byte(s, e, seq![0x2cu8], 0);
        assert(s[e] == 0x2c);
        lemma_parse_enc(s, vp, v0);
        assert(at_least(vp + 1, e) == e);
        assert(ws_end(s, e) == e);
        assert(at_least(e, e) == e);
        lemma_matches_byte(s, e + 1, enc_fields(rest), 0);
        assert(enc_fields(rest)[0] == enc_field(rest[0])[0]);
        assert(enc_field(rest[0]) == enc_str(rest[0].0) + seq![0x3au8] + enc_json(rest[0].1));
        assert(enc_field(rest[0])[0] == enc_str(rest[0].0)[0]);
        assert(enc_str(rest[0].0)[0] == 0x22);
        assert(s[e + 1] == 0x22);
        assert(ws_end(s, e + 1) == e + 1);
        assert(at_least(e + 1, e + 1) == e + 1);
        assert(forall|q: int|
            0 <= q < rest.len() ==> wf_str((#[trigger] rest[q]).0) && wf_json(rest[q].1));
        assert(e + 1 + enc_fields(rest).len() == i + enc_fields(o).len());
        lemma_parse_fields_embed(s, e + 1, rest);
        assert(parse_fields(s, e + 1) == Some((rest, i + enc_fields(o).len() + 1)));
        assert(parse_fields(s, i) == Some(
            (seq![(key, v0)] + rest, i + enc_fields(o).len() + 1),
        ));
        assert(seq![(key, v0)] + rest =~= o);
    }
}

/// The round-trip law: the canonical text of any well-formed value
/// parses back to exactly that value.
pub proof fn lemma_json_round_trip(v: JsonV)
    requires
        wf_json(v),
    ensures
        json_parse(enc_json(v)) == Some(v),
{
    let s = enc_json(v);
    lemma_enc_first(v);
    assert(!is_ws(s[0]));
    assert(ws_end(s, 0) == 0);
    assert(at_least(0, 0) == 0);
    assert(s.subrange(0, s.len() as int) =~= s);
    assert(matches_at(s, 0, s));
    lemma_parse_enc(s, 0, v);
    assert(ws_end(s, s.len() as int) == s.len());
    assert(at_least(s.len() as int, s.len() as int) == s.len());
}

} // verus!
