//! Parser for the JSON text frames of the wire protocol.
//!
//! The grammar is the JSON subset the protocol uses: `null`, `true`,
//! `false`, decimal integers, strings with `\"` and `\\` escapes, arrays
//! and objects, with insignificant whitespace allowed between tokens.
//! Numbers with fractions or exponents, `\u` escapes, and integers
//! outside the `i64` range are rejected.
//!
//! The specification parser (`parse_value` and friends) defines exactly
//! which texts are accepted and what value each one denotes; the
//! executable parser is proved to return precisely what the
//! specification parser says.

use vstd::prelude::*;

use crate::json::{is_digit, is_ws, json_view, jsons_view, fields_view, Json, JsonV};

verus! {

broadcast use vstd::std_specs::vec::group_vec_axioms;

/// The length of the text still unread at position `i`; never negative,
/// so it can serve as a termination measure for the parsing functions.
pub open spec fn rem(s: Seq<u8>, i: int) -> int {
    if i <= s.len() {
        s.len() - i
    } else {
        0
    }
}

/// `j`, but never below `lo`. The parsing functions apply it to every
/// position handed back by another parsing function, which keeps the
/// recursion visibly bounded; the positions are in fact always past
/// `lo`, so the clamp never changes a value.
pub open spec fn at_least(lo: int, j: int) -> int {
    if j < lo {
        lo
    } else {
        j
    }
}

/// The first position at or after `i` that does not hold whitespace.
pub open spec fn ws_end(s: Seq<u8>, i: int) -> int
    decreases s.len() - i,
{
    if 0 <= i < s.len() && is_ws(s[i]) {
        ws_end(s, i + 1)
    } else {
        i
    }
}

/// The first position at or after `i` that does not hold a digit.
pub open spec fn digits_end(s: Seq<u8>, i: int) -> int
    decreases s.len() - i,
{
    if 0 <= i < s.len() && is_digit(s[i]) {
        digits_end(s, i + 1)
    } else {
        i
    }
}

/// The value of the digit run `s[i .. j]`, most significant digit first.
pub open spec fn digits_val(s: Seq<u8>, i: int, j: int) -> int
    decreases j - i,
{
    if i < j {
        digits_val(s, i, j - 1) * 10 + (s[j - 1] - 0x30)
    } else {
        0
    }
}

/// Appending digits never shrinks the value of a digit run.
pub proof fn lemma_digits_val_mono(s: Seq<u8>, i: int, k: int, j: int)
    requires
        i <= k <= j,
        forall|q: int| i <= q < j ==> is_digit(#[trigger] s[q]),
    ensures
        0 <= digits_val(s, i, k) <= digits_val(s, i, j),
    decreases j - k,
{
    if k == j {
        lemma_digits_val_nonneg(s, i, k);
    } else {
        lemma_digits_val_mono(s, i, k, j - 1);
        lemma_digits_val_nonneg(s, i, j - 1);
    }
}

pub proof fn lemma_digits_val_nonneg(s: Seq<u8>, i: int, j: int)
    requires
        forall|q: int| i <= q < j ==> is_digit(#[trigger] s[q]),
    ensures
        digits_val(s, i, j) >= 0,
    decreases j - i,
{
    if i < j {
        lemma_digits_val_nonneg(s, i, j - 1);
    }
}

/// The body of a string after its opening quote: the bytes it denotes
/// and the position after the closing quote.
pub open spec fn parse_str_body(s: Seq<u8>, i: int) -> Option<(Seq<u8>, int)>
    decreases s.len() - i,
{
    if !(0 <= i < s.len()) {
        None
    } else if s[i] == 0x22 {
        Some((Seq::empty(), i + 1))
    } else if s[i] == 0x5c {
        if i + 1 < s.len() && (s[i + 1] == 0x22 || s[i + 1] == 0x5c) {
            match parse_str_body(s, i + 2) {
                None => None,
                Some((t, j)) => Some((seq![s[i + 1]] + t, j)),
            }
        } else {
            None
        }
    } else if s[i] < 0x20 {
        None
    } else {
        match parse_str_body(s, i + 1) {
            None => None,
            Some((t, j)) => Some((seq![s[i]] + t, j)),
        }
    }
}

/// An integer literal at `i`: an optional minus sign, then digits with
/// no leading zero, denoting a value that fits in an `i64`.
pub open spec fn parse_int(s: Seq<u8>, i: int) -> Option<(JsonV, int)> {
    if !(0 <= i < s.len()) {
        None
    } else {
        let neg = s[i] == 0x2d;
        let d0 = if neg {
            i + 1
        } else {
            i
        };
        let e = digits_end(s, d0);
        if e == d0 {
            None
        } else if s[d0] == 0x30 && e > d0 + 1 {
            None
        } else {
            let m = digits_val(s, d0, e);
            let v = if neg {
                -m
            } else {
                m
            };
            if i64::MIN <= v <= i64::MAX {
                Some((JsonV::Int(v), e))
            } else {
                None
            }
        }
    }
}

/// A JSON value starting exactly at `i` (no leading whitespace), and
/// the position just after it.
pub open spec fn parse_value(s: Seq<u8>, i: int) -> Option<(JsonV, int)>
    decreases rem(s, i), 0int,
{
    if !(0 <= i < s.len()) {
        None
    } else {
        let b = s[i];
        if b == 0x6e {
            if i + 4 <= s.len() && s[i + 1] == 0x75 && s[i + 2] == 0x6c && s[i + 3] == 0x6c {
                Some((JsonV::Null, i + 4))
            } else {
                None
            }
        } else if b == 0x74 {
            if i + 4 <= s.len() && s[i + 1] == 0x72 && s[i + 2] == 0x75 && s[i + 3] == 0x65 {
                Some((JsonV::Bool(true), i + 4))
            } else {
                None
            }
        } else if b == 0x66 {
            if i + 5 <= s.len() && s[i + 1] == 0x61 && s[i + 2] == 0x6c && s[i + 3] == 0x73 && s[i
                + 4] == 0x65 {
                Some((JsonV::Bool(false), i + 5))
            } else {
                None
            }
        } else if b == 0x22 {
            match parse_str_body(s, i + 1) {
                None => None,
                Some((t, j)) => Some((JsonV::Str(t), j)),
            }
        } else if b == 0x2d || is_digit(b) {
            parse_int(s, i)
        } else if b == 0x5b {
            let j = at_least(i + 1, ws_end(s, i + 1));
            if j < s.len() && s[j] == 0x5d {
                Some((JsonV::Arr(Seq::empty()), j + 1))
            } else {
                match parse_elems(s, j) {
                    None => None,
                    Some((elems, k)) => Some((JsonV::Arr(elems), k)),
                }
            }
        } else if b == 0x7b {
            let j = at_least(i + 1, ws_end(s, i + 1));
            if j < s.len() && s[j] == 0x7d {
                Some((JsonV::Obj(Seq::empty()), j + 1))
            } else {
                match parse_fields(s, j) {
                    None => None,
                    Some((fields, k)) => Some((JsonV::Obj(fields), k)),
                }
            }
        } else {
            None
        }
    }
}

/// One or more comma-separated array elements starting at `i` (already
/// past any whitespace), up to and including the closing bracket.
pub open spec fn parse_elems(s: Seq<u8>, i: int) -> Option<(Seq<JsonV>, int)>
    decreases rem(s, i), 1int,
{
    match parse_value(s, i) {
        None => None,
        Some((v, k0)) => {
            let k = at_least(i + 1, k0);
            let m = at_least(k, ws_end(s, k));
            if m < s.len() && s[m] == 0x2c {
                let n = at_least(m + 1, ws_end(s, m + 1));
                match parse_elems(s, n) {
                    None => None,
                    Some((rest, end)) => Some((seq![v] + rest, end)),
                }
            } else if m < s.len() && s[m] == 0x5d {
                Some((seq![v], m + 1))
            } else {
                None
            }
        },
    }
}

/// One or more comma-separated object fields starting at `i` (already
/// past any whitespace), up to and including the closing brace.
pub open spec fn parse_fields(s: Seq<u8>, i: int) -> Option<(Seq<(Seq<u8>, JsonV)>, int)>
    decreases rem(s, i), 1int,
{
    if !(0 <= i < s.len() && s[i] == 0x22) {
        None
    } else {
        match parse_str_body(s, i + 1) {
            None => None,
            Some((key, k0)) => {
                let k = at_least(i + 1, k0);
                let m = at_least(k, ws_end(s, k));
                if m < s.len() && s[m] == 0x3a {
                    let vp = at_least(m + 1, ws_end(s, m + 1));
                    match parse_value(s, vp) {
                        None => None,
                        Some((v, e0)) => {
                            let e = at_least(vp + 1, e0);
                            let p = at_least(e, ws_end(s, e));
                            if p < s.len() && s[p] == 0x2c {
                                let n = at_least(p + 1, ws_end(s, p + 1));
                                match parse_fields(s, n) {
                                    None => None,
                                    Some((rest, end)) => Some((seq![(key, v)] + rest, end)),
                                }
                            } else if p < s.len() && s[p] == 0x7d {
                                Some((seq![(key, v)], p + 1))
                            } else {
                                None
                            }
                        },
                    }
                } else {
                    None
                }
            },
        }
    }
}

/// A whole text frame: one value, with whitespace allowed around it and
/// nothing else before or after.
pub open spec fn json_parse(s: Seq<u8>) -> Option<JsonV> {
    let start = at_least(0, ws_end(s, 0));
    match parse_value(s, start) {
        None => None,
        Some((v, k)) => {
            let e = at_least(k, ws_end(s, k));
            if e == s.len() {
                Some(v)
            } else {
                None
            }
        },
    }
}

// ---------------------------------------------------------------------
// The verified parser
// ---------------------------------------------------------------------

fn ws_end_exec(s: &[u8], i: usize) -> (r: usize)
    requires
        i <= s@.len(),
    ensures
        r as int == ws_end(s@, i as int),
        i <= r && r <= s@.len(),
{
    let mut r = i;
    while r < s.len() && (s[r] == 0x20 || s[r] == 0x09 || s[r] == 0x0a || s[r] == 0x0d)
        invariant
            i <= r <= s@.len(),
            ws_end(s@, i as int) == ws_end(s@, r as int),
        decreases s@.len() - r,
    {
        r = r + 1;
    }
    r
}

pub(crate) fn digits_end_exec(s: &[u8], i: usize) -> (r: usize)
    requires
        i <= s@.len(),
    ensures
        r as int == digits_end(s@, i as int),
        i <= r && r <= s@.len(),
        forall|q: int| i <= q < r ==> is_digit(#[trigger] s@[q]),
{
    let mut r = i;
    while r < s.len() && 0x30 <= s[r] && s[r] <= 0x39
        invariant
            i <= r <= s@.len(),
            digits_end(s@, i as int) == digits_end(s@, r as int),
            forall|q: int| i <= q < r ==> is_digit(#[trigger] s@[q]),
        decreases s@.len() - r,
    {
        r = r + 1;
    }
    r
}


fn parse_str_body_exec(s: &[u8], i: usize) -> (r: Option<(Vec<u8>, usize)>)
    requires
        i <= s@.len(),
    ensures
        r is None ==> parse_str_body(s@, i as int) is None,
        r is Some ==> parse_str_body(s@, i as int) == Some(
            (r->Some_0.0@, r->Some_0.1 as int),
        ),
        r is Some ==> i < r->Some_0.1 <= s@.len(),
{
    let mut acc: Vec<u8> = Vec::new();
    let mut cur: usize = i;
    loop
        invariant
            i <= cur <= s@.len(),
            parse_str_body(s@, cur as int) is Some ==> parse_str_body(s@, i as int) == Some(
                (
                    acc@ + parse_str_body(s@, cur as int)->Some_0.0,
                    parse_str_body(s@, cur as int)->Some_0.1,
                ),
            ),
            parse_str_body(s@, cur as int) is None ==> parse_str_body(s@, i as int) is None,
        decreases s@.len() - cur,
    {
        if cur >= s.len() {
            return None;
        }
        let b = s[cur];
        if b == 0x22 {
            proof {
                assert(parse_str_body(s@, cur as int) == Some((Seq::<u8>::empty(), cur + 1)));
                assert(acc@ + Seq::<u8>::empty() =~= acc@);
            }
            return Some((acc, cur + 1));
        }
        if b == 0x5c {
            if cur + 1 < s.len() && (s[cur + 1] == 0x22 || s[cur + 1] == 0x5c) {
                let c = s[cur + 1];
                let ghost acc0: Seq<u8> = acc@;
                acc.push(c);
                proof {
                    assert(acc@ =~= acc0 + seq![c]);
                    if parse_str_body(s@, cur + 2) is Some {
                        let (t, j) = parse_str_body(s@, cur + 2)->Some_0;
                        assert(parse_str_body(s@, cur as int) == Some((seq![c] + t, j)));
                        assert((acc0 + seq![c]) + t =~= acc0 + (seq![c] + t));
                    }
                }
                cur = cur + 2;
            } else {
                proof {
                    assert(parse_str_body(s@, cur as int) is None);
                }
                return None;
            }
        } else if b < 0x20 {
            proof {
                assert(parse_str_body(s@, cur as int) is None);
            }
            return None;
        } else {
            let ghost acc0: Seq<u8> = acc@;
            acc.push(b);
            proof {
                assert(acc@ =~= acc0 + seq![b]);
                if parse_str_body(s@, cur + 1) is Some {
                    let (t, j) = parse_str_body(s@, cur + 1)->Some_0;
                    assert(parse_str_body(s@, cur as int) == Some((seq![b] + t, j)));
                    assert((acc0 + seq![b]) + t =~= acc0 + (seq![b] + t));
                }
            }
            cur = cur + 1;
        }
    }
}

#[verifier::loop_isolation(false)]
fn parse_int_exec(s: &[u8], i: usize) -> (r: Option<(Json, usize)>)
    requires
        i <= s@.len(),
    ensures
        r is None ==> parse_int(s@, i as int) is None,
        r is Some ==> parse_int(s@, i as int) == Some(
            (json_view(r->Some_0.0), r->Some_0.1 as int),
        ),
        r is Some ==> i < r->Some_0.1 <= s@.len(),
{
    if i >= s.len() {
        return None;
    }
    let neg = s[i] == 0x2d;
    let d0: usize = if neg {
        i + 1
    } else {
        i
    };
    let e = digits_end_exec(s, d0);
    if e == d0 {
        return None;
    }
    if s[d0] == 0x30 && e > d0 + 1 {
        return None;
    }
    let mut acc: u128 = 0;
    let mut p: usize = d0;
    while p < e
        invariant
            d0 <= p <= e,
            e as int == digits_end(s@, d0 as int),
            e <= s@.len(),
            forall|q: int| d0 <= q < e ==> is_digit(#[trigger] s@[q]),
            acc as int == digits_val(s@, d0 as int, p as int),
            acc <= 0x8000_0000_0000_0000u128,
        decreases e - p,
    {
        let d: u8 = s[p] - 0x30;
        let na: u128 = acc * 10 + (d as u128);
        proof {
            assert(na as int == digits_val(s@, d0 as int, p + 1));
        }
        if na > 0x8000_0000_0000_0000u128 {
            proof {
                lemma_digits_val_mono(s@, d0 as int, p + 1, e as int);
            }
            return None;
        }
        acc = na;
        p = p + 1;
    }
    if neg {
        if acc == 0x8000_0000_0000_0000u128 {
            Some((Json::Int(i64::MIN), e))
        } else {
            Some((Json::Int(-(acc as i64)), e))
        }
    } else {
        if acc == 0x8000_0000_0000_0000u128 {
            return None;
        }
        Some((Json::Int(acc as i64), e))
    }
}

fn parse_value_exec(s: &[u8], i: usize) -> (r: Option<(Json, usize)>)
    requires
        i <= s@.len(),
    ensures
        r is None ==> parse_value(s@, i as int) is None,
        r is Some ==> parse_value(s@, i as int) == Some(
            (json_view(r->Some_0.0), r->Some_0.1 as int),
        ),
        r is Some ==> i < r->Some_0.1 <= s@.len(),
    decreases rem(s@, i as int), 0int,
{
    if i >= s.len() {
        return None;
    }
    let b = s[i];
    if b == 0x6e {
        if s.len() - i >= 4 && s[i + 1] == 0x75 && s[i + 2] == 0x6c && s[i + 3] == 0x6c {
            Some((Json::Null, i + 4))
        } else {
            None
        }
    } else if b == 0x74 {
        if s.len() - i >= 4 && s[i + 1] == 0x72 && s[i + 2] == 0x75 && s[i + 3] == 0x65 {
            Some((Json::Bool(true), i + 4))
        } else {
            None
        }
    } else if b == 0x66 {
        if s.len() - i >= 5 && s[i + 1] == 0x61 && s[i + 2] == 0x6c && s[i + 3] == 0x73 && s[i + 4]
            == 0x65 {
            Some((Json::Bool(false), i + 5))
        } else {
            None
        }
    } else if b == 0x22 {
        match parse_str_body_exec(s, i + 1) {
            None => None,
            Some((t, j)) => Some((Json::Str(t), j)),
        }
    } else if b == 0x2d || (0x30 <= b && b <= 0x39) {
        parse_int_exec(s, i)
    } else if b == 0x5b {
        let j = ws_end_exec(s, i + 1);
        proof {
            assert(at_least(i + 1, ws_end(s@, i + 1)) == j as int);
        }
        if j < s.len() && s[j] == 0x5d {
            let elems: Vec<Json> = Vec::new();
            proof {
                assert(jsons_view(elems@) =~= Seq::<JsonV>::empty());
            }
            Some((Json::Arr(elems), j + 1))
        } else {
            match parse_elems_exec(s, j) {
                None => None,
                Some((elems, k)) => Some((Json::Arr(elems), k)),
            }
        }
    } else if b == 0x7b {
        let j = ws_end_exec(s, i + 1);
        proof {
            assert(at_least(i + 1, ws_end(s@, i + 1)) == j as int);
        }
        if j < s.len() && s[j] == 0x7d {
            let fields: Vec<(Vec<u8>, Json)> = Vec::new();
            proof {
                assert(fields_view(fields@) =~= Seq::<(Seq<u8>, JsonV)>::empty());
            }
            Some((Json::Obj(fields), j + 1))
        } else {
            match parse_fields_exec(s, j) {
                None => None,
                Some((fields, k)) => Some((Json::Obj(fields), k)),
            }
        }
    } else {
        None
    }
}

fn parse_elems_exec(s: &[u8], i: usize) -> (r: Option<(Vec<Json>, usize)>)
    requires
        i <= s@.len(),
    ensures
        r is None ==> parse_elems(s@, i as int) is None,
        r is Some ==> parse_elems(s@, i as int) == Some(
            (jsons_view(r->Some_0.0@), r->Some_0.1 as int),
        ),
        r is Some ==> i < r->Some_0.1 <= s@.len(),
    decreases rem(s@, i as int), 1int,
{
    match parse_value_exec(s, i) {
        None => None,
        Some((v, k)) => {
            proof {
                assert(at_least(i + 1, k as int) == k as int);
            }
            let m = ws_end_exec(s, k);
            proof {
                assert(at_least(k as int, ws_end(s@, k as int)) == m as int);
            }
            if m < s.len() && s[m] == 0x2c {
                let n = ws_end_exec(s, m + 1);
                proof {
                    assert(at_least(m + 1, ws_end(s@, m + 1)) == n as int);
                }
                match parse_elems_exec(s, n) {
                    None => None,
                    Some((rest, end)) => {
                        let ghost rest0: Seq<Json> = rest@;
                        let mut rest = rest;
                        rest.insert(0, v);
                        proof {
                            assert(rest@[0] == v);
                            assert(rest@.drop_first() =~= rest0);
                            assert(jsons_view(rest@) == seq![json_view(v)] + jsons_view(rest0));
                        }
                        Some((rest, end))
                    },
                }
            } else if m < s.len() && s[m] == 0x5d {
                let mut one: Vec<Json> = Vec::new();
                one.push(v);
                proof {
                    assert(one@.drop_first() =~= Seq::<Json>::empty());
                    assert(one@[0] == v);
                    assert(jsons_view(Seq::<Json>::empty()) == Seq::<JsonV>::empty());
                    assert(jsons_view(one@) =~= seq![json_view(v)]);
                }
                Some((one, m + 1))
            } else {
                None
            }
        },
    }
}

fn parse_fields_exec(s: &[u8], i: usize) -> (r: Option<(Vec<(Vec<u8>, Json)>, usize)>)
    requires
        i <= s@.len(),
    ensures
        r is None ==> parse_fields(s@, i as int) is None,
        r is Some ==> parse_fields(s@, i as int) == Some(
            (fields_view(r->Some_0.0@), r->Some_0.1 as int),
        ),
        r is Some ==> i < r->Some_0.1 <= s@.len(),
    decreases rem(s@, i as int), 1int,
{
    if !(i < s.len() && s[i] == 0x22) {
        return None;
    }
    match parse_str_body_exec(s, i + 1) {
        None => None,
        Some((key, k)) => {
            proof {
                assert(at_least(i + 1, k as int) == k as int);
            }
            let m = ws_end_exec(s, k);
            proof {
                assert(at_least(k as int, ws_end(s@, k as int)) == m as int);
            }
            if m < s.len() && s[m] == 0x3a {
                let vp = ws_end_exec(s, m + 1);
                proof {
                    assert(at_least(m + 1, ws_end(s@, m + 1)) == vp as int);
                }
                match parse_value_exec(s, vp) {
                    None => None,
                    Some((v, e)) => {
                        proof {
                            assert(at_least(vp + 1, e as int) == e as int);
                        }
                        let p = ws_end_exec(s, e);
                        proof {
                            assert(at_least(e as int, ws_end(s@, e as int)) == p as int);
                        }
                        if p < s.len() && s[p] == 0x2c {
                            let n = ws_end_exec(s, p + 1);
                            proof {
                                assert(at_least(p + 1, ws_end(s@, p + 1)) == n as int);
                            }
                            match parse_fields_exec(s, n) {
                                None => None,
                                Some((rest, end)) => {
                                    let ghost rest0: Seq<(Vec<u8>, Json)> = rest@;
                                    let mut rest = rest;
                                    rest.insert(0, (key, v));
                                    proof {
                                        assert(rest@[0] == (key, v));
                                        assert(rest@.drop_first() =~= rest0);
                                        assert(fields_view(rest@) == seq![(key@, json_view(v))]
                                            + fields_view(rest0));
                                    }
                                    Some((rest, end))
                                },
                            }
                        } else if p < s.len() && s[p] == 0x7d {
                            let mut one: Vec<(Vec<u8>, Json)> = Vec::new();
                            one.push((key, v));
                            proof {
                                assert(one@.drop_first() =~= Seq::<(Vec<u8>, Json)>::empty());
                                assert(one@[0] == (key, v));
                                assert(fields_view(Seq::<(Vec<u8>, Json)>::empty())
                                    == Seq::<(Seq<u8>, JsonV)>::empty());
                                assert(fields_view(one@) =~= seq![(key@, json_view(v))]);
                            }
                            Some((one, p + 1))
                        } else {
                            None
                        }
                    },
                }
            } else {
                None
            }
        },
    }
}

/// Parse a whole JSON text frame.
///
/// Returns exactly what the specification parser `json_parse` denotes:
/// `Some` with the parsed value on a well-formed frame, `None` on
/// anything else.
pub fn parse_json(s: &[u8]) -> (r: Option<Json>)
    ensures
        r is None ==> json_parse(s@) is None,
        r is Some ==> json_parse(s@) == Some(json_view(r->Some_0)),
{
    let start = ws_end_exec(s, 0);
    proof {
        assert(at_least(0, ws_end(s@, 0)) == start as int);
    }
    match parse_value_exec(s, start) {
        None => None,
        Some((v, k)) => {
            let e = ws_end_exec(s, k);
            proof {
                assert(at_least(k as int, ws_end(s@, k as int)) == e as int);
            }
            if e == s.len() {
                Some(v)
            } else {
                None
            }
        },
    }
}

} // verus!
