//! The JSON values the wire protocol is built from, and their canonical
//! text encoding.
//!
//! The protocol exchanges JSON text frames. This module gives the library
//! its own JSON value type (`Json`), a mathematical model of it (`JsonV`),
//! and a verified encoder producing the canonical text: no insignificant
//! whitespace, strings with `\"` and `\\` as the only escapes, and
//! integers in decimal. The matching parser lives in `json_parser`.

use vstd::prelude::*;

verus! {

broadcast use vstd::std_specs::vec::group_vec_axioms;

/// Mathematical model of a JSON value: null, booleans, integers,
/// byte strings, arrays, and objects with ordered fields.
///
/// Strings and object keys are byte sequences (the UTF-8 bytes of the
/// text). Numbers are integers: the protocol never carries fractions.
pub enum JsonV {
    Null,
    Bool(bool),
    Int(int),
    Str(Seq<u8>),
    Arr(Seq<JsonV>),
    Obj(Seq<(Seq<u8>, JsonV)>),
}

/// Executable JSON value; `json_view` maps it to its model `JsonV`.
#[derive(Debug)]
pub enum Json {
    Null,
    Bool(bool),
    Int(i64),
    Str(Vec<u8>),
    Arr(Vec<Json>),
    Obj(Vec<(Vec<u8>, Json)>),
}

pub open spec fn json_view(j: Json) -> JsonV
    decreases j,
{
    match j {
        Json::Null => JsonV::Null,
        Json::Bool(b) => JsonV::Bool(b),
        Json::Int(i) => JsonV::Int(i as int),
        Json::Str(s) => JsonV::Str(s@),
        Json::Arr(a) => JsonV::Arr(jsons_view(a@)),
        Json::Obj(o) => JsonV::Obj(fields_view(o@)),
    }
}

pub open spec fn jsons_view(s: Seq<Json>) -> Seq<JsonV>
    decreases s,
{
    if s.len() == 0 {
        Seq::empty()
    } else {
        seq![json_view(s[0])] + jsons_view(s.drop_first())
    }
}

pub open spec fn fields_view(s: Seq<(Vec<u8>, Json)>) -> Seq<(Seq<u8>, JsonV)>
    decreases s,
{
    if s.len() == 0 {
        Seq::empty()
    } else {
        seq![(s[0].0@, json_view(s[0].1))] + fields_view(s.drop_first())
    }
}

impl View for Json {
    type V = JsonV;

    open spec fn view(&self) -> JsonV {
        json_view(*self)
    }
}

pub proof fn lemma_jsons_view(s: Seq<Json>)
    ensures
        jsons_view(s).len() == s.len(),
        forall|i: int| 0 <= i < s.len() ==> jsons_view(s)[i] == json_view(s[i]),
    decreases s,
{
    if s.len() > 0 {
        lemma_jsons_view(s.drop_first());
    }
}

pub proof fn lemma_fields_view(s: Seq<(Vec<u8>, Json)>)
    ensures
        fields_view(s).len() == s.len(),
        forall|i: int|
            0 <= i < s.len() ==> fields_view(s)[i] == (s[i].0@, json_view(s[i].1)),
    decreases s,
{
    if s.len() > 0 {
        lemma_fields_view(s.drop_first());
    }
}

// ---------------------------------------------------------------------
// Byte classes and well-formedness
// ---------------------------------------------------------------------

/// JSON insignificant whitespace: space, tab, line feed, carriage return.
pub open spec fn is_ws(b: u8) -> bool {
    b == 0x20 || b == 0x09 || b == 0x0a || b == 0x0d
}

pub open spec fn is_digit(b: u8) -> bool {
    0x30 <= b <= 0x39
}

/// A string the canonical encoding can represent: no control bytes.
/// (Quotes and backslashes are escaped; control bytes would need the
/// `\u` escapes, which the codec does not use.)
pub open spec fn wf_str(s: Seq<u8>) -> bool {
    forall|k: int| 0 <= k < s.len() ==> #[trigger] s[k] >= 0x20
}

/// A value the codec can round-trip: integers fit in an `i64`, every
/// string is free of control bytes.
pub open spec fn wf_json(v: JsonV) -> bool
    decreases v,
{
    match v {
        JsonV::Null => true,
        JsonV::Bool(_) => true,
        JsonV::Int(i) => i64::MIN <= i <= i64::MAX,
        JsonV::Str(s) => wf_str(s),
        JsonV::Arr(a) => forall|k: int| 0 <= k < a.len() ==> wf_json(#[trigger] a[k]),
        JsonV::Obj(o) => forall|k: int|
            0 <= k < o.len() ==> wf_str((#[trigger] o[k]).0) && wf_json(o[k].1),
    }
}

// ---------------------------------------------------------------------
// The canonical encoding
// ---------------------------------------------------------------------

/// Decimal digits of `n`, most significant first.
pub open spec fn dec_digits(n: nat) -> Seq<u8>
    decreases n,
{
    if n < 10 {
        seq![(0x30 + n) as u8]
    } else {
        dec_digits(n / 10).push((0x30 + n % 10) as u8)
    }
}

/// Canonical text of an integer: a minus sign for negatives, then
/// decimal digits without leading zeros.
pub open spec fn enc_int(i: int) -> Seq<u8> {
    if i < 0 {
        seq![0x2du8] + dec_digits((-i) as nat)
    } else {
        dec_digits(i as nat)
    }
}

/// How one string byte appears on the wire: `"` and `\` get a backslash.
pub open spec fn esc(b: u8) -> Seq<u8> {
    if b == 0x22 || b == 0x5c {
        seq![0x5cu8, b]
    } else {
        seq![b]
    }
}

pub open spec fn enc_str_body(s: Seq<u8>) -> Seq<u8>
    decreases s.len(),
{
    if s.len() == 0 {
        Seq::empty()
    } else {
        esc(s[0]) + enc_str_body(s.drop_first())
    }
}

/// A string: quote, escaped bytes, quote.
pub open spec fn enc_str(s: Seq<u8>) -> Seq<u8> {
    seq![0x22u8] + enc_str_body(s) + seq![0x22u8]
}

/// Canonical text of a value: no whitespace, fields and elements in
/// their given order.
pub open spec fn enc_json(v: JsonV) -> Seq<u8>
    decreases v,
{
    match v {
        JsonV::Null => seq![0x6eu8, 0x75u8, 0x6cu8, 0x6cu8],
        JsonV::Bool(b) => if b {
            seq![0x74u8, 0x72u8, 0x75u8, 0x65u8]
        } else {
            seq![0x66u8, 0x61u8, 0x6cu8, 0x73u8, 0x65u8]
        },
        JsonV::Int(i) => enc_int(i),
        JsonV::Str(s) => enc_str(s),
        JsonV::Arr(a) => seq![0x5bu8] + enc_elems(a) + seq![0x5du8],
        JsonV::Obj(o) => seq![0x7bu8] + enc_fields(o) + seq![0x7du8],
    }
}

pub open spec fn enc_elems(a: Seq<JsonV>) -> Seq<u8>
    decreases a,
{
    if a.len() == 0 {
        Seq::empty()
    } else {
        enc_json(a[0]) + enc_more_elems(a.drop_first())
    }
}

pub open spec fn enc_more_elems(a: Seq<JsonV>) -> Seq<u8>
    decreases a,
{
    if a.len() == 0 {
        Seq::empty()
    } else {
        seq![0x2cu8] + enc_json(a[0]) + enc_more_elems(a.drop_first())
    }
}

pub open spec fn enc_field(f: (Seq<u8>, JsonV)) -> Seq<u8>
    decreases f,
{
    enc_str(f.0) + seq![0x3au8] + enc_json(f.1)
}

pub open spec fn enc_fields(o: Seq<(Seq<u8>, JsonV)>) -> Seq<u8>
    decreases o,
{
    if o.len() == 0 {
        Seq::empty()
    } else {
        enc_field(o[0]) + enc_more_fields(o.drop_first())
    }
}

pub open spec fn enc_more_fields(o: Seq<(Seq<u8>, JsonV)>) -> Seq<u8>
    decreases o,
{
    if o.len() == 0 {
        Seq::empty()
    } else {
        seq![0x2cu8] + enc_field(o[0]) + enc_more_fields(o.drop_first())
    }
}

// ---------------------------------------------------------------------
// The verified encoder
// ---------------------------------------------------------------------

/// Decimal digits of `n`, most significant first, appended to `out`.
pub fn write_u64(n: u64, out: &mut Vec<u8>)
    ensures
        final(out)@ == old(out)@ + dec_digits(n as nat),
{
    let ghost n0: nat = n as nat;
    let mut tmp: Vec<u8> = Vec::new();
    let mut m: u64 = n;
    while m >= 10
        invariant
            dec_digits(n0) == dec_digits(m as nat) + tmp@.reverse(),
        decreases m,
    {
        let d: u8 = (0x30 + (m % 10)) as u8;
        proof {
            assert((tmp@.push(d)).reverse() =~= seq![d] + tmp@.reverse());
            assert(dec_digits(m as nat) == dec_digits((m as nat) / 10).push(d));
            assert(dec_digits((m as nat) / 10).push(d) =~= dec_digits((m as nat) / 10)
                + seq![d]);
            assert((m / 10) as nat == (m as nat) / 10);
            assert(dec_digits((m as nat) / 10) + (seq![d] + tmp@.reverse()) =~= (dec_digits(
                (m as nat) / 10,
            ) + seq![d]) + tmp@.reverse());
        }
        tmp.push(d);
        m = m / 10;
    }
    let d: u8 = (0x30 + m) as u8;
    proof {
        assert((tmp@.push(d)).reverse() =~= seq![d] + tmp@.reverse());
        assert(dec_digits(m as nat) == seq![d]);
    }
    tmp.push(d);
    proof {
        assert(dec_digits(n0) == tmp@.reverse());
        assert(tmp@.reverse().len() == tmp@.len());
    }
    let ghost base: Seq<u8> = out@;
    let mut k: usize = 0;
    while k < tmp.len()
        invariant
            k <= tmp.len(),
            dec_digits(n0) == tmp@.reverse(),
            out@ == base + tmp@.reverse().take(k as int),
        decreases tmp.len() - k,
    {
        let b = tmp[tmp.len() - 1 - k];
        proof {
            assert(tmp@.reverse()[k as int] == tmp@[tmp@.len() - 1 - k]);
            assert(tmp@.reverse().take(k + 1) =~= tmp@.reverse().take(k as int).push(
                tmp@.reverse()[k as int]));
            assert(out@.push(b) =~= base + tmp@.reverse().take(k + 1));
        }
        out.push(b);
        k = k + 1;
    }
    proof {
        assert(tmp@.reverse().take(tmp@.len() as int) =~= tmp@.reverse());
    }
}

/// Canonical text of `i`, appended to `out`.
pub fn write_i64(i: i64, out: &mut Vec<u8>)
    ensures
        final(out)@ == old(out)@ + enc_int(i as int),
{
    if i < 0 {
        out.push(0x2d);
        let n: u64 = ((-(i + 1)) as u64) + 1;
        proof {
            assert(n as nat == (-(i as int)) as nat);
        }
        write_u64(n, out);
        proof {
            assert(old(out)@.push(0x2du8) + dec_digits(n as nat) =~= old(out)@ + (
            seq![0x2du8] + dec_digits(n as nat)));
        }
    } else {
        write_u64(i as u64, out);
    }
}

/// A string with its quotes and escapes, appended to `out`.
fn write_str(s: &[u8], out: &mut Vec<u8>)
    ensures
        final(out)@ == old(out)@ + enc_str(s@),
{
    let ghost base: Seq<u8> = out@;
    out.push(0x22);
    proof {
        assert(s@.skip(0) =~= s@);
        assert(out@ + enc_str_body(s@) + seq![0x22u8] =~= base + enc_str(s@));
    }
    let mut i: usize = 0;
    while i < s.len()
        invariant
            i <= s.len(),
            out@ + enc_str_body(s@.skip(i as int)) + seq![0x22u8] == base + enc_str(s@),
        decreases s.len() - i,
    {
        let b = s[i];
        proof {
            assert(s@.skip(i as int)[0] == s@[i as int]);
            assert(s@.skip(i as int).drop_first() =~= s@.skip(i + 1));
            assert(enc_str_body(s@.skip(i as int)) == esc(b) + enc_str_body(s@.skip(i + 1)));
        }
        if b == 0x22 || b == 0x5c {
            out.push(0x5c);
            out.push(b);
            proof {
                assert(out@ + enc_str_body(s@.skip(i + 1)) + seq![0x22u8] =~= base + enc_str(
                s@));
            }
        } else {
            out.push(b);
            proof {
                assert(out@ + enc_str_body(s@.skip(i + 1)) + seq![0x22u8] =~= base + enc_str(
                s@));
            }
        }
        i = i + 1;
    }
    proof {
        assert(s@.skip(s@.len() as int) =~= Seq::<u8>::empty());
        assert(enc_str_body(Seq::<u8>::empty()) == Seq::<u8>::empty());
    }
    out.push(0x22);
    proof {
        assert(out@ =~= base + enc_str(s@));
    }
}

/// Canonical text of `v`, appended to `out`.
#[verifier::rlimit(50)]
#[verifier::loop_isolation(false)]
fn write_json(v: &Json, out: &mut Vec<u8>)
    ensures
        final(out)@ == old(out)@ + enc_json(json_view(*v)),
    decreases *v,
{
    let ghost base: Seq<u8> = out@;
    match v {
        Json::Null => {
            out.push(0x6e);
            out.push(0x75);
            out.push(0x6c);
            out.push(0x6c);
            proof {
                assert(out@ =~= base + enc_json(JsonV::Null));
            }
        },
        Json::Bool(b) => {
            if *b {
                out.push(0x74);
                out.push(0x72);
                out.push(0x75);
                out.push(0x65);
            } else {
                out.push(0x66);
                out.push(0x61);
                out.push(0x6c);
                out.push(0x73);
                out.push(0x65);
            }
            proof {
                assert(out@ =~= base + enc_json(JsonV::Bool(*b)));
            }
        },
        Json::Int(i) => {
            write_i64(*i, out);
        },
        Json::Str(s) => {
            write_str(s.as_slice(), out);
        },
        Json::Arr(a) => {
            let ghost av: Seq<JsonV> = jsons_view(a@);
            proof {
                lemma_jsons_view(a@);
            }
            out.push(0x5b);
            let n = a.len();
            if n > 0 {
                proof {
                    assert(decreases_to!(a@ => a@[0]));
                }
                write_json(&a[0], out);
            }
            let ghost mid: Seq<u8> = out@;
            proof {
                if n > 0 {
                    assert(mid =~= base + seq![0x5bu8] + enc_json(av[0]));
                } else {
                    assert(mid =~= base + seq![0x5bu8]);
                }
            }
            let mut i: usize = 1;
            while i < n
                invariant
                    1 <= i,
                    n == 0 ==> i == 1,
                    n > 0 ==> i <= n,
                    n == a.len(),
                    av == jsons_view(a@),
                    av.len() == n,
                    forall|q: int| 0 <= q < n ==> av[q] == json_view(a@[q]),
                    out@ == mid + more_elems_upto(av, i as int),
                    n > 0 ==> mid == base + seq![0x5bu8] + enc_json(av[0]),
                decreases n - i,
            {
                out.push(0x2c);
                proof {
                    assert(decreases_to!(a@ => a@[i as int]));
                }
                write_json(&a[i], out);
                proof {
                    assert(out@ =~= mid + more_elems_upto(av, i + 1));
                }
                i = i + 1;
            }
            out.push(0x5d);
            proof {
                if n == 0 {
                    assert(enc_elems(av) == Seq::<u8>::empty());
                    assert(more_elems_upto(av, 1) == Seq::<u8>::empty());
                    assert(out@ =~= base + enc_json(JsonV::Arr(av)));
                } else {
                    lemma_more_elems_whole(av);
                    assert(out@ =~= base + enc_json(JsonV::Arr(av)));
                }
            }
        },
        Json::Obj(o) => {
            let ghost ov: Seq<(Seq<u8>, JsonV)> = fields_view(o@);
            proof {
                lemma_fields_view(o@);
            }
            out.push(0x7b);
            let n = o.len();
            if n > 0 {
                write_str(o[0].0.as_slice(), out);
                out.push(0x3a);
                proof {
                    assert(decreases_to!(o@ => o@[0]));
                }
                write_json(&o[0].1, out);
            }
            let ghost mid: Seq<u8> = out@;
            proof {
                if n > 0 {
                    assert(mid =~= base + seq![0x7bu8] + enc_field(ov[0]));
                } else {
                    assert(mid =~= base + seq![0x7bu8]);
                }
            }
            let mut i: usize = 1;
            while i < n
                invariant
                    1 <= i,
                    n == 0 ==> i == 1,
                    n > 0 ==> i <= n,
                    n == o.len(),
                    ov == fields_view(o@),
                    ov.len() == n,
                    forall|q: int| 0 <= q < n ==> ov[q] == (o@[q].0@, json_view(o@[q].1)),
                    out@ == mid + more_fields_upto(ov, i as int),
                    n > 0 ==> mid == base + seq![0x7bu8] + enc_field(ov[0]),
                decreases n - i,
            {
                out.push(0x2c);
                write_str(o[i].0.as_slice(), out);
                out.push(0x3a);
                proof {
                    assert(decreases_to!(o@ => o@[i as int]));
                }
                write_json(&o[i].1, out);
                proof {
                    assert(out@ =~= mid + more_fields_upto(ov, i + 1));
                }
                i = i + 1;
            }
            out.push(0x7d);
            proof {
                if n == 0 {
                    assert(enc_fields(ov) == Seq::<u8>::empty());
                    assert(more_fields_upto(ov, 1) == Seq::<u8>::empty());
                    assert(out@ =~= base + enc_json(JsonV::Obj(ov)));
                } else {
                    lemma_more_fields_whole(ov);
                    assert(out@ =~= base + enc_json(JsonV::Obj(ov)));
                }
            }
        },
    }
}

/// The encoding of elements `1 .. i` of `a`, each preceded by a comma.
pub open spec fn more_elems_upto(a: Seq<JsonV>, i: int) -> Seq<u8>
    decreases i,
{
    if i <= 1 {
        Seq::empty()
    } else {
        more_elems_upto(a, i - 1) + seq![0x2cu8] + enc_json(a[i - 1])
    }
}

/// Prefix-form and recursive-form element encodings agree.
proof fn lemma_more_elems_align(a: Seq<JsonV>, i: int)
    requires
        1 <= i <= a.len(),
    ensures
        more_elems_upto(a, i) + enc_more_elems(a.skip(i)) == enc_more_elems(a.skip(1)),
    decreases i,
{
    if i == 1 {
        assert(more_elems_upto(a, 1) + enc_more_elems(a.skip(1)) =~= enc_more_elems(a.skip(1)));
    } else {
        lemma_more_elems_align(a, i - 1);
        assert(a.skip(i - 1)[0] == a[i - 1]);
        assert(a.skip(i - 1).drop_first() =~= a.skip(i));
        assert(enc_more_elems(a.skip(i - 1)) == seq![0x2cu8] + enc_json(a[i - 1])
            + enc_more_elems(a.skip(i)));
        assert(more_elems_upto(a, i) + enc_more_elems(a.skip(i)) =~= more_elems_upto(a, i - 1)
            + enc_more_elems(a.skip(i - 1)));
    }
}

proof fn lemma_more_elems_whole(a: Seq<JsonV>)
    requires
        a.len() >= 1,
    ensures
        enc_json(a[0]) + more_elems_upto(a, a.len() as int) == enc_elems(a),
{
    lemma_more_elems_align(a, a.len() as int);
    assert(a.skip(a.len() as int) =~= Seq::<JsonV>::empty());
    assert(enc_more_elems(a.skip(a.len() as int)) == Seq::<u8>::empty());
    assert(more_elems_upto(a, a.len() as int) + enc_more_elems(a.skip(a.len() as int))
        =~= more_elems_upto(a, a.len() as int));
    assert(a.skip(1) =~= a.drop_first());
    assert(enc_elems(a) == enc_json(a[0]) + enc_more_elems(a.drop_first()));
    assert(enc_json(a[0]) + more_elems_upto(a, a.len() as int) =~= enc_elems(a));
}

/// The encoding of fields `1 .. i` of `o`, each preceded by a comma.
pub open spec fn more_fields_upto(o: Seq<(Seq<u8>, JsonV)>, i: int) -> Seq<u8>
    decreases i,
{
    if i <= 1 {
        Seq::empty()
    } else {
        more_fields_upto(o, i - 1) + seq![0x2cu8] + enc_field(o[i - 1])
    }
}

proof fn lemma_more_fields_align(o: Seq<(Seq<u8>, JsonV)>, i: int)
    requires
        1 <= i <= o.len(),
    ensures
        more_fields_upto(o, i) + enc_more_fields(o.skip(i)) == enc_more_fields(o.skip(1)),
    decreases i,
{
    if i == 1 {
        assert(more_fields_upto(o, 1) + enc_more_fields(o.skip(1)) =~= enc_more_fields(
            o.skip(1),
        ));
    } else {
        lemma_more_fields_align(o, i - 1);
        assert(o.skip(i - 1)[0] == o[i - 1]);
        assert(o.skip(i - 1).drop_first() =~= o.skip(i));
        assert(enc_more_fields(o.skip(i - 1)) == seq![0x2cu8] + enc_field(o[i - 1])
            + enc_more_fields(o.skip(i)));
        assert(more_fields_upto(o, i) + enc_more_fields(o.skip(i)) =~= more_fields_upto(
            o,
            i - 1,
        ) + enc_more_fields(o.skip(i - 1)));
    }
}

proof fn lemma_more_fields_whole(o: Seq<(Seq<u8>, JsonV)>)
    requires
        o.len() >= 1,
    ensures
        enc_field(o[0]) + more_fields_upto(o, o.len() as int) == enc_fields(o),
{
    lemma_more_fields_align(o, o.len() as int);
    assert(o.skip(o.len() as int) =~= Seq::<(Seq<u8>, JsonV)>::empty());
    assert(enc_more_fields(o.skip(o.len() as int)) == Seq::<u8>::empty());
    assert(more_fields_upto(o, o.len() as int) + enc_more_fields(o.skip(o.len() as int))
        =~= more_fields_upto(o, o.len() as int));
    assert(o.skip(1) =~= o.drop_first());
    assert(enc_fields(o) == enc_field(o[0]) + enc_more_fields(o.drop_first()));
    assert(enc_field(o[0]) + more_fields_upto(o, o.len() as int) =~= enc_fields(o));
}

/// The canonical JSON text of `v`.
pub fn encode_json(v: &Json) -> (out: Vec<u8>)
    ensures
        out@ == enc_json(v@),
{
    let mut out: Vec<u8> = Vec::new();
    write_json(v, &mut out);
    proof {
        assert(out@ =~= enc_json(json_view(*v)));
    }
    out
}

} // verus!
