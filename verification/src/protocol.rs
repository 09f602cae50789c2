//! The versioned JSON envelope of the wire protocol.
//!
//! Every frame is a JSON object `{version, type, id, correlationId?,
//! payload}`. This module gives the envelope type, its canonical
//! encoding, and the decoder with its exact error contract:
//! `MalformedEnvelope` when the text is not a JSON object with the
//! required fields, `UnknownMessageType` when the `type` field holds an
//! unknown wire string.

use vstd::prelude::*;

use crate::json::{
    enc_json, fields_view, json_view, jsons_view, lemma_fields_view, lemma_jsons_view, wf_json,
    wf_str, Json, JsonV,
};
use crate::json_parser::{json_parse, parse_json};
use crate::PROTOCOL_VERSION;

verus! {

broadcast use vstd::std_specs::vec::group_vec_axioms;

/// The message types of the protocol, with their literal wire strings
/// `gm.command`, `gm.reply`, `event.state` and `event.log`.
#[derive(Clone, Copy, PartialEq, Eq, Structural, Debug)]
pub enum MessageType {
    GmCommand,
    GmReply,
    EventState,
    EventLog,
}

pub open spec fn wire_gm_command() -> Seq<u8> {
    seq![0x67u8, 0x6du8, 0x2eu8, 0x63u8, 0x6fu8, 0x6du8, 0x6du8, 0x61u8, 0x6eu8, 0x64u8]
}

pub open spec fn wire_gm_reply() -> Seq<u8> {
    seq![0x67u8, 0x6du8, 0x2eu8, 0x72u8, 0x65u8, 0x70u8, 0x6cu8, 0x79u8]
}

pub open spec fn wire_event_state() -> Seq<u8> {
    seq![0x65u8, 0x76u8, 0x65u8, 0x6eu8, 0x74u8, 0x2eu8, 0x73u8, 0x74u8, 0x61u8, 0x74u8, 0x65u8]
}

pub open spec fn wire_event_log() -> Seq<u8> {
    seq![0x65u8, 0x76u8, 0x65u8, 0x6eu8, 0x74u8, 0x2eu8, 0x6cu8, 0x6fu8, 0x67u8]
}

/// The wire string of each message type.
pub open spec fn wire_name_spec(t: MessageType) -> Seq<u8> {
    match t {
        MessageType::GmCommand => wire_gm_command(),
        MessageType::GmReply => wire_gm_reply(),
        MessageType::EventState => wire_event_state(),
        MessageType::EventLog => wire_event_log(),
    }
}

/// The message type a wire string denotes, if any.
pub open spec fn wire_to_type(s: Seq<u8>) -> Option<MessageType> {
    if s == wire_gm_command() {
        Some(MessageType::GmCommand)
    } else if s == wire_gm_reply() {
        Some(MessageType::GmReply)
    } else if s == wire_event_state() {
        Some(MessageType::EventState)
    } else if s == wire_event_log() {
        Some(MessageType::EventLog)
    } else {
        None
    }
}

/// The four wire strings denote their own message types: the mapping
/// between message types and wire strings round-trips.
pub proof fn lemma_wire_name_round_trip(t: MessageType)
    ensures
        wire_to_type(wire_name_spec(t)) == Some(t),
{
    assert(wire_gm_command().len() == 10);
    assert(wire_gm_reply().len() == 8);
    assert(wire_event_state().len() == 11);
    assert(wire_event_log().len() == 9);
}

impl MessageType {
    /// The literal wire string of this message type.
    pub fn wire_name(&self) -> (r: Vec<u8>)
        ensures
            r@ == wire_name_spec(*self),
    {
        let mut r: Vec<u8> = Vec::new();
        match self {
            MessageType::GmCommand => {
                r.push(0x67);
                r.push(0x6d);
                r.push(0x2e);
                r.push(0x63);
                r.push(0x6f);
                r.push(0x6d);
                r.push(0x6d);
                r.push(0x61);
                r.push(0x6e);
                r.push(0x64);
                proof {
                    assert(r@ =~= wire_gm_command());
                }
            },
            MessageType::GmReply => {
                r.push(0x67);
                r.push(0x6d);
                r.push(0x2e);
                r.push(0x72);
                r.push(0x65);
                r.push(0x70);
                r.push(0x6c);
                r.push(0x79);
                proof {
                    assert(r@ =~= wire_gm_reply());
                }
            },
            MessageType::EventState => {
                r.push(0x65);
                r.push(0x76);
                r.push(0x65);
                r.push(0x6e);
                r.push(0x74);
                r.push(0x2e);
                r.push(0x73);
                r.push(0x74);
                r.push(0x61);
                r.push(0x74);
                r.push(0x65);
                proof {
                    assert(r@ =~= wire_event_state());
                }
            },
            MessageType::EventLog => {
                r.push(0x65);
                r.push(0x76);
                r.push(0x65);
                r.push(0x6e);
                r.push(0x74);
                r.push(0x2e);
                r.push(0x6c);
                r.push(0x6f);
                r.push(0x67);
                proof {
                    assert(r@ =~= wire_event_log());
                }
            },
        }
        r
    }

    /// The message type a wire string denotes, if any.
    pub fn from_wire(s: &[u8]) -> (r: Option<MessageType>)
        ensures
            r == wire_to_type(s@),
    {
        let gm_command = MessageType::GmCommand.wire_name();
        let gm_reply = MessageType::GmReply.wire_name();
        let event_state = MessageType::EventState.wire_name();
        let event_log = MessageType::EventLog.wire_name();
        if bytes_eq(s, gm_command.as_slice()) {
            Some(MessageType::GmCommand)
        } else if bytes_eq(s, gm_reply.as_slice()) {
            Some(MessageType::GmReply)
        } else if bytes_eq(s, event_state.as_slice()) {
            Some(MessageType::EventState)
        } else if bytes_eq(s, event_log.as_slice()) {
            Some(MessageType::EventLog)
        } else {
            None
        }
    }
}

/// Whether two byte texts hold the same bytes.
pub fn bytes_eq(a: &[u8], b: &[u8]) -> (r: bool)
    ensures
        r == (a@ == b@),
{
    if a.len() != b.len() {
        proof {
            assert(a@ != b@);
        }
        return false;
    }
    let mut i: usize = 0;
    while i < a.len()
        invariant
            i <= a.len(),
            a@.len() == b@.len(),
            forall|q: int| 0 <= q < i ==> a@[q] == b@[q],
        decreases a.len() - i,
    {
        if a[i] != b[i] {
            proof {
                assert(a@ != b@);
            }
            return false;
        }
        i = i + 1;
    }
    proof {
        assert(a@ =~= b@);
    }
    true
}

// ---------------------------------------------------------------------
// Field names of the envelope object
// ---------------------------------------------------------------------

pub open spec fn key_version() -> Seq<u8> {
    seq![0x76u8, 0x65u8, 0x72u8, 0x73u8, 0x69u8, 0x6fu8, 0x6eu8]
}

pub open spec fn key_type() -> Seq<u8> {
    seq![0x74u8, 0x79u8, 0x70u8, 0x65u8]
}

pub open spec fn key_id() -> Seq<u8> {
    seq![0x69u8, 0x64u8]
}

pub open spec fn key_correlation_id() -> Seq<u8> {
    seq![
        0x63u8,
        0x6fu8,
        0x72u8,
        0x72u8,
        0x65u8,
        0x6cu8,
        0x61u8,
        0x74u8,
        0x69u8,
        0x6fu8,
        0x6eu8,
        0x49u8,
        0x64u8,
    ]
}

pub open spec fn key_payload() -> Seq<u8> {
    seq![0x70u8, 0x61u8, 0x79u8, 0x6cu8, 0x6fu8, 0x61u8, 0x64u8]
}

fn key_version_exec() -> (r: Vec<u8>)
    ensures
        r@ == key_version(),
{
    let mut r: Vec<u8> = Vec::new();
    r.push(0x76);
    r.push(0x65);
    r.push(0x72);
    r.push(0x73);
    r.push(0x69);
    r.push(0x6f);
    r.push(0x6e);
    proof {
        assert(r@ =~= key_version());
    }
    r
}

fn key_type_exec() -> (r: Vec<u8>)
    ensures
        r@ == key_type(),
{
    let mut r: Vec<u8> = Vec::new();
    r.push(0x74);
    r.push(0x79);
    r.push(0x70);
    r.push(0x65);
    proof {
        assert(r@ =~= key_type());
    }
    r
}

fn key_id_exec() -> (r: Vec<u8>)
    ensures
        r@ == key_id(),
{
    let mut r: Vec<u8> = Vec::new();
    r.push(0x69);
    r.push(0x64);
    proof {
        assert(r@ =~= key_id());
    }
    r
}

fn key_correlation_id_exec() -> (r: Vec<u8>)
    ensures
        r@ == key_correlation_id(),
{
    let mut r: Vec<u8> = Vec::new();
    r.push(0x63);
    r.push(0x6f);
    r.push(0x72);
    r.push(0x72);
    r.push(0x65);
    r.push(0x6c);
    r.push(0x61);
    r.push(0x74);
    r.push(0x69);
    r.push(0x6f);
    r.push(0x6e);
    r.push(0x49);
    r.push(0x64);
    proof {
        assert(r@ =~= key_correlation_id());
    }
    r
}

fn key_payload_exec() -> (r: Vec<u8>)
    ensures
        r@ == key_payload(),
{
    let mut r: Vec<u8> = Vec::new();
    r.push(0x70);
    r.push(0x61);
    r.push(0x79);
    r.push(0x6c);
    r.push(0x6f);
    r.push(0x61);
    r.push(0x64);
    proof {
        assert(r@ =~= key_payload());
    }
    r
}

// ---------------------------------------------------------------------
// The envelope
// ---------------------------------------------------------------------

/// Mathematical model of an envelope.
pub struct EnvelopeV {
    pub version: u32,
    pub message_type: MessageType,
    pub id: Seq<u8>,
    pub correlation_id: Option<Seq<u8>>,
    pub payload: JsonV,
}

/// Versioned JSON envelope for communication: protocol version, message
/// type, unique message id, optional correlation id pairing a reply to
/// its request, and the payload.
#[derive(Debug)]
pub struct Envelope {
    pub version: u32,
    pub message_type: MessageType,
    pub id: Vec<u8>,
    pub correlation_id: Option<Vec<u8>>,
    pub payload: Json,
}

impl View for Envelope {
    type V = EnvelopeV;

    open spec fn view(&self) -> EnvelopeV {
        EnvelopeV {
            version: self.version,
            message_type: self.message_type,
            id: self.id@,
            correlation_id: match self.correlation_id {
                Some(c) => Some(c@),
                None => None,
            },
            payload: json_view(self.payload),
        }
    }
}

/// An envelope the codec can round-trip: id, correlation id and payload
/// strings free of control bytes.
pub open spec fn wf_envelope(e: EnvelopeV) -> bool {
    &&& wf_str(e.id)
    &&& match e.correlation_id {
        Some(c) => wf_str(c),
        None => true,
    }
    &&& wf_json(e.payload)
}

/// The JSON object an envelope encodes to: `version`, `type`, `id`,
/// `correlationId` (omitted when absent), `payload`, in that order.
pub open spec fn env_to_json(e: EnvelopeV) -> JsonV {
    JsonV::Obj(
        match e.correlation_id {
            Some(c) => seq![
                (key_version(), JsonV::Int(e.version as int)),
                (key_type(), JsonV::Str(wire_name_spec(e.message_type))),
                (key_id(), JsonV::Str(e.id)),
                (key_correlation_id(), JsonV::Str(c)),
                (key_payload(), e.payload),
            ],
            None => seq![
                (key_version(), JsonV::Int(e.version as int)),
                (key_type(), JsonV::Str(wire_name_spec(e.message_type))),
                (key_id(), JsonV::Str(e.id)),
                (key_payload(), e.payload),
            ],
        },
    )
}

/// The canonical wire text of an envelope.
pub open spec fn enc_envelope(e: EnvelopeV) -> Seq<u8> {
    enc_json(env_to_json(e))
}

impl Envelope {
    /// Create a new envelope with the current protocol version and no
    /// correlation id.
    pub fn new(message_type: MessageType, id: Vec<u8>, payload: Json) -> (r: Envelope)
        ensures
            r@ == (EnvelopeV {
                version: PROTOCOL_VERSION,
                message_type,
                id: id@,
                correlation_id: None,
                payload: json_view(payload),
            }),
    {
        Envelope { version: PROTOCOL_VERSION, message_type, id, correlation_id: None, payload }
    }

    /// Create a new envelope with the current protocol version and the
    /// given correlation id.
    pub fn new_with_correlation(
        message_type: MessageType,
        id: Vec<u8>,
        correlation_id: Option<Vec<u8>>,
        payload: Json,
    ) -> (r: Envelope)
        ensures
            r@ == (EnvelopeV {
                version: PROTOCOL_VERSION,
                message_type,
                id: id@,
                correlation_id: match correlation_id {
                    Some(c) => Some(c@),
                    None => None,
                },
                payload: json_view(payload),
            }),
    {
        Envelope { version: PROTOCOL_VERSION, message_type, id, correlation_id, payload }
    }

    /// The canonical JSON text of this envelope, consuming it.
    pub fn encode(self) -> (r: Vec<u8>)
        ensures
            r@ == enc_envelope(self@),
    {
        let ghost ev: EnvelopeV = self@;
        let mut fields: Vec<(Vec<u8>, Json)> = Vec::new();
        fields.push((key_version_exec(), Json::Int(self.version as i64)));
        fields.push((key_type_exec(), Json::Str(self.message_type.wire_name())));
        fields.push((key_id_exec(), Json::Str(self.id)));
        match self.correlation_id {
            Some(c) => {
                fields.push((key_correlation_id_exec(), Json::Str(c)));
            },
            None => {},
        }
        fields.push((key_payload_exec(), self.payload));
        let obj = Json::Obj(fields);
        proof {
            lemma_fields_view((obj->Obj_0)@);
            assert(fields_view((obj->Obj_0)@) =~= (env_to_json(ev)->Obj_0));
            assert(json_view(obj) == env_to_json(ev));
        }
        crate::json::encode_json(&obj)
    }
}


// ---------------------------------------------------------------------
// Cloning JSON values
// ---------------------------------------------------------------------

/// A copy of a byte text.
pub fn clone_bytes(v: &[u8]) -> (r: Vec<u8>)
    ensures
        r@ == v@,
{
    let mut r: Vec<u8> = Vec::new();
    let mut i: usize = 0;
    while i < v.len()
        invariant
            i <= v@.len(),
            r@ == v@.take(i as int),
        decreases v@.len() - i,
    {
        proof {
            assert(v@.take(i + 1) =~= v@.take(i as int).push(v@[i as int]));
        }
        r.push(v[i]);
        i = i + 1;
    }
    proof {
        assert(v@.take(v@.len() as int) =~= v@);
    }
    r
}

/// A copy of a JSON value denoting the same model value.
#[verifier::loop_isolation(false)]
pub fn clone_json(v: &Json) -> (r: Json)
    ensures
        json_view(r) == json_view(*v),
    decreases *v,
{
    match v {
        Json::Null => Json::Null,
        Json::Bool(b) => Json::Bool(*b),
        Json::Int(i) => Json::Int(*i),
        Json::Str(s) => Json::Str(clone_bytes(s.as_slice())),
        Json::Arr(a) => {
            let mut out: Vec<Json> = Vec::new();
            let mut i: usize = 0;
            while i < a.len()
                invariant
                    i <= a@.len(),
                    out@.len() == i,
                    forall|q: int|
                        0 <= q < i ==> json_view(#[trigger] out@[q]) == json_view(a@[q]),
                decreases a@.len() - i,
            {
                proof {
                    assert(decreases_to!(a@ => a@[i as int]));
                }
                let c = clone_json(&a[i]);
                out.push(c);
                i = i + 1;
            }
            proof {
                lemma_jsons_view(out@);
                lemma_jsons_view(a@);
                assert(jsons_view(out@) =~= jsons_view(a@));
            }
            Json::Arr(out)
        },
        Json::Obj(o) => {
            let mut out: Vec<(Vec<u8>, Json)> = Vec::new();
            let mut i: usize = 0;
            while i < o.len()
                invariant
                    i <= o@.len(),
                    out@.len() == i,
                    forall|q: int|
                        0 <= q < i ==> (#[trigger] out@[q]).0@ == o@[q].0@ && json_view(
                            out@[q].1,
                        ) == json_view(o@[q].1),
                decreases o@.len() - i,
            {
                proof {
                    assert(decreases_to!(o@ => o@[i as int]));
                }
                let k = clone_bytes(o[i].0.as_slice());
                let c = clone_json(&o[i].1);
                out.push((k, c));
                i = i + 1;
            }
            proof {
                lemma_fields_view(out@);
                lemma_fields_view(o@);
                assert(fields_view(out@) =~= fields_view(o@));
            }
            Json::Obj(out)
        },
    }
}

// ---------------------------------------------------------------------
// Field lookup
// ---------------------------------------------------------------------

/// The value of the first field named `key`, if any. Duplicate keys are
/// resolved in favour of the first occurrence.
pub open spec fn lookup_field(o: Seq<(Seq<u8>, JsonV)>, key: Seq<u8>) -> Option<JsonV>
    decreases o.len(),
{
    if o.len() == 0 {
        None
    } else if o[0].0 == key {
        Some(o[0].1)
    } else {
        lookup_field(o.drop_first(), key)
    }
}

/// A copy of the value of the first field named `key`, if any.
fn lookup_json(o: &Vec<(Vec<u8>, Json)>, key: &[u8]) -> (r: Option<Json>)
    ensures
        r is None ==> lookup_field(fields_view(o@), key@) is None,
        r is Some ==> lookup_field(fields_view(o@), key@) == Some(json_view(r->Some_0)),
{
    let ghost fv: Seq<(Seq<u8>, JsonV)> = fields_view(o@);
    proof {
        lemma_fields_view(o@);
        assert(fv.skip(0) =~= fv);
    }
    let mut i: usize = 0;
    while i < o.len()
        invariant
            i <= o@.len(),
            fv == fields_view(o@),
            fv.len() == o@.len(),
            forall|q: int| 0 <= q < o@.len() ==> fv[q] == (o@[q].0@, json_view(o@[q].1)),
            lookup_field(fv, key@) == lookup_field(fv.skip(i as int), key@),
        decreases o@.len() - i,
    {
        proof {
            assert(fv.skip(i as int)[0] == fv[i as int]);
            assert(fv.skip(i as int).drop_first() =~= fv.skip(i + 1));
        }
        if bytes_eq(o[i].0.as_slice(), key) {
            let c = clone_json(&o[i].1);
            return Some(c);
        }
        i = i + 1;
    }
    proof {
        assert(fv.skip(o@.len() as int) =~= Seq::<(Seq<u8>, JsonV)>::empty());
    }
    None
}

// ---------------------------------------------------------------------
// Decoding
// ---------------------------------------------------------------------

/// Why a text frame was rejected: not this protocol's JSON object shape
/// at all, or an unknown `type` wire string.
#[derive(Clone, Copy, PartialEq, Eq, Structural, Debug)]
pub enum DecodeError {
    MalformedEnvelope,
    UnknownMessageType,
}

/// What decoding a text frame yields: the envelope of the frame, or the
/// exact error. `MalformedEnvelope` when the text is not valid JSON (in
/// the protocol's subset), not an object, misses one of `version`,
/// `type`, `id`, `payload`, or holds a field of the wrong shape;
/// `UnknownMessageType` when everything else is in place but the `type`
/// string is not one of the four known wire strings.
pub open spec fn spec_decode_envelope(s: Seq<u8>) -> Result<EnvelopeV, DecodeError> {
    match json_parse(s) {
        None => Err(DecodeError::MalformedEnvelope),
        Some(j) => match j {
            JsonV::Obj(o) => match lookup_field(o, key_version()) {
                Some(JsonV::Int(ver)) => if 0 <= ver <= u32::MAX {
                    match lookup_field(o, key_type()) {
                        Some(JsonV::Str(tw)) => match wire_to_type(tw) {
                            Some(mt) => match lookup_field(o, key_id()) {
                                Some(JsonV::Str(id)) => match lookup_field(
                                    o,
                                    key_correlation_id(),
                                ) {
                                    Some(JsonV::Str(c)) => match lookup_field(o, key_payload()) {
                                        Some(p) => Ok(
                                            EnvelopeV {
                                                version: ver as u32,
                                                message_type: mt,
                                                id: id,
                                                correlation_id: Some(c),
                                                payload: p,
                                            },
                                        ),
                                        None => Err(DecodeError::MalformedEnvelope),
                                    },
                                    None => match lookup_field(o, key_payload()) {
                                        Some(p) => Ok(
                                            EnvelopeV {
                                                version: ver as u32,
                                                message_type: mt,
                                                id: id,
                                                correlation_id: None,
                                                payload: p,
                                            },
                                        ),
                                        None => Err(DecodeError::MalformedEnvelope),
                                    },
                                    Some(_) => Err(DecodeError::MalformedEnvelope),
                                },
                                _ => Err(DecodeError::MalformedEnvelope),
                            },
                            None => Err(DecodeError::UnknownMessageType),
                        },
                        _ => Err(DecodeError::MalformedEnvelope),
                    }
                } else {
                    Err(DecodeError::MalformedEnvelope)
                },
                _ => Err(DecodeError::MalformedEnvelope),
            },
            _ => Err(DecodeError::MalformedEnvelope),
        },
    }
}

/// Decode a text frame into an envelope, or say exactly why not.
pub fn decode_envelope(text: &[u8]) -> (r: Result<Envelope, DecodeError>)
    ensures
        r is Ok ==> spec_decode_envelope(text@) == Ok::<EnvelopeV, DecodeError>(r->Ok_0@),
        r is Err ==> spec_decode_envelope(text@) == Err::<EnvelopeV, DecodeError>(r->Err_0),
{
    let parsed = parse_json(text);
    match parsed {
        None => Err(DecodeError::MalformedEnvelope),
        Some(j) => match j {
            Json::Obj(o) => {
                let kver = key_version_exec();
                let ver_field = lookup_json(&o, kver.as_slice());
                let ver: u32 = match ver_field {
                    Some(Json::Int(n)) => {
                        if 0 <= n && n <= u32::MAX as i64 {
                            n as u32
                        } else {
                            return Err(DecodeError::MalformedEnvelope);
                        }
                    },
                    _ => {
                        return Err(DecodeError::MalformedEnvelope);
                    },
                };
                let ktype = key_type_exec();
                let mt: MessageType = match lookup_json(&o, ktype.as_slice()) {
                    Some(Json::Str(tw)) => {
                        match MessageType::from_wire(tw.as_slice()) {
                            Some(mt) => mt,
                            None => {
                                return Err(DecodeError::UnknownMessageType);
                            },
                        }
                    },
                    _ => {
                        return Err(DecodeError::MalformedEnvelope);
                    },
                };
                let kid = key_id_exec();
                let id: Vec<u8> = match lookup_json(&o, kid.as_slice()) {
                    Some(Json::Str(id)) => id,
                    _ => {
                        return Err(DecodeError::MalformedEnvelope);
                    },
                };
                let kcorr = key_correlation_id_exec();
                let correlation_id: Option<Vec<u8>> = match lookup_json(&o, kcorr.as_slice()) {
                    Some(Json::Str(c)) => Some(c),
                    None => None,
                    Some(_) => {
                        return Err(DecodeError::MalformedEnvelope);
                    },
                };
                let kpay = key_payload_exec();
                let payload: Json = match lookup_json(&o, kpay.as_slice()) {
                    Some(p) => p,
                    None => {
                        return Err(DecodeError::MalformedEnvelope);
                    },
                };
                Ok(Envelope { version: ver, message_type: mt, id, correlation_id, payload })
            },
            _ => Err(DecodeError::MalformedEnvelope),
        },
    }
}


// ---------------------------------------------------------------------
// The envelope round-trip law
// ---------------------------------------------------------------------

/// Encoding then decoding an envelope reproduces its `version`, `type`,
/// `id`, `correlationId` and payload exactly.
pub proof fn lemma_envelope_round_trip(e: EnvelopeV)
    requires
        wf_envelope(e),
    ensures
        spec_decode_envelope(enc_envelope(e)) == Ok::<EnvelopeV, DecodeError>(e),
{
    let j = env_to_json(e);
    let o = j->Obj_0;
    assert(wf_str(key_version())) by {
        assert(forall|k: int| 0 <= k < 7 ==> key_version()[k] >= 0x20);
    }
    assert(wf_str(key_type()));
    assert(wf_str(key_id()));
    assert(wf_str(key_correlation_id()));
    assert(wf_str(key_payload()));
    assert(wf_str(wire_gm_command()));
    assert(wf_str(wire_gm_reply()));
    assert(wf_str(wire_event_state()));
    assert(wf_str(wire_event_log()));
    assert(wf_str(wire_name_spec(e.message_type)));
    assert(0 <= e.version as int <= u32::MAX);
    assert(wf_json(j)) by {
        assert(forall|k: int|
            0 <= k < o.len() ==> wf_str((#[trigger] o[k]).0) && wf_json(o[k].1));
    }
    crate::json_laws::lemma_json_round_trip(j);
    assert(json_parse(enc_envelope(e)) == Some(j));
    lemma_wire_name_round_trip(e.message_type);
    // The five keys are pairwise distinct: most differ in length, and
    // `version` and `payload` differ in their first byte.
    assert(key_version().len() == 7 && key_type().len() == 4 && key_id().len() == 2
        && key_correlation_id().len() == 13 && key_payload().len() == 7);
    assert(key_version()[0] == 0x76 && key_payload()[0] == 0x70);
    assert(key_version() != key_payload());
    match e.correlation_id {
        Some(c) => {
            let o1 = o.drop_first();
            let o2 = o1.drop_first();
            let o3 = o2.drop_first();
            let o4 = o3.drop_first();
            let o5 = o4.drop_first();
            assert(o1 =~= seq![
                (key_type(), JsonV::Str(wire_name_spec(e.message_type))),
                (key_id(), JsonV::Str(e.id)),
                (key_correlation_id(), JsonV::Str(c)),
                (key_payload(), e.payload),
            ]);
            assert(o2 =~= seq![
                (key_id(), JsonV::Str(e.id)),
                (key_correlation_id(), JsonV::Str(c)),
                (key_payload(), e.payload),
            ]);
            assert(o3 =~= seq![
                (key_correlation_id(), JsonV::Str(c)),
                (key_payload(), e.payload),
            ]);
            assert(o4 =~= seq![(key_payload(), e.payload)]);
            assert(o5 =~= Seq::<(Seq<u8>, JsonV)>::empty());
            let tw = JsonV::Str(wire_name_spec(e.message_type));
            assert(lookup_field(o, key_version()) == Some(
                JsonV::Int(e.version as int),
            ));
            assert(lookup_field(o1, key_type()) == Some(tw));
            assert(lookup_field(o, key_type()) == Some(tw));
            assert(lookup_field(o2, key_id()) == Some(JsonV::Str(e.id)));
            assert(lookup_field(o1, key_id()) == Some(JsonV::Str(e.id)));
            assert(lookup_field(o, key_id()) == Some(JsonV::Str(e.id)));
            assert(lookup_field(o3, key_correlation_id()) == Some(JsonV::Str(c)));
            assert(lookup_field(o2, key_correlation_id()) == Some(JsonV::Str(c)));
            assert(lookup_field(o1, key_correlation_id()) == Some(JsonV::Str(c)));
            assert(lookup_field(o, key_correlation_id()) == Some(JsonV::Str(c)));
            assert(lookup_field(o4, key_payload()) == Some(e.payload));
            assert(lookup_field(o3, key_payload()) == Some(e.payload));
            assert(lookup_field(o2, key_payload()) == Some(e.payload));
            assert(lookup_field(o1, key_payload()) == Some(e.payload));
            assert(lookup_field(o, key_payload()) == Some(e.payload));
        },
        None => {
            let o1 = o.drop_first();
            let o2 = o1.drop_first();
            let o3 = o2.drop_first();
            let o4 = o3.drop_first();
            assert(o1 =~= seq![
                (key_type(), JsonV::Str(wire_name_spec(e.message_type))),
                (key_id(), JsonV::Str(e.id)),
                (key_payload(), e.payload),
            ]);
            assert(o2 =~= seq![
                (key_id(), JsonV::Str(e.id)),
                (key_payload(), e.payload),
            ]);
            assert(o3 =~= seq![(key_payload(), e.payload)]);
            assert(o4 =~= Seq::<(Seq<u8>, JsonV)>::empty());
            let tw = JsonV::Str(wire_name_spec(e.message_type));
            assert(lookup_field(o, key_version()) == Some(
                JsonV::Int(e.version as int),
            ));
            assert(lookup_field(o1, key_type()) == Some(tw));
            assert(lookup_field(o, key_type()) == Some(tw));
            assert(lookup_field(o2, key_id()) == Some(JsonV::Str(e.id)));
            assert(lookup_field(o1, key_id()) == Some(JsonV::Str(e.id)));
            assert(lookup_field(o, key_id()) == Some(JsonV::Str(e.id)));
            assert(lookup_field(o4, key_correlation_id()) is None);
            assert(lookup_field(o3, key_correlation_id()) is None);
            assert(lookup_field(o2, key_correlation_id()) is None);
            assert(lookup_field(o1, key_correlation_id()) is None);
            assert(lookup_field(o, key_correlation_id()) is None);
            assert(lookup_field(o3, key_payload()) == Some(e.payload));
            assert(lookup_field(o2, key_payload()) == Some(e.payload));
            assert(lookup_field(o1, key_payload()) == Some(e.payload));
            assert(lookup_field(o, key_payload()) == Some(e.payload));
        },
    }
}

// ---------------------------------------------------------------------
// Payloads
// ---------------------------------------------------------------------

pub open spec fn key_auth() -> Seq<u8> {
    seq![0x61u8, 0x75u8, 0x74u8, 0x68u8]
}

pub open spec fn key_token() -> Seq<u8> {
    seq![0x74u8, 0x6fu8, 0x6bu8, 0x65u8, 0x6eu8]
}

pub open spec fn key_command() -> Seq<u8> {
    seq![0x63u8, 0x6fu8, 0x6du8, 0x6du8, 0x61u8, 0x6eu8, 0x64u8]
}

/// The text `noop`.
pub open spec fn noop_text() -> Seq<u8> {
    seq![0x6eu8, 0x6fu8, 0x6fu8, 0x70u8]
}

/// The payload of an authentication frame: `{"auth":{"token":...}}`.
pub open spec fn auth_payload_json(token: Seq<u8>) -> JsonV {
    JsonV::Obj(
        seq![(key_auth(), JsonV::Obj(seq![(key_token(), JsonV::Str(token))]))],
    )
}

/// The payload of a no-op command: `{"command":"noop"}`.
pub open spec fn noop_payload_json() -> JsonV {
    JsonV::Obj(seq![(key_command(), JsonV::Str(noop_text()))])
}

/// Authentication payload.
pub struct AuthPayload {
    pub auth: AuthInfo,
}

pub struct AuthInfo {
    pub token: Vec<u8>,
}

impl AuthPayload {
    pub fn new(token: Vec<u8>) -> (r: AuthPayload)
        ensures
            r.auth.token@ == token@,
    {
        AuthPayload { auth: AuthInfo { token } }
    }

    /// This payload as a JSON value.
    pub fn to_json(self) -> (r: Json)
        ensures
            json_view(r) == auth_payload_json(self.auth.token@),
    {
        let mut ktoken: Vec<u8> = Vec::new();
        ktoken.push(0x74);
        ktoken.push(0x6f);
        ktoken.push(0x6b);
        ktoken.push(0x65);
        ktoken.push(0x6e);
        proof {
            assert(ktoken@ =~= key_token());
        }
        let mut kauth: Vec<u8> = Vec::new();
        kauth.push(0x61);
        kauth.push(0x75);
        kauth.push(0x74);
        kauth.push(0x68);
        proof {
            assert(kauth@ =~= key_auth());
        }
        let ghost token_view: Seq<u8> = self.auth.token@;
        let mut inner: Vec<(Vec<u8>, Json)> = Vec::new();
        inner.push((ktoken, Json::Str(self.auth.token)));
        proof {
            lemma_fields_view(inner@);
            assert(fields_view(inner@) =~= seq![(key_token(), JsonV::Str(token_view))]);
        }
        let mut outer: Vec<(Vec<u8>, Json)> = Vec::new();
        outer.push((kauth, Json::Obj(inner)));
        proof {
            lemma_fields_view(outer@);
            assert(fields_view(outer@) =~= (auth_payload_json(token_view)->Obj_0));
        }
        Json::Obj(outer)
    }
}

/// No-op command payload.
pub struct NoopCommand {
    pub command: Vec<u8>,
}

impl NoopCommand {
    pub fn new() -> (r: NoopCommand)
        ensures
            r.command@ == noop_text(),
    {
        let mut command: Vec<u8> = Vec::new();
        command.push(0x6e);
        command.push(0x6f);
        command.push(0x6f);
        command.push(0x70);
        proof {
            assert(command@ =~= noop_text());
        }
        NoopCommand { command }
    }

    /// This payload as a JSON value.
    pub fn to_json(self) -> (r: Json)
        ensures
            json_view(r) == JsonV::Obj(
                seq![(key_command(), JsonV::Str(self.command@))],
            ),
    {
        let mut kcommand: Vec<u8> = Vec::new();
        kcommand.push(0x63);
        kcommand.push(0x6f);
        kcommand.push(0x6d);
        kcommand.push(0x6d);
        kcommand.push(0x61);
        kcommand.push(0x6e);
        kcommand.push(0x64);
        proof {
            assert(kcommand@ =~= key_command());
        }
        let ghost command_view: Seq<u8> = self.command@;
        let mut fields: Vec<(Vec<u8>, Json)> = Vec::new();
        fields.push((kcommand, Json::Str(self.command)));
        proof {
            lemma_fields_view(fields@);
            assert(fields_view(fields@) =~= seq![(key_command(), JsonV::Str(command_view))]);
        }
        Json::Obj(fields)
    }
}

impl Default for NoopCommand {
    /// The default no-op payload carries the command text `noop`.
    fn default() -> (r: NoopCommand)
        ensures
            r.command@ == noop_text(),
    {
        NoopCommand::new()
    }
}

// ---------------------------------------------------------------------
// Reply payloads
// ---------------------------------------------------------------------

pub open spec fn key_status() -> Seq<u8> {
    seq![0x73u8, 0x74u8, 0x61u8, 0x74u8, 0x75u8, 0x73u8]
}

pub open spec fn key_message() -> Seq<u8> {
    seq![0x6du8, 0x65u8, 0x73u8, 0x73u8, 0x61u8, 0x67u8, 0x65u8]
}

pub open spec fn key_data() -> Seq<u8> {
    seq![0x64u8, 0x61u8, 0x74u8, 0x61u8]
}

/// The text `error`.
pub open spec fn error_text() -> Seq<u8> {
    seq![0x65u8, 0x72u8, 0x72u8, 0x6fu8, 0x72u8]
}

/// Mathematical model of a reply payload.
pub struct ReplyPayloadV {
    pub status: Seq<u8>,
    pub message: Option<Seq<u8>>,
    pub data: Option<JsonV>,
}

/// Generic reply payload: the `status` string, an optional human
/// message, and optional structured data. A reply payload that is not
/// an object, or whose `status` or `message` field is not a string,
/// yields the empty status and no message; an empty status is never
/// reported as success.
#[derive(Debug)]
pub struct ReplyPayload {
    pub status: Vec<u8>,
    pub message: Option<Vec<u8>>,
    pub data: Option<Json>,
}

impl View for ReplyPayload {
    type V = ReplyPayloadV;

    open spec fn view(&self) -> ReplyPayloadV {
        ReplyPayloadV {
            status: self.status@,
            message: match self.message {
                Some(m) => Some(m@),
                None => None,
            },
            data: match self.data {
                Some(d) => Some(json_view(d)),
                None => None,
            },
        }
    }
}

/// How a reply payload value reads as a `ReplyPayload`.
pub open spec fn spec_reply_of(p: JsonV) -> ReplyPayloadV {
    let o = if p is Obj {
        p->Obj_0
    } else {
        Seq::empty()
    };
    ReplyPayloadV {
        status: match lookup_field(o, key_status()) {
            Some(JsonV::Str(st)) => st,
            _ => Seq::empty(),
        },
        message: match lookup_field(o, key_message()) {
            Some(JsonV::Str(m)) => Some(m),
            _ => None,
        },
        data: lookup_field(o, key_data()),
    }
}

/// Whether a reply payload reports success. The protocol's servers
/// answer with `status` strings such as `ok` or `success`; the one
/// failure marker is `error`. Success is pinned as any nonempty status
/// other than `error`: a reply whose status is missing or malformed
/// reads as the empty status and is reported as a failure, never
/// silently as success.
pub open spec fn spec_reply_success(r: ReplyPayloadV) -> bool {
    r.status != error_text() && r.status.len() > 0
}

impl ReplyPayload {
    /// Read a decoded payload value as a reply.
    pub fn from_payload(p: &Json) -> (r: ReplyPayload)
        ensures
            r@ == spec_reply_of(json_view(*p)),
    {
        match p {
            Json::Obj(o) => {
                let mut kstatus: Vec<u8> = Vec::new();
                kstatus.push(0x73);
                kstatus.push(0x74);
                kstatus.push(0x61);
                kstatus.push(0x74);
                kstatus.push(0x75);
                kstatus.push(0x73);
                proof {
                    assert(kstatus@ =~= key_status());
                }
                let mut kmessage: Vec<u8> = Vec::new();
                kmessage.push(0x6d);
                kmessage.push(0x65);
                kmessage.push(0x73);
                kmessage.push(0x73);
                kmessage.push(0x61);
                kmessage.push(0x67);
                kmessage.push(0x65);
                proof {
                    assert(kmessage@ =~= key_message());
                }
                let mut kdata: Vec<u8> = Vec::new();
                kdata.push(0x64);
                kdata.push(0x61);
                kdata.push(0x74);
                kdata.push(0x61);
                proof {
                    assert(kdata@ =~= key_data());
                }
                let status: Vec<u8> = match lookup_json(o, kstatus.as_slice()) {
                    Some(Json::Str(st)) => st,
                    _ => Vec::new(),
                };
                let message: Option<Vec<u8>> = match lookup_json(o, kmessage.as_slice()) {
                    Some(Json::Str(m)) => Some(m),
                    _ => None,
                };
                let data: Option<Json> = lookup_json(o, kdata.as_slice());
                ReplyPayload { status, message, data }
            },
            _ => {
                ReplyPayload { status: Vec::new(), message: None, data: None }
            },
        }
    }

    /// Whether this reply reports success: any nonempty status but
    /// `error`.
    pub fn is_success(&self) -> (r: bool)
        ensures
            r == spec_reply_success(self@),
    {
        let mut err: Vec<u8> = Vec::new();
        err.push(0x65);
        err.push(0x72);
        err.push(0x72);
        err.push(0x6f);
        err.push(0x72);
        proof {
            assert(err@ =~= error_text());
        }
        !bytes_eq(self.status.as_slice(), err.as_slice()) && self.status.len() > 0
    }
}

} // verus!
