//! The protocol client: one WebSocket session, one outstanding request.
//!
//! The socket itself is driven by the program around the library; this
//! module holds everything the session decides: fresh request ids, the
//! frames to send, and the verdict on every incoming event while a
//! reply is awaited. The policies the protocol leaves open are pinned
//! here: a reply with a foreign protocol version is a hard failure
//! reporting both versions; unsolicited `event.state` and `event.log`
//! frames during a wait are drained (the wait goes on); a reply whose
//! correlation id is missing or differs from the request id is a hard
//! `CorrelationMismatch`.

use vstd::prelude::*;

use crate::json::{dec_digits, json_view, Json, JsonV};
use crate::protocol::{
    auth_payload_json, decode_envelope, enc_envelope, spec_decode_envelope, spec_reply_of,
    DecodeError, Envelope, EnvelopeV, MessageType, ReplyPayload, ReplyPayloadV,
};
use crate::dispatch::LocalError;
use crate::PROTOCOL_VERSION;

verus! {

// ---------------------------------------------------------------------
// Errors
// ---------------------------------------------------------------------

/// Mathematical model of a client failure.
pub enum ClientErrorV {
    ConnectError(Seq<u8>),
    MalformedEnvelope,
    UnknownMessageType,
    ProtocolVersionMismatch { server: u32, client: u32 },
    UnexpectedMessageType(MessageType),
    CorrelationMismatch { expected: Seq<u8>, got: Option<Seq<u8>> },
    Timeout(u64),
    ConnectionClosedEarly,
    LocalValidationError(LocalError),
}

/// Everything that can go wrong in the client, surfaced to the user.
/// `ConnectError` carries the target URL; `ProtocolVersionMismatch`
/// carries both versions; `CorrelationMismatch` carries the expected id
/// and what came instead; `Timeout` carries the configured duration in
/// milliseconds; `LocalValidationError` carries the usage fault and is
/// the one class that never reaches the network.
#[derive(Clone, PartialEq, Eq, Debug)]
pub enum ClientError {
    ConnectError(Vec<u8>),
    MalformedEnvelope,
    UnknownMessageType,
    ProtocolVersionMismatch { server: u32, client: u32 },
    UnexpectedMessageType(MessageType),
    CorrelationMismatch { expected: Vec<u8>, got: Option<Vec<u8>> },
    Timeout(u64),
    ConnectionClosedEarly,
    LocalValidationError(LocalError),
}

impl View for ClientError {
    type V = ClientErrorV;

    open spec fn view(&self) -> ClientErrorV {
        match self {
            ClientError::ConnectError(u) => ClientErrorV::ConnectError(u@),
            ClientError::MalformedEnvelope => ClientErrorV::MalformedEnvelope,
            ClientError::UnknownMessageType => ClientErrorV::UnknownMessageType,
            ClientError::ProtocolVersionMismatch { server, client } =>
                ClientErrorV::ProtocolVersionMismatch { server: *server, client: *client },
            ClientError::UnexpectedMessageType(t) => ClientErrorV::UnexpectedMessageType(*t),
            ClientError::CorrelationMismatch { expected, got } =>
                ClientErrorV::CorrelationMismatch {
                    expected: expected@,
                    got: match got {
                        Some(g) => Some(g@),
                        None => None,
                    },
                },
            ClientError::Timeout(ms) => ClientErrorV::Timeout(*ms),
            ClientError::ConnectionClosedEarly => ClientErrorV::ConnectionClosedEarly,
            ClientError::LocalValidationError(m) => ClientErrorV::LocalValidationError(*m),
        }
    }
}

// ---------------------------------------------------------------------
// Message ids
// ---------------------------------------------------------------------

/// The prefix `msg-` of every id this client generates.
pub open spec fn msg_prefix() -> Seq<u8> {
    seq![0x6du8, 0x73u8, 0x67u8, 0x2du8]
}

/// The id text for a counter or timestamp value: `msg-` then decimal.
pub open spec fn id_of(n: nat) -> Seq<u8> {
    msg_prefix() + dec_digits(n)
}

/// Relies on std::time::SystemTime::now and duration_since: the time
/// elapsed since the Unix epoch, in milliseconds, truncated to `u64`;
/// zero when the clock reads earlier than the epoch. Nothing is
/// promised of the value: it depends on the wall clock.
#[verifier::external_body]
fn now_millis() -> u64 {
    std::time::SystemTime::now().duration_since(std::time::UNIX_EPOCH).unwrap_or_default()
        .as_millis() as u64
}

/// Generate a unique ID for messages: `msg-` followed by the wall
/// clock's milliseconds. Coarse time alone cannot tell rapid successive
/// calls apart; sessions use the monotonic `IdGen` instead.
pub fn generate_id() -> (r: Vec<u8>)
    ensures
        exists|t: nat| r@ == id_of(t),
{
    let t = now_millis();
    let mut r: Vec<u8> = Vec::new();
    r.push(0x6d);
    r.push(0x73);
    r.push(0x67);
    r.push(0x2d);
    proof {
        assert(r@ =~= msg_prefix());
    }
    crate::json::write_u64(t, &mut r);
    proof {
        assert(r@ == id_of(t as nat));
    }
    r
}

/// Monotonic id generator: each request takes the next counter value,
/// so ids stay distinct under rapid successive calls.
pub struct IdGen {
    pub counter: u64,
}

impl IdGen {
    pub fn new() -> (r: IdGen)
        ensures
            r.counter == 0,
    {
        IdGen { counter: 0 }
    }

    /// The next fresh id: `msg-` then the counter value.
    pub fn fresh(&mut self) -> (r: Vec<u8>)
        requires
            old(self).counter < u64::MAX,
        ensures
            r@ == id_of(old(self).counter as nat),
            final(self).counter == old(self).counter + 1,
    {
        let mut r: Vec<u8> = Vec::new();
        r.push(0x6d);
        r.push(0x73);
        r.push(0x67);
        r.push(0x2d);
        proof {
            assert(r@ =~= msg_prefix());
        }
        crate::json::write_u64(self.counter, &mut r);
        self.counter = self.counter + 1;
        r
    }
}

/// Distinct counter values give distinct ids: the generator never hands
/// the same id out twice.
pub proof fn lemma_id_of_injective(a: nat, b: nat)
    requires
        a != b,
    ensures
        id_of(a) != id_of(b),
{
    if id_of(a) == id_of(b) {
        assert(id_of(a).len() == 4 + dec_digits(a).len());
        assert(dec_digits(a) =~= id_of(a).skip(4));
        assert(dec_digits(b) =~= id_of(b).skip(4));
        assert(dec_digits(a) == dec_digits(b));
        let sa = dec_digits(a);
        assert(sa.subrange(0, sa.len() as int) =~= sa);
        crate::json_laws::lemma_digits_val_embed(sa, 0, a);
        crate::json_laws::lemma_digits_val_embed(sa, 0, b);
        assert(false);
    }
}

// ---------------------------------------------------------------------
// The client
// ---------------------------------------------------------------------

/// Relies on url::Url::parse (crate `url`): whether a text is a valid
/// absolute URL. The result depends on the text alone.
pub uninterp spec fn url_ok(s: Seq<u8>) -> bool;

/// Relies on url::Url::parse (crate `url`): returns whether the text
/// parses as a URL. Text that is not UTF-8 is not a URL.
#[verifier::external_body]
fn parse_url_ok(s: &[u8]) -> (r: bool)
    ensures
        r == url_ok(s@),
{
    match core::str::from_utf8(s) {
        Ok(t) => url::Url::parse(t).is_ok(),
        Err(_) => false,
    }
}

/// WebSocket client for communicating with the game server: the target
/// URL, the optional authentication token, and the reply timeout in
/// milliseconds. The socket handle itself lives with the caller that
/// drives the connection.
pub struct WsClient {
    pub url: Vec<u8>,
    pub token: Option<Vec<u8>>,
    pub timeout_ms: u64,
}

/// What checking one reply text yields: the reply payload, or the exact
/// failure. The checks run in this order: decode, protocol version
/// (both versions reported on a mismatch), message type (only
/// `gm.reply` is accepted here), correlation id (must equal the
/// request's id; absence is a mismatch).
pub open spec fn spec_check_reply(text: Seq<u8>, expected_id: Seq<u8>) -> Result<
    JsonV,
    ClientErrorV,
> {
    match spec_decode_envelope(text) {
        Err(DecodeError::MalformedEnvelope) => Err(ClientErrorV::MalformedEnvelope),
        Err(DecodeError::UnknownMessageType) => Err(ClientErrorV::UnknownMessageType),
        Ok(env) => {
            if env.version != PROTOCOL_VERSION {
                Err(
                    ClientErrorV::ProtocolVersionMismatch {
                        server: env.version,
                        client: PROTOCOL_VERSION,
                    },
                )
            } else if env.message_type != MessageType::GmReply {
                Err(ClientErrorV::UnexpectedMessageType(env.message_type))
            } else {
                match env.correlation_id {
                    None => Err(
                        ClientErrorV::CorrelationMismatch { expected: expected_id, got: None },
                    ),
                    Some(c) => {
                        if c != expected_id {
                            Err(
                                ClientErrorV::CorrelationMismatch {
                                    expected: expected_id,
                                    got: Some(c),
                                },
                            )
                        } else {
                            Ok(env.payload)
                        }
                    },
                }
            }
        },
    }
}

impl WsClient {
    /// Create a new WebSocket client.
    pub fn new(url: Vec<u8>, token: Option<Vec<u8>>, timeout_ms: u64) -> (r: WsClient)
        ensures
            r.url@ == url@,
            r.token == token,
            r.timeout_ms == timeout_ms,
    {
        WsClient { url, token, timeout_ms }
    }

    /// Check the URL before a connection is attempted: `Ok` exactly
    /// when it parses as a URL, else a `ConnectError` carrying it.
    pub fn validate_url(&self) -> (r: Result<(), ClientError>)
        ensures
            r is Ok <==> url_ok(self.url@),
            r is Err ==> r->Err_0@ == ClientErrorV::ConnectError(self.url@),
    {
        if parse_url_ok(self.url.as_slice()) {
            Ok(())
        } else {
            Err(ClientError::ConnectError(crate::protocol::clone_bytes(self.url.as_slice())))
        }
    }

    /// Handle a single reply text against the id of the request it must
    /// answer. Strict: any decode failure, version mismatch, foreign
    /// message type or correlation mismatch is the exact error of
    /// `spec_check_reply`; on success the reply payload comes back.
    pub fn handle_reply(&self, text: &[u8], expected_correlation_id: &[u8]) -> (r: Result<
        Json,
        ClientError,
    >)
        ensures
            r is Ok ==> spec_check_reply(text@, expected_correlation_id@) == Ok::<
                JsonV,
                ClientErrorV,
            >(json_view(r->Ok_0)),
            r is Err ==> spec_check_reply(text@, expected_correlation_id@) == Err::<
                JsonV,
                ClientErrorV,
            >(r->Err_0@),
    {
        match decode_envelope(text) {
            Err(DecodeError::MalformedEnvelope) => Err(ClientError::MalformedEnvelope),
            Err(DecodeError::UnknownMessageType) => Err(ClientError::UnknownMessageType),
            Ok(env) => {
                if env.version != PROTOCOL_VERSION {
                    return Err(
                        ClientError::ProtocolVersionMismatch {
                            server: env.version,
                            client: PROTOCOL_VERSION,
                        },
                    );
                }
                let is_reply = match env.message_type {
                    MessageType::GmReply => true,
                    _ => false,
                };
                if !is_reply {
                    return Err(ClientError::UnexpectedMessageType(env.message_type));
                }
                match env.correlation_id {
                    None => Err(
                        ClientError::CorrelationMismatch {
                            expected: crate::protocol::clone_bytes(expected_correlation_id),
                            got: None,
                        },
                    ),
                    Some(c) => {
                        if !crate::protocol::bytes_eq(c.as_slice(), expected_correlation_id) {
                            Err(
                                ClientError::CorrelationMismatch {
                                    expected: crate::protocol::clone_bytes(
                                        expected_correlation_id,
                                    ),
                                    got: Some(c),
                                },
                            )
                        } else {
                            Ok(env.payload)
                        }
                    },
                }
            },
        }
    }
}


// ---------------------------------------------------------------------
// One outstanding request
// ---------------------------------------------------------------------

/// The state of one outstanding request: the id its reply must carry,
/// and the configured wait in milliseconds.
pub struct RequestCtx {
    pub id: Vec<u8>,
    pub timeout_ms: u64,
}

/// Mathematical model of an event seen while waiting for the reply.
pub enum WaitEventV {
    Text(Seq<u8>),
    NonText,
    Closed,
    TimedOut,
}

/// What the connection handed over while the reply was awaited: a text
/// frame, a frame of another kind, the close of the socket, or the end
/// of the configured wait.
pub enum WaitEvent {
    Text(Vec<u8>),
    NonText,
    Closed,
    TimedOut,
}

impl View for WaitEvent {
    type V = WaitEventV;

    open spec fn view(&self) -> WaitEventV {
        match self {
            WaitEvent::Text(t) => WaitEventV::Text(t@),
            WaitEvent::NonText => WaitEventV::NonText,
            WaitEvent::Closed => WaitEventV::Closed,
            WaitEvent::TimedOut => WaitEventV::TimedOut,
        }
    }
}

/// Mathematical model of the verdict on one event.
pub enum WaitVerdictV {
    Complete(ReplyPayloadV),
    KeepWaiting,
    Fail(ClientErrorV),
}

/// The verdict on one event: the awaited reply arrived, the wait goes
/// on, or the request failed.
pub enum WaitVerdict {
    Complete(ReplyPayload),
    KeepWaiting,
    Fail(ClientError),
}

impl View for WaitVerdict {
    type V = WaitVerdictV;

    open spec fn view(&self) -> WaitVerdictV {
        match self {
            WaitVerdict::Complete(p) => WaitVerdictV::Complete(p@),
            WaitVerdict::KeepWaiting => WaitVerdictV::KeepWaiting,
            WaitVerdict::Fail(e) => WaitVerdictV::Fail(e@),
        }
    }
}

/// The verdict on one event while the reply to the request with id
/// `id` is awaited. Policies pinned here: the end of the wait is
/// `Timeout` carrying the configured duration; a closed socket is
/// `ConnectionClosedEarly`; a non-text frame is `MalformedEnvelope`; a
/// text frame that does not decode gives its decode error; a version
/// other than the client's is a hard `ProtocolVersionMismatch`
/// reporting both; unsolicited `event.state` and `event.log` frames are
/// drained, the wait goes on; a `gm.command` is `UnexpectedMessageType`;
/// a `gm.reply` whose correlation id is absent or differs from `id` is
/// `CorrelationMismatch`; the one remaining case, a current-version
/// `gm.reply` correlated to `id`, completes the request.
pub open spec fn spec_wait_step(id: Seq<u8>, timeout_ms: u64, ev: WaitEventV) -> WaitVerdictV {
    match ev {
        WaitEventV::TimedOut => WaitVerdictV::Fail(ClientErrorV::Timeout(timeout_ms)),
        WaitEventV::Closed => WaitVerdictV::Fail(ClientErrorV::ConnectionClosedEarly),
        WaitEventV::NonText => WaitVerdictV::Fail(ClientErrorV::MalformedEnvelope),
        WaitEventV::Text(t) => match spec_decode_envelope(t) {
            Err(DecodeError::MalformedEnvelope) => WaitVerdictV::Fail(
                ClientErrorV::MalformedEnvelope,
            ),
            Err(DecodeError::UnknownMessageType) => WaitVerdictV::Fail(
                ClientErrorV::UnknownMessageType,
            ),
            Ok(env) => {
                if env.version != PROTOCOL_VERSION {
                    WaitVerdictV::Fail(
                        ClientErrorV::ProtocolVersionMismatch {
                            server: env.version,
                            client: PROTOCOL_VERSION,
                        },
                    )
                } else if env.message_type == MessageType::EventState || env.message_type
                    == MessageType::EventLog {
                    WaitVerdictV::KeepWaiting
                } else if env.message_type == MessageType::GmCommand {
                    WaitVerdictV::Fail(
                        ClientErrorV::UnexpectedMessageType(MessageType::GmCommand),
                    )
                } else {
                    match env.correlation_id {
                        None => WaitVerdictV::Fail(
                            ClientErrorV::CorrelationMismatch { expected: id, got: None },
                        ),
                        Some(c) => {
                            if c != id {
                                WaitVerdictV::Fail(
                                    ClientErrorV::CorrelationMismatch {
                                        expected: id,
                                        got: Some(c),
                                    },
                                )
                            } else {
                                WaitVerdictV::Complete(spec_reply_of(env.payload))
                            }
                        },
                    }
                }
            },
        },
    }
}

/// Judge one event of the wait for the reply to `ctx`.
pub fn handle_wait_event(ctx: &RequestCtx, ev: WaitEvent) -> (r: WaitVerdict)
    ensures
        r@ == spec_wait_step(ctx.id@, ctx.timeout_ms, ev@),
{
    match ev {
        WaitEvent::TimedOut => WaitVerdict::Fail(ClientError::Timeout(ctx.timeout_ms)),
        WaitEvent::Closed => WaitVerdict::Fail(ClientError::ConnectionClosedEarly),
        WaitEvent::NonText => WaitVerdict::Fail(ClientError::MalformedEnvelope),
        WaitEvent::Text(t) => match decode_envelope(t.as_slice()) {
            Err(DecodeError::MalformedEnvelope) => WaitVerdict::Fail(
                ClientError::MalformedEnvelope,
            ),
            Err(DecodeError::UnknownMessageType) => WaitVerdict::Fail(
                ClientError::UnknownMessageType,
            ),
            Ok(env) => {
                if env.version != PROTOCOL_VERSION {
                    return WaitVerdict::Fail(
                        ClientError::ProtocolVersionMismatch {
                            server: env.version,
                            client: PROTOCOL_VERSION,
                        },
                    );
                }
                match env.message_type {
                    MessageType::EventState => WaitVerdict::KeepWaiting,
                    MessageType::EventLog => WaitVerdict::KeepWaiting,
                    MessageType::GmCommand => WaitVerdict::Fail(
                        ClientError::UnexpectedMessageType(MessageType::GmCommand),
                    ),
                    MessageType::GmReply => match env.correlation_id {
                        None => WaitVerdict::Fail(
                            ClientError::CorrelationMismatch {
                                expected: crate::protocol::clone_bytes(ctx.id.as_slice()),
                                got: None,
                            },
                        ),
                        Some(c) => {
                            if !crate::protocol::bytes_eq(c.as_slice(), ctx.id.as_slice()) {
                                WaitVerdict::Fail(
                                    ClientError::CorrelationMismatch {
                                        expected: crate::protocol::clone_bytes(
                                            ctx.id.as_slice(),
                                        ),
                                        got: Some(c),
                                    },
                                )
                            } else {
                                WaitVerdict::Complete(ReplyPayload::from_payload(&env.payload))
                            }
                        },
                    },
                }
            },
        },
    }
}

/// Open a request: take exactly one fresh id from the generator and
/// build the `gm.command` frame that carries `payload` under that id.
/// The caller sends the frame and then feeds every event of the wait to
/// `handle_wait_event` with the returned context.
pub fn begin_request(gen: &mut IdGen, payload: Json, timeout_ms: u64) -> (r: (
    RequestCtx,
    Vec<u8>,
))
    requires
        old(gen).counter < u64::MAX,
    ensures
        final(gen).counter == old(gen).counter + 1,
        r.0.id@ == id_of(old(gen).counter as nat),
        r.0.timeout_ms == timeout_ms,
        r.1@ == enc_envelope(
            EnvelopeV {
                version: PROTOCOL_VERSION,
                message_type: MessageType::GmCommand,
                id: id_of(old(gen).counter as nat),
                correlation_id: None,
                payload: json_view(payload),
            },
        ),
{
    let id = gen.fresh();
    let id_copy = crate::protocol::clone_bytes(id.as_slice());
    let env = Envelope::new(MessageType::GmCommand, id, payload);
    let frame = env.encode();
    (RequestCtx { id: id_copy, timeout_ms }, frame)
}

/// The fire-and-forget authentication frame: a `gm.command` envelope
/// whose payload is `{"auth":{"token":...}}` under a fresh id. No reply
/// is awaited for it.
pub fn auth_frame(gen: &mut IdGen, token: Vec<u8>) -> (r: Vec<u8>)
    requires
        old(gen).counter < u64::MAX,
    ensures
        final(gen).counter == old(gen).counter + 1,
        r@ == enc_envelope(
            EnvelopeV {
                version: PROTOCOL_VERSION,
                message_type: MessageType::GmCommand,
                id: id_of(old(gen).counter as nat),
                correlation_id: None,
                payload: auth_payload_json(token@),
            },
        ),
{
    let id = gen.fresh();
    let payload = crate::protocol::AuthPayload::new(token).to_json();
    let env = Envelope::new(MessageType::GmCommand, id, payload);
    env.encode()
}

// ---------------------------------------------------------------------
// Laws of the wait
// ---------------------------------------------------------------------

/// A request accepts only a reply whose correlation id equals its own
/// id: any current-version `gm.reply` with an absent or different
/// correlation id is rejected with `CorrelationMismatch`, even if
/// otherwise well-formed.
pub proof fn lemma_reply_correlation(id: Seq<u8>, timeout_ms: u64, t: Seq<u8>)
    requires
        spec_decode_envelope(t) is Ok,
        spec_decode_envelope(t)->Ok_0.version == PROTOCOL_VERSION,
        spec_decode_envelope(t)->Ok_0.message_type == MessageType::GmReply,
        spec_decode_envelope(t)->Ok_0.correlation_id != Some(id),
    ensures
        spec_wait_step(id, timeout_ms, WaitEventV::Text(t)) == WaitVerdictV::Fail(
            ClientErrorV::CorrelationMismatch {
                expected: id,
                got: spec_decode_envelope(t)->Ok_0.correlation_id,
            },
        ),
{
}

/// The one way a request completes: a current-version `gm.reply`
/// whose correlation id equals the request's id is accepted, and the
/// reply the caller sees is exactly the reading of that frame's
/// payload.
pub proof fn lemma_reply_accepted(id: Seq<u8>, timeout_ms: u64, t: Seq<u8>)
    requires
        spec_decode_envelope(t) is Ok,
        spec_decode_envelope(t)->Ok_0.version == PROTOCOL_VERSION,
        spec_decode_envelope(t)->Ok_0.message_type == MessageType::GmReply,
        spec_decode_envelope(t)->Ok_0.correlation_id == Some(id),
    ensures
        spec_wait_step(id, timeout_ms, WaitEventV::Text(t)) == WaitVerdictV::Complete(
            spec_reply_of(spec_decode_envelope(t)->Ok_0.payload),
        ),
{
}

/// A reply whose `version` differs from the client's compiled version
/// is a hard failure reporting both versions, whatever else it holds.
pub proof fn lemma_version_mismatch(id: Seq<u8>, timeout_ms: u64, t: Seq<u8>)
    requires
        spec_decode_envelope(t) is Ok,
        spec_decode_envelope(t)->Ok_0.version != PROTOCOL_VERSION,
    ensures
        spec_wait_step(id, timeout_ms, WaitEventV::Text(t)) == WaitVerdictV::Fail(
            ClientErrorV::ProtocolVersionMismatch {
                server: spec_decode_envelope(t)->Ok_0.version,
                client: PROTOCOL_VERSION,
            },
        ),
{
}

/// A wait that ends without a reply fails with `Timeout` carrying the
/// configured duration.
pub proof fn lemma_timeout_duration(id: Seq<u8>, timeout_ms: u64)
    ensures
        spec_wait_step(id, timeout_ms, WaitEventV::TimedOut) == WaitVerdictV::Fail(
            ClientErrorV::Timeout(timeout_ms),
        ),
{
}

} // verus!
