//! Command dispatcher: decodes a reassembled message's payload, routes it
//! to a handler with injected capabilities, and produces the reply.

use vstd::prelude::*;
use crate::cbor::{cbor_map, spec_cbor_map};
use crate::message::{spec_status_code, status_code, ErrorKind, Message, MessageView, MAX_PAYLOAD_LEN};

verus! {

/// Opcode of an echo request.
pub const CMD_PING: u8 = 0x01;

/// Opcode of the channel-allocation handshake.
pub const CMD_INIT: u8 = 0x06;

/// Opcode of a CBOR-encoded command request.
pub const CMD_CBOR: u8 = 0x10;

/// Opcode that aborts the channel's outstanding request.
pub const CMD_CANCEL: u8 = 0x11;

/// Opcode of an error reply.
pub const CMD_ERROR: u8 = 0x3F;

/// Subcommand byte of a credential-creation request.
pub const SUB_MAKE_CREDENTIAL: u8 = 0x01;

/// Subcommand byte of an assertion-retrieval request.
pub const SUB_GET_ASSERTION: u8 = 0x02;

/// Subcommand byte of a capability query.
pub const SUB_GET_INFO: u8 = 0x04;

/// Subcommand byte of a PIN operation.
pub const SUB_CLIENT_PIN: u8 = 0x06;

/// Leading status byte of a successful CBOR reply.
pub const STATUS_SUCCESS: u8 = 0x00;

/// Leading status byte when the user declined or was absent.
pub const STATUS_OPERATION_DENIED: u8 = 0x27;

/// Leading status byte when no PIN retries remain.
pub const STATUS_PIN_BLOCKED: u8 = 0x32;

/// Protocol generation reported by a capability query.
pub const PROTOCOL_GENERATION: u8 = 0x02;

/// Number of PIN retries a fresh authenticator grants.
pub const MAX_PIN_RETRIES: u8 = 8;

/// Long-lived session and security state, consumed opaquely by the
/// dispatcher and mutated only by its handlers.
pub struct CtapState {
    /// How many credentials this authenticator has created.
    pub credential_counter: u64,
    /// How many PIN attempts remain before the PIN locks.
    pub pin_retries: u8,
}

impl CtapState {
    /// A fresh authenticator state.
    pub fn new() -> (s: CtapState)
        ensures
            s.credential_counter == 0,
            s.pin_retries == MAX_PIN_RETRIES,
    {
        CtapState { credential_counter: 0, pin_retries: MAX_PIN_RETRIES }
    }
}

/// Capabilities injected into the handlers, so that the dispatcher itself
/// is deterministic: fresh randomness and the outcome of the caller-owned
/// user-presence check.
#[derive(Clone, Copy)]
pub struct DispatchEnv {
    /// Fresh random bits for the handler that needs them.
    pub random: u64,
    /// Whether the user-presence check succeeded.
    pub user_present: bool,
}

/// Parameters of a credential-creation request: the CBOR map that carries
/// them, already checked to be well-formed.
pub struct CredentialParams {
    pub body: Vec<u8>,
}

/// Parameters of an assertion-retrieval request.
pub struct AssertionParams {
    pub body: Vec<u8>,
}

/// Parameters of a PIN operation.
pub struct PinParams {
    pub body: Vec<u8>,
}

/// A successfully decoded CBOR request.
pub enum CborRequest {
    MakeCredential(CredentialParams),
    GetAssertion(AssertionParams),
    ClientPin(PinParams),
    GetInfo,
}

/// Mathematical model of a [`CborRequest`]: each parameter structure is
/// modelled by the bytes of its map.
#[verifier::ext_equal]
pub enum CborRequestView {
    MakeCredential(Seq<u8>),
    GetAssertion(Seq<u8>),
    ClientPin(Seq<u8>),
    GetInfo,
}

impl View for CborRequest {
    type V = CborRequestView;

    open spec fn view(&self) -> CborRequestView {
        match self {
            CborRequest::MakeCredential(p) => CborRequestView::MakeCredential(p.body@),
            CborRequest::GetAssertion(p) => CborRequestView::GetAssertion(p.body@),
            CborRequest::ClientPin(p) => CborRequestView::ClientPin(p.body@),
            CborRequest::GetInfo => CborRequestView::GetInfo,
        }
    }
}

/// What decoding a CBOR request payload yields: the leading subcommand
/// byte picks the parameter structure, whose body must be a well-formed
/// CBOR map (or empty, for the capability query). An unrecognized
/// subcommand or an ill-formed body is an invalid-parameter error.
pub open spec fn spec_decode(payload: Seq<u8>) -> Result<CborRequestView, ErrorKind> {
    if payload.len() == 0 {
        Err(ErrorKind::InvalidParameter)
    } else {
        let sub = payload[0];
        let body = payload.subrange(1, payload.len() as int);
        if sub == SUB_MAKE_CREDENTIAL {
            if spec_cbor_map(body) {
                Ok(CborRequestView::MakeCredential(body))
            } else {
                Err(ErrorKind::InvalidParameter)
            }
        } else if sub == SUB_GET_ASSERTION {
            if spec_cbor_map(body) {
                Ok(CborRequestView::GetAssertion(body))
            } else {
                Err(ErrorKind::InvalidParameter)
            }
        } else if sub == SUB_CLIENT_PIN {
            if spec_cbor_map(body) {
                Ok(CborRequestView::ClientPin(body))
            } else {
                Err(ErrorKind::InvalidParameter)
            }
        } else if sub == SUB_GET_INFO {
            if body.len() == 0 {
                Ok(CborRequestView::GetInfo)
            } else {
                Err(ErrorKind::InvalidParameter)
            }
        } else {
            Err(ErrorKind::InvalidParameter)
        }
    }
}

/// The model of a decode result.
pub open spec fn decode_result_view(r: Result<CborRequest, ErrorKind>) -> Result<
    CborRequestView,
    ErrorKind,
> {
    match r {
        Ok(req) => Ok(req@),
        Err(e) => Err(e),
    }
}

/// Decodes a CBOR request payload into its typed parameter structure.
pub fn decode_cbor_request(payload: &Vec<u8>) -> (r: Result<CborRequest, ErrorKind>)
    requires
        payload@.len() <= MAX_PAYLOAD_LEN,
    ensures
        decode_result_view(r) == spec_decode(payload@),
{
    if payload.len() == 0 {
        return Err(ErrorKind::InvalidParameter);
    }
    let sub = payload[0];
    let body = vstd::slice::slice_to_vec(
        vstd::slice::slice_subrange(payload.as_slice(), 1, payload.len()),
    );
    if sub == SUB_MAKE_CREDENTIAL {
        if cbor_map(&body) {
            Ok(CborRequest::MakeCredential(CredentialParams { body }))
        } else {
            Err(ErrorKind::InvalidParameter)
        }
    } else if sub == SUB_GET_ASSERTION {
        if cbor_map(&body) {
            Ok(CborRequest::GetAssertion(AssertionParams { body }))
        } else {
            Err(ErrorKind::InvalidParameter)
        }
    } else if sub == SUB_CLIENT_PIN {
        if cbor_map(&body) {
            Ok(CborRequest::ClientPin(PinParams { body }))
        } else {
            Err(ErrorKind::InvalidParameter)
        }
    } else if sub == SUB_GET_INFO {
        if body.len() == 0 {
            Ok(CborRequest::GetInfo)
        } else {
            Err(ErrorKind::InvalidParameter)
        }
    } else {
        Err(ErrorKind::InvalidParameter)
    }
}

/// The big-endian bytes of a 64-bit counter.
pub open spec fn u64_bytes(x: u64) -> Seq<u8> {
    seq![
        (x >> 56) as u8,
        (x >> 48) as u8,
        (x >> 40) as u8,
        (x >> 32) as u8,
        (x >> 24) as u8,
        (x >> 16) as u8,
        (x >> 8) as u8,
        x as u8,
    ]
}

/// Appends the big-endian bytes of `x`.
fn push_u64(out: &mut Vec<u8>, x: u64)
    requires
        old(out)@.len() + 8 <= usize::MAX,
    ensures
        final(out)@ == old(out)@ + u64_bytes(x),
{
    out.push((x >> 56) as u8);
    out.push((x >> 48) as u8);
    out.push((x >> 40) as u8);
    out.push((x >> 32) as u8);
    out.push((x >> 24) as u8);
    out.push((x >> 16) as u8);
    out.push((x >> 8) as u8);
    out.push(x as u8);
    proof {
        assert(out@ =~= old(out)@ + u64_bytes(x));
    }
}

/// The reply that reports `kind` to channel `cid`: the error opcode with
/// the one status byte that identifies the error kind.
pub open spec fn spec_error_reply(cid: u32, kind: ErrorKind) -> MessageView {
    MessageView { cid, cmd: CMD_ERROR, payload: seq![spec_status_code(kind)] }
}

/// Builds the reply that reports `kind` to channel `cid`.
pub fn error_reply(cid: u32, kind: ErrorKind) -> (reply: Message)
    ensures
        reply@ == spec_error_reply(cid, kind),
{
    let mut payload: Vec<u8> = Vec::new();
    payload.push(status_code(kind));
    let reply = Message { cid, cmd: CMD_ERROR, payload };
    proof {
        assert(reply@ =~= spec_error_reply(cid, kind));
    }
    reply
}

/// A successful CBOR reply to channel `cid` with the given response bytes.
pub open spec fn spec_cbor_reply(cid: u32, payload: Seq<u8>) -> MessageView {
    MessageView { cid, cmd: CMD_CBOR, payload }
}

/// What dispatching a CBOR request does to the authenticator state, and
/// the reply it produces. Credential creation needs user presence and
/// advances the credential counter; assertion retrieval needs user
/// presence; a PIN operation reports the remaining retries unless the PIN
/// is blocked; the capability query reports the protocol generation. A
/// counter that cannot advance is an internal fault that aborts only this
/// request.
pub open spec fn spec_dispatch_cbor(
    cid: u32,
    payload: Seq<u8>,
    st: CtapState,
    env: DispatchEnv,
) -> (CtapState, MessageView) {
    match spec_decode(payload) {
        Err(kind) => (st, spec_error_reply(cid, kind)),
        Ok(req) => match req {
            CborRequestView::MakeCredential(_) => {
                if !env.user_present {
                    (st, spec_cbor_reply(cid, seq![STATUS_OPERATION_DENIED]))
                } else if st.credential_counter == u64::MAX {
                    (st, spec_error_reply(cid, ErrorKind::InternalFatal))
                } else {
                    let counter = (st.credential_counter + 1) as u64;
                    (
                        CtapState { credential_counter: counter, pin_retries: st.pin_retries },
                        spec_cbor_reply(
                            cid,
                            seq![STATUS_SUCCESS] + u64_bytes(counter) + u64_bytes(env.random),
                        ),
                    )
                }
            },
            CborRequestView::GetAssertion(_) => {
                if !env.user_present {
                    (st, spec_cbor_reply(cid, seq![STATUS_OPERATION_DENIED]))
                } else {
                    (
                        st,
                        spec_cbor_reply(
                            cid,
                            seq![STATUS_SUCCESS] + u64_bytes(st.credential_counter),
                        ),
                    )
                }
            },
            CborRequestView::ClientPin(_) => {
                if st.pin_retries == 0 {
                    (st, spec_cbor_reply(cid, seq![STATUS_PIN_BLOCKED]))
                } else {
                    (st, spec_cbor_reply(cid, seq![STATUS_SUCCESS, st.pin_retries]))
                }
            },
            CborRequestView::GetInfo => {
                (st, spec_cbor_reply(cid, seq![STATUS_SUCCESS, PROTOCOL_GENERATION]))
            },
        },
    }
}

/// Dispatches the payload of a CBOR request message for channel `cid`.
pub fn dispatch_cbor(cid: u32, payload: &Vec<u8>, state: &mut CtapState, env: &DispatchEnv) -> (reply:
    Message)
    requires
        payload@.len() <= MAX_PAYLOAD_LEN,
    ensures
        *final(state) == spec_dispatch_cbor(cid, payload@, *old(state), *env).0,
        reply@ == spec_dispatch_cbor(cid, payload@, *old(state), *env).1,
{
    match decode_cbor_request(payload) {
        Err(kind) => error_reply(cid, kind),
        Ok(req) => match req {
            CborRequest::MakeCredential(_) => {
                if !env.user_present {
                    let mut out: Vec<u8> = Vec::new();
                    out.push(STATUS_OPERATION_DENIED);
                    let reply = Message { cid, cmd: CMD_CBOR, payload: out };
                    proof {
                        assert(reply@ =~= spec_dispatch_cbor(cid, payload@, *old(state), *env).1);
                    }
                    reply
                } else if state.credential_counter == u64::MAX {
                    error_reply(cid, ErrorKind::InternalFatal)
                } else {
                    state.credential_counter = state.credential_counter + 1;
                    let mut out: Vec<u8> = Vec::new();
                    out.push(STATUS_SUCCESS);
                    push_u64(&mut out, state.credential_counter);
                    push_u64(&mut out, env.random);
                    let reply = Message { cid, cmd: CMD_CBOR, payload: out };
                    proof {
                        assert(reply@ =~= spec_dispatch_cbor(cid, payload@, *old(state), *env).1);
                    }
                    reply
                }
            },
            CborRequest::GetAssertion(_) => {
                if !env.user_present {
                    let mut out: Vec<u8> = Vec::new();
                    out.push(STATUS_OPERATION_DENIED);
                    let reply = Message { cid, cmd: CMD_CBOR, payload: out };
                    proof {
                        assert(reply@ =~= spec_dispatch_cbor(cid, payload@, *old(state), *env).1);
                    }
                    reply
                } else {
                    let mut out: Vec<u8> = Vec::new();
                    out.push(STATUS_SUCCESS);
                    push_u64(&mut out, state.credential_counter);
                    let reply = Message { cid, cmd: CMD_CBOR, payload: out };
                    proof {
                        assert(reply@ =~= spec_dispatch_cbor(cid, payload@, *old(state), *env).1);
                    }
                    reply
                }
            },
            CborRequest::ClientPin(_) => {
                let mut out: Vec<u8> = Vec::new();
                if state.pin_retries == 0 {
                    out.push(STATUS_PIN_BLOCKED);
                } else {
                    out.push(STATUS_SUCCESS);
                    out.push(state.pin_retries);
                }
                let reply = Message { cid, cmd: CMD_CBOR, payload: out };
                proof {
                    assert(reply@ =~= spec_dispatch_cbor(cid, payload@, *old(state), *env).1);
                }
                reply
            },
            CborRequest::GetInfo => {
                let mut out: Vec<u8> = Vec::new();
                out.push(STATUS_SUCCESS);
                out.push(PROTOCOL_GENERATION);
                let reply = Message { cid, cmd: CMD_CBOR, payload: out };
                proof {
                    assert(reply@ =~= spec_dispatch_cbor(cid, payload@, *old(state), *env).1);
                }
                reply
            },
        },
    }
}

/// Robustness law: dispatching a CBOR request with any payload whatsoever
/// yields a typed reply on the same channel — a success reply under the
/// CBOR opcode or an error reply carrying exactly one status byte — and a
/// payload that decodes to no recognized parameter structure always draws
/// the invalid-parameter error. The reply payload never outgrows what one
/// packet sequence can carry.
pub proof fn lemma_dispatch_robust(cid: u32, payload: Seq<u8>, st: CtapState, env: DispatchEnv)
    ensures
        spec_dispatch_cbor(cid, payload, st, env).1.cid == cid,
        spec_dispatch_cbor(cid, payload, st, env).1.cmd == CMD_CBOR || spec_dispatch_cbor(
            cid,
            payload,
            st,
            env,
        ).1.cmd == CMD_ERROR,
        spec_dispatch_cbor(cid, payload, st, env).1.cmd == CMD_ERROR ==> spec_dispatch_cbor(
            cid,
            payload,
            st,
            env,
        ).1.payload.len() == 1,
        spec_decode(payload) is Err ==> spec_dispatch_cbor(cid, payload, st, env).1
            == spec_error_reply(cid, ErrorKind::InvalidParameter),
        spec_dispatch_cbor(cid, payload, st, env).1.payload.len() <= 17,
{
}

} // verus!
