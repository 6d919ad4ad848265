//! The CQL handshake state machine: STARTUP, then either READY or an
//! AUTHENTICATE / AUTH_CHALLENGE exchange ending in AUTH_SUCCESS. Any ERROR
//! during the handshake is fatal for the transport.
//!
//! The machine only decides; whoever owns the socket sends the frames it
//! hands out, feeds back each response frame, and computes authentication
//! tokens when the machine asks for one.

use vstd::prelude::*;
use crate::error::{CodecError, Error};
use crate::frame::{Frame, FrameView, Flags, Version, Direction, Opcode};
use crate::response::{parse_error_body, spec_parse_error_body};
use crate::startup::{BodyReqStartup, spec_string_map};
use crate::wire::{wf_string, spec_u32_be, put_u32_be, put_bytes};

verus! {

/// Where the handshake stands.
#[derive(Clone, Copy, Debug, PartialEq, Eq, Structural)]
pub enum HandshakeState {
    /// STARTUP was sent; READY or AUTHENTICATE is owed.
    AwaitingReady,
    /// An AUTH_RESPONSE was sent; AUTH_CHALLENGE or AUTH_SUCCESS is owed.
    AwaitingAuthSuccess,
    /// The handshake completed; user frames may flow.
    Complete,
    /// The server rejected the handshake; the transport is unusable.
    Failed,
}

/// What the driver must do next.
#[derive(Debug)]
pub enum HandshakeAction {
    /// The handshake is complete; mark the transport ready.
    Done,
    /// Compute an authentication token — for the named authenticator class,
    /// or for a server challenge — and answer with `auth_response_frame`.
    NeedAuthToken(Option<Vec<u8>>),
    /// The handshake failed with this error; drop the transport.
    Fail(Error),
}

/// Starts the handshake: the STARTUP frame to send, and the state awaiting
/// the server's answer.
pub fn start_handshake(compression: Option<String>, version: Version) -> (r: (
    HandshakeState,
    Frame,
))
    requires
        match compression {
            Some(c) => wf_string(c@),
            Option::None => true,
        },
    ensures
        r.0 == HandshakeState::AwaitingReady,
        r.1.opcode == Opcode::Startup,
        r.1.direction == Direction::Request,
        r.1.body@ == spec_string_map(BodyReqStartup::spec_new(match compression {
            Some(c) => Some(c@),
            Option::None => Option::None::<Seq<char>>,
        })),
{
    let frame = Frame::new_req_startup(compression, version);
    (HandshakeState::AwaitingReady, frame)
}

/// The AUTH_RESPONSE frame for a token: a `[bytes]` body, `null` (−1) when
/// the authenticator has nothing to say.
pub fn auth_response_frame(token: Option<Vec<u8>>, version: Version) -> (r: Frame)
    requires
        match token {
            Some(t) => t@.len() <= 0x7FFF_FFFF,
            Option::None => true,
        },
    ensures
        r.opcode == Opcode::AuthResponse,
        r.direction == Direction::Request,
        r.body@ == (match token {
            Some(t) => spec_u32_be(t@.len() as u32) + t@,
            Option::None => spec_u32_be(0xFFFF_FFFFu32),
        }),
{
    let mut body: Vec<u8> = Vec::new();
    match &token {
        Some(t) => {
            put_u32_be(&mut body, t.len() as u32);
            put_bytes(&mut body, t);
        },
        Option::None => {
            put_u32_be(&mut body, 0xFFFF_FFFF);
        },
    }
    Frame::new(
        version,
        Direction::Request,
        Flags::empty(),
        Opcode::AuthResponse,
        body,
        Option::None,
        Vec::new(),
    )
}

/// The transition the handshake owes for a response frame in a state.
pub open spec fn spec_handshake_next(state: HandshakeState, f: FrameView) -> HandshakeState {
    match state {
        HandshakeState::AwaitingReady => if f.opcode == Opcode::Ready {
            HandshakeState::Complete
        } else if f.opcode == Opcode::Authenticate || f.opcode == Opcode::AuthChallenge {
            HandshakeState::AwaitingAuthSuccess
        } else {
            HandshakeState::Failed
        },
        HandshakeState::AwaitingAuthSuccess => if f.opcode == Opcode::AuthSuccess {
            HandshakeState::Complete
        } else if f.opcode == Opcode::AuthChallenge {
            HandshakeState::AwaitingAuthSuccess
        } else {
            HandshakeState::Failed
        },
        _ => state,
    }
}

/// Advances the handshake on one received frame.
///
/// READY (or AUTH_SUCCESS under authentication) completes it; AUTHENTICATE
/// and AUTH_CHALLENGE ask the caller for a token; an ERROR frame fails it
/// with the server's error, anything else with a protocol error. A finished
/// machine — complete or failed — never moves again.
pub fn handshake_on_frame(state: HandshakeState, frame: &Frame) -> (r: (
    HandshakeState,
    HandshakeAction,
))
    requires
        state == HandshakeState::AwaitingReady || state == HandshakeState::AwaitingAuthSuccess,
    ensures
        r.0 == spec_handshake_next(state, frame@),
        frame.opcode == Opcode::Ready && state == HandshakeState::AwaitingReady ==> r.1 is Done,
        frame.opcode == Opcode::AuthSuccess && state == HandshakeState::AwaitingAuthSuccess
            ==> r.1 is Done,
        state == HandshakeState::AwaitingReady && frame.opcode == Opcode::Authenticate ==> (
        r.1 matches HandshakeAction::NeedAuthToken(t) && t is None),
        frame.opcode == Opcode::AuthChallenge && r.0 != HandshakeState::Failed ==> (
        r.1 matches HandshakeAction::NeedAuthToken(t) && (match t {
            Some(b) => frame.body@.len() > 4 && b@ == frame.body@.skip(4),
            Option::None => frame.body@.len() <= 4,
        })),
        r.0 == HandshakeState::Failed ==> (r.1 matches HandshakeAction::Fail(e) && (
        if frame.opcode == Opcode::Error {
            match spec_parse_error_body(frame.body@) {
                Ok((code, msg)) => e matches Error::Server(se) && se.code == code
                    && se.message@ == msg,
                Err(ce) => e == Error::Protocol(ce),
            }
        } else {
            e == Error::Protocol(CodecError::InvalidBody)
        })),
{
    match state {
        HandshakeState::AwaitingReady => {
            if matches!(frame.opcode, Opcode::Ready) {
                return (HandshakeState::Complete, HandshakeAction::Done);
            }
            if matches!(frame.opcode, Opcode::Authenticate) {
                return (
                    HandshakeState::AwaitingAuthSuccess,
                    HandshakeAction::NeedAuthToken(Option::None),
                );
            }
            if matches!(frame.opcode, Opcode::AuthChallenge) {
                let challenge = challenge_bytes(frame);
                return (
                    HandshakeState::AwaitingAuthSuccess,
                    HandshakeAction::NeedAuthToken(challenge),
                );
            }
            (HandshakeState::Failed, HandshakeAction::Fail(handshake_error(frame)))
        },
        HandshakeState::AwaitingAuthSuccess => {
            if matches!(frame.opcode, Opcode::AuthSuccess) {
                return (HandshakeState::Complete, HandshakeAction::Done);
            }
            if matches!(frame.opcode, Opcode::AuthChallenge) {
                let challenge = challenge_bytes(frame);
                return (
                    HandshakeState::AwaitingAuthSuccess,
                    HandshakeAction::NeedAuthToken(challenge),
                );
            }
            (HandshakeState::Failed, HandshakeAction::Fail(handshake_error(frame)))
        },
        _ => (state, HandshakeAction::Fail(Error::Internal)),
    }
}

/// The challenge an AUTH_CHALLENGE carries: its `[bytes]` body, taken whole.
fn challenge_bytes(frame: &Frame) -> (r: Option<Vec<u8>>)
    ensures
        match r {
            Some(b) => frame.body@.len() > 4 && b@ == frame.body@.skip(4),
            Option::None => frame.body@.len() <= 4,
        },
{
    if frame.body.len() > 4 {
        let b = crate::wire::copy_range(&frame.body, 4, frame.body.len());
        proof {
            assert(b@ =~= frame.body@.skip(4));
        }
        Some(b)
    } else {
        Option::None
    }
}

/// The error a non-handshake frame yields: a server ERROR is surfaced with
/// its code and message; anything else is a protocol violation.
fn handshake_error(frame: &Frame) -> (r: Error)
    ensures
        frame.opcode == Opcode::Error ==> (match spec_parse_error_body(frame.body@) {
            Ok((code, msg)) => r matches Error::Server(se) && se.code == code
                && se.message@ == msg,
            Err(ce) => r == Error::Protocol(ce),
        }),
        frame.opcode != Opcode::Error ==> r == Error::Protocol(CodecError::InvalidBody),
{
    if matches!(frame.opcode, Opcode::Error) {
        match parse_error_body(&frame.body) {
            Ok(e) => Error::Server(e),
            Err(e) => Error::Protocol(e),
        }
    } else {
        Error::Protocol(CodecError::InvalidBody)
    }
}

} // verus!
