//! Response bodies: the ERROR body (code and message), the RESULT kind
//! discriminator and the Prepared result's id, and server push EVENT bodies.

use vstd::prelude::*;
use crate::error::{CodecError, ServerError};
use crate::wire::{spec_u16_from_be, spec_u32_from_be, spec_parse_string_at, spec_parse_short_bytes_at,
    get_u16_be, get_u32_be, parse_string_at, parse_short_bytes_at, copy_range};
use crate::startup::str_eq;

verus! {

/// Spec parser for an ERROR body: `[int]` code then `[string]` message.
pub open spec fn spec_parse_error_body(s: Seq<u8>) -> Result<(i32, Seq<char>), CodecError> {
    if s.len() < 4 {
        Err(CodecError::UnexpectedEnd)
    } else {
        let code = spec_u32_from_be(s[0], s[1], s[2], s[3]) as i32;
        match spec_parse_string_at(s, 4) {
            Err(e) => Err(e),
            Ok((msg, _p)) => Ok((code, msg)),
        }
    }
}

/// Parses an ERROR body into the server error it reports. Detail fields
/// after the message, which vary by code, are left unread.
pub fn parse_error_body(body: &Vec<u8>) -> (r: Result<ServerError, CodecError>)
    ensures
        match r {
            Ok(e) => spec_parse_error_body(body@) == Ok::<(i32, Seq<char>), CodecError>(
                (e.code, e.message@),
            ),
            Err(e) => spec_parse_error_body(body@) == Err::<(i32, Seq<char>), CodecError>(e),
        },
{
    if body.len() < 4 {
        return Err(CodecError::UnexpectedEnd);
    }
    let code = get_u32_be(body, 0) as i32;
    match parse_string_at(body, 4) {
        Ok((message, _p)) => Ok(ServerError { code, message }),
        Err(e) => Err(e),
    }
}

/// The five RESULT kinds, by their wire codes 1 to 5.
#[derive(Clone, Copy, Debug, PartialEq, Eq, Structural)]
pub enum ResultKind {
    Void,
    Rows,
    SetKeyspace,
    Prepared,
    SchemaChange,
}

/// The kind denoted by a RESULT discriminator.
pub open spec fn spec_result_kind(code: u32) -> Option<ResultKind> {
    if code == 1 {
        Some(ResultKind::Void)
    } else if code == 2 {
        Some(ResultKind::Rows)
    } else if code == 3 {
        Some(ResultKind::SetKeyspace)
    } else if code == 4 {
        Some(ResultKind::Prepared)
    } else if code == 5 {
        Some(ResultKind::SchemaChange)
    } else {
        Option::None
    }
}

/// Spec parser for the leading four-byte RESULT kind.
pub open spec fn spec_parse_result_kind(s: Seq<u8>) -> Result<ResultKind, CodecError> {
    if s.len() < 4 {
        Err(CodecError::UnexpectedEnd)
    } else {
        match spec_result_kind(spec_u32_from_be(s[0], s[1], s[2], s[3])) {
            Some(k) => Ok(k),
            Option::None => Err(CodecError::InvalidBody),
        }
    }
}

/// Parses the RESULT kind discriminator.
pub fn parse_result_kind(body: &Vec<u8>) -> (r: Result<ResultKind, CodecError>)
    ensures
        r == spec_parse_result_kind(body@),
{
    if body.len() < 4 {
        return Err(CodecError::UnexpectedEnd);
    }
    let code = get_u32_be(body, 0);
    if code == 1 {
        Ok(ResultKind::Void)
    } else if code == 2 {
        Ok(ResultKind::Rows)
    } else if code == 3 {
        Ok(ResultKind::SetKeyspace)
    } else if code == 4 {
        Ok(ResultKind::Prepared)
    } else if code == 5 {
        Ok(ResultKind::SchemaChange)
    } else {
        Err(CodecError::InvalidBody)
    }
}

/// The Prepared result: the server-assigned statement id. Result metadata
/// after the id is left unread.
#[derive(Debug)]
pub struct BodyResResultPrepared {
    pub id: Vec<u8>,
}

/// Spec parser for a Prepared RESULT body: kind 4, then `[short bytes]` id.
pub open spec fn spec_parse_prepared_body(s: Seq<u8>) -> Result<Seq<u8>, CodecError> {
    match spec_parse_result_kind(s) {
        Err(e) => Err(e),
        Ok(k) => if k != ResultKind::Prepared {
            Err(CodecError::InvalidBody)
        } else {
            match spec_parse_short_bytes_at(s, 4) {
                Err(e) => Err(e),
                Ok((id, _p)) => Ok(id),
            }
        },
    }
}

/// Parses a RESULT body into the prepared-statement id it carries.
pub fn parse_prepared_body(body: &Vec<u8>) -> (r: Result<BodyResResultPrepared, CodecError>)
    ensures
        match r {
            Ok(p) => spec_parse_prepared_body(body@) == Ok::<Seq<u8>, CodecError>(p.id@),
            Err(e) => spec_parse_prepared_body(body@) == Err::<Seq<u8>, CodecError>(e),
        },
{
    let kind = match parse_result_kind(body) {
        Ok(k) => k,
        Err(e) => {
            return Err(e);
        },
    };
    if !matches!(kind, ResultKind::Prepared) {
        return Err(CodecError::InvalidBody);
    }
    match parse_short_bytes_at(body, 4) {
        Ok((id, _p)) => Ok(BodyResResultPrepared { id }),
        Err(e) => Err(e),
    }
}

/// A node address as an event carries it: 4 or 16 address bytes and a port.
#[derive(Debug)]
pub struct InetAddr {
    pub ip: Vec<u8>,
    pub port: u32,
}

/// A server push event the driver understands.
#[derive(Debug)]
pub enum ServerEvent {
    /// STATUS_CHANGE: a node came up (`up`) or went down.
    StatusChange { up: bool, addr: InetAddr },
    /// TOPOLOGY_CHANGE: a node joined (`new_node`) or left the ring.
    TopologyChange { new_node: bool, addr: InetAddr },
    /// SCHEMA_CHANGE: the unread remainder of the body.
    SchemaChange { payload: Vec<u8> },
}

/// Spec parser for an `[inet]`: one length byte (4 or 16), the address
/// bytes, then a four-byte port.
pub open spec fn spec_parse_inet_at(s: Seq<u8>, pos: int) -> Result<((Seq<u8>, u32), int),
    CodecError> {
    if !(0 <= pos && pos + 1 <= s.len()) {
        Err(CodecError::UnexpectedEnd)
    } else {
        let n = s[pos] as int;
        if n != 4 && n != 16 {
            Err(CodecError::InvalidBody)
        } else if pos + 1 + n + 4 > s.len() {
            Err(CodecError::UnexpectedEnd)
        } else {
            Ok(
                (
                    (
                        s.subrange(pos + 1, pos + 1 + n),
                        spec_u32_from_be(
                            s[pos + 1 + n],
                            s[pos + 1 + n + 1],
                            s[pos + 1 + n + 2],
                            s[pos + 1 + n + 3],
                        ),
                    ),
                    pos + 1 + n + 4,
                ),
            )
        }
    }
}

/// Parses an `[inet]` at `pos`.
pub fn parse_inet_at(data: &Vec<u8>, pos: usize) -> (r: Result<(InetAddr, usize), CodecError>)
    ensures
        match r {
            Ok((a, p)) => spec_parse_inet_at(data@, pos as int) == Ok::<((Seq<u8>, u32), int),
                CodecError>(((a.ip@, a.port), p as int)),
            Err(e) => spec_parse_inet_at(data@, pos as int) == Err::<((Seq<u8>, u32), int),
                CodecError>(e),
        },
{
    if pos >= data.len() {
        return Err(CodecError::UnexpectedEnd);
    }
    let n = data[pos] as usize;
    if n != 4 && n != 16 {
        return Err(CodecError::InvalidBody);
    }
    if data.len() - (pos + 1) < n + 4 {
        return Err(CodecError::UnexpectedEnd);
    }
    let ip = copy_range(data, pos + 1, pos + 1 + n);
    let port = get_u32_be(data, pos + 1 + n);
    Ok((InetAddr { ip, port }, pos + 1 + n + 4))
}

/// What an EVENT body denotes.
pub open spec fn spec_parse_event_body(s: Seq<u8>) -> Result<(int, bool, Seq<u8>, u32, Seq<u8>),
    CodecError> {
    match spec_parse_string_at(s, 0) {
        Err(e) => Err(e),
        Ok((ty, p)) => if ty == "STATUS_CHANGE"@ || ty == "TOPOLOGY_CHANGE"@ {
            match spec_parse_string_at(s, p) {
                Err(e) => Err(e),
                Ok((ch, p2)) => {
                    let up_or_new: Option<bool> = if ty == "STATUS_CHANGE"@ {
                        if ch == "UP"@ {
                            Some(true)
                        } else if ch == "DOWN"@ {
                            Some(false)
                        } else {
                            Option::None
                        }
                    } else {
                        if ch == "NEW_NODE"@ {
                            Some(true)
                        } else if ch == "REMOVED_NODE"@ {
                            Some(false)
                        } else {
                            Option::None
                        }
                    };
                    match up_or_new {
                        Option::None => Err(CodecError::InvalidBody),
                        Some(flag) => match spec_parse_inet_at(s, p2) {
                            Err(e) => Err(e),
                            Ok(((ip, port), _p3)) => Ok(
                                (
                                    if ty == "STATUS_CHANGE"@ {
                                        0int
                                    } else {
                                        1int
                                    },
                                    flag,
                                    ip,
                                    port,
                                    Seq::<u8>::empty(),
                                ),
                            ),
                        },
                    }
                },
            }
        } else if ty == "SCHEMA_CHANGE"@ {
            Ok((2int, false, Seq::<u8>::empty(), 0u32, s.skip(p)))
        } else {
            Err(CodecError::InvalidBody)
        },
    }
}

/// The shape `spec_parse_event_body` gives a parsed event.
pub open spec fn spec_event_repr(ev: ServerEvent) -> (int, bool, Seq<u8>, u32, Seq<u8>) {
    match ev {
        ServerEvent::StatusChange { up, addr } => (0int, up, addr.ip@, addr.port, Seq::empty()),
        ServerEvent::TopologyChange { new_node, addr } => (
            1int,
            new_node,
            addr.ip@,
            addr.port,
            Seq::empty(),
        ),
        ServerEvent::SchemaChange { payload } => (2int, false, Seq::empty(), 0u32, payload@),
    }
}

/// Parses an EVENT body: `[string]` event type, then the type's own fields.
pub fn parse_event_body(body: &Vec<u8>) -> (r: Result<ServerEvent, CodecError>)
    ensures
        match r {
            Ok(ev) => spec_parse_event_body(body@) == Ok::<(int, bool, Seq<u8>, u32, Seq<u8>),
                CodecError>(spec_event_repr(ev)),
            Err(e) => spec_parse_event_body(body@) == Err::<(int, bool, Seq<u8>, u32, Seq<u8>),
                CodecError>(e),
        },
{
    let (ty, p) = match parse_string_at(body, 0) {
        Ok(tp) => tp,
        Err(e) => {
            return Err(e);
        },
    };
    let is_status = str_eq(ty.as_str(), "STATUS_CHANGE");
    let is_topology = str_eq(ty.as_str(), "TOPOLOGY_CHANGE");
    if is_status || is_topology {
        let (ch, p2) = match parse_string_at(body, p) {
            Ok(cp) => cp,
            Err(e) => {
                return Err(e);
            },
        };
        let flag: bool = if is_status {
            if str_eq(ch.as_str(), "UP") {
                true
            } else if str_eq(ch.as_str(), "DOWN") {
                false
            } else {
                return Err(CodecError::InvalidBody);
            }
        } else {
            if str_eq(ch.as_str(), "NEW_NODE") {
                true
            } else if str_eq(ch.as_str(), "REMOVED_NODE") {
                false
            } else {
                return Err(CodecError::InvalidBody);
            }
        };
        let (addr, _p3) = match parse_inet_at(body, p2) {
            Ok(ap) => ap,
            Err(e) => {
                return Err(e);
            },
        };
        if is_status {
            Ok(ServerEvent::StatusChange { up: flag, addr })
        } else {
            Ok(ServerEvent::TopologyChange { new_node: flag, addr })
        }
    } else if str_eq(ty.as_str(), "SCHEMA_CHANGE") {
        let payload = copy_range(body, p, body.len());
        proof {
            assert(payload@ =~= body@.skip(p as int));
        }
        Ok(ServerEvent::SchemaChange { payload })
    } else {
        Err(CodecError::InvalidBody)
    }
}

} // verus!
