//! Frames of the CQL binary protocol: the fixed 9-byte header (version and
//! direction byte, flags byte, big-endian signed stream id, opcode, big-endian
//! unsigned body length) and the `Frame` value the driver works with.

use vstd::prelude::*;
use crate::error::CodecError;
use crate::wire::{spec_u16_be, spec_u32_be, spec_u16_from_be, spec_u32_from_be,
    lemma_i16_cast_round_trip, wf_strings, views_of_strings};

verus! {

/// Protocol version offered or echoed in a frame.
#[derive(Clone, Copy, Debug, PartialEq, Eq, Structural)]
pub enum Version {
    V3,
    V4,
    V5,
}

/// Direction of a frame: the high bit of the first header byte.
#[derive(Clone, Copy, Debug, PartialEq, Eq, Structural)]
pub enum Direction {
    Request,
    Response,
}

/// Header flags: compression, tracing, custom payload, warnings.
#[derive(Clone, Copy, Debug, PartialEq, Eq, Structural)]
pub struct Flags {
    pub compression: bool,
    pub tracing: bool,
    pub custom_payload: bool,
    pub warning: bool,
}

impl Flags {
    /// No flag set.
    pub fn empty() -> (r: Flags)
        ensures
            r == (Flags { compression: false, tracing: false, custom_payload: false,
                warning: false }),
    {
        Flags { compression: false, tracing: false, custom_payload: false, warning: false }
    }
}

/// Frame opcodes.
#[derive(Clone, Copy, Debug, PartialEq, Eq, Structural)]
pub enum Opcode {
    Error,
    Startup,
    Ready,
    Authenticate,
    Options,
    Supported,
    Query,
    Result,
    Prepare,
    Execute,
    Register,
    Event,
    Batch,
    AuthChallenge,
    AuthResponse,
    AuthSuccess,
}

/// The byte denoting each protocol version.
pub open spec fn spec_version_byte(v: Version) -> u8 {
    match v {
        Version::V3 => 3,
        Version::V4 => 4,
        Version::V5 => 5,
    }
}

/// The version denoted by a (direction-stripped) version byte.
pub open spec fn spec_version_from_byte(b: u8) -> Option<Version> {
    if b == 3 {
        Some(Version::V3)
    } else if b == 4 {
        Some(Version::V4)
    } else if b == 5 {
        Some(Version::V5)
    } else {
        None
    }
}

/// The direction bit: 0 for requests, 1 for responses.
pub open spec fn spec_direction_bit(d: Direction) -> u8 {
    match d {
        Direction::Request => 0,
        Direction::Response => 1,
    }
}

/// The byte encoding of the flags.
pub open spec fn spec_flags_byte(f: Flags) -> u8 {
    ((if f.compression { 1int } else { 0int }) + (if f.tracing { 2int } else { 0int }) + (
    if f.custom_payload { 4int } else { 0int }) + (if f.warning { 8int } else { 0int })) as u8
}

/// The flags denoted by a byte; bits beyond the defined four are ignored.
pub open spec fn spec_flags_from_byte(b: u8) -> Flags {
    Flags {
        compression: b % 2 == 1,
        tracing: (b / 2) % 2 == 1,
        custom_payload: (b / 4) % 2 == 1,
        warning: (b / 8) % 2 == 1,
    }
}

pub proof fn lemma_flags_round_trip(f: Flags)
    ensures
        spec_flags_from_byte(spec_flags_byte(f)) == f,
{
}

/// The byte denoting each opcode.
pub open spec fn spec_opcode_byte(o: Opcode) -> u8 {
    match o {
        Opcode::Error => 0x00,
        Opcode::Startup => 0x01,
        Opcode::Ready => 0x02,
        Opcode::Authenticate => 0x03,
        Opcode::Options => 0x05,
        Opcode::Supported => 0x06,
        Opcode::Query => 0x07,
        Opcode::Result => 0x08,
        Opcode::Prepare => 0x09,
        Opcode::Execute => 0x0A,
        Opcode::Register => 0x0B,
        Opcode::Event => 0x0C,
        Opcode::Batch => 0x0D,
        Opcode::AuthChallenge => 0x0E,
        Opcode::AuthResponse => 0x0F,
        Opcode::AuthSuccess => 0x10,
    }
}

/// The opcode denoted by a byte.
pub open spec fn spec_opcode_from_byte(b: u8) -> Option<Opcode> {
    if b == 0x00 {
        Some(Opcode::Error)
    } else if b == 0x01 {
        Some(Opcode::Startup)
    } else if b == 0x02 {
        Some(Opcode::Ready)
    } else if b == 0x03 {
        Some(Opcode::Authenticate)
    } else if b == 0x05 {
        Some(Opcode::Options)
    } else if b == 0x06 {
        Some(Opcode::Supported)
    } else if b == 0x07 {
        Some(Opcode::Query)
    } else if b == 0x08 {
        Some(Opcode::Result)
    } else if b == 0x09 {
        Some(Opcode::Prepare)
    } else if b == 0x0A {
        Some(Opcode::Execute)
    } else if b == 0x0B {
        Some(Opcode::Register)
    } else if b == 0x0C {
        Some(Opcode::Event)
    } else if b == 0x0D {
        Some(Opcode::Batch)
    } else if b == 0x0E {
        Some(Opcode::AuthChallenge)
    } else if b == 0x0F {
        Some(Opcode::AuthResponse)
    } else if b == 0x10 {
        Some(Opcode::AuthSuccess)
    } else {
        None
    }
}

pub proof fn lemma_opcode_round_trip(o: Opcode)
    ensures
        spec_opcode_from_byte(spec_opcode_byte(o)) == Some(o),
{
}

/// The fixed 9-byte frame header.
#[derive(Clone, Copy, Debug, PartialEq, Eq, Structural)]
pub struct Header {
    pub version: Version,
    pub direction: Direction,
    pub flags: Flags,
    pub stream_id: i16,
    pub opcode: Opcode,
    pub body_len: u32,
}

/// Spec image of a header: exactly nine bytes.
pub open spec fn spec_header_bytes(h: Header) -> Seq<u8> {
    seq![
        (spec_direction_bit(h.direction) * 128 + spec_version_byte(h.version)) as u8,
        spec_flags_byte(h.flags),
        ((h.stream_id as u16) / 256) as u8,
        ((h.stream_id as u16) % 256) as u8,
        spec_opcode_byte(h.opcode),
        (h.body_len / 0x1000000) as u8,
        ((h.body_len / 0x10000) % 256) as u8,
        ((h.body_len / 256) % 256) as u8,
        (h.body_len % 256) as u8,
    ]
}

/// Spec parser of a header from the first nine bytes of `s`. An unknown
/// version or opcode is a protocol error, never a panic.
pub open spec fn spec_parse_header(s: Seq<u8>) -> Result<Header, CodecError> {
    if s.len() < 9 {
        Err(CodecError::UnexpectedEnd)
    } else {
        let vb = s[0] % 128;
        let dir = if s[0] / 128 == 1 {
            Direction::Response
        } else {
            Direction::Request
        };
        match spec_version_from_byte(vb) {
            Option::None => Err(CodecError::InvalidVersion(vb)),
            Some(v) => match spec_opcode_from_byte(s[4]) {
                Option::None => Err(CodecError::InvalidOpcode(s[4])),
                Some(op) => Ok(
                    Header {
                        version: v,
                        direction: dir,
                        flags: spec_flags_from_byte(s[1]),
                        stream_id: spec_u16_from_be(s[2], s[3]) as i16,
                        opcode: op,
                        body_len: spec_u32_from_be(s[5], s[6], s[7], s[8]),
                    },
                ),
            },
        }
    }
}

/// A serialized header parses back to itself.
pub proof fn lemma_header_round_trip(h: Header)
    ensures
        spec_parse_header(spec_header_bytes(h)) == Ok::<Header, CodecError>(h),
{
    let s = spec_header_bytes(h);
    assert(s.len() == 9);
    assert(s[0] == (spec_direction_bit(h.direction) * 128 + spec_version_byte(h.version)) as u8);
    assert(s[0] % 128 == spec_version_byte(h.version));
    assert(s[0] / 128 == spec_direction_bit(h.direction));
    lemma_flags_round_trip(h.flags);
    lemma_opcode_round_trip(h.opcode);
    let u = h.stream_id as u16;
    assert(spec_u16_from_be(s[2], s[3]) == u) by {
        assert(s[2] == (u / 256) as u8 && s[3] == (u % 256) as u8);
    }
    lemma_i16_cast_round_trip(h.stream_id);
    assert(spec_u32_from_be(s[5], s[6], s[7], s[8]) == h.body_len);
}

/// A serialized header followed by anything parses back to the header: the
/// parser reads only the nine header bytes.
pub proof fn lemma_parse_header_prefix(h: Header, rest: Seq<u8>)
    ensures
        spec_parse_header(spec_header_bytes(h) + rest) == Ok::<Header, CodecError>(h),
{
    let img = spec_header_bytes(h);
    let s = img + rest;
    assert(s.len() >= 9);
    assert(forall|i: int| 0 <= i < 9 ==> s[i] == img[i]);
    lemma_header_round_trip(h);
}

/// Serializes a header to its nine bytes.
pub fn serialize_header(h: &Header) -> (r: Vec<u8>)
    ensures
        r@ == spec_header_bytes(*h),
{
    let mut out: Vec<u8> = Vec::new();
    let dir_bit: u8 = match h.direction {
        Direction::Request => 0,
        Direction::Response => 1,
    };
    let ver: u8 = match h.version {
        Version::V3 => 3,
        Version::V4 => 4,
        Version::V5 => 5,
    };
    out.push(dir_bit * 128 + ver);
    out.push(flags_byte(&h.flags));
    let sid = h.stream_id as u16;
    out.push((sid / 256) as u8);
    out.push((sid % 256) as u8);
    out.push(opcode_byte(&h.opcode));
    out.push((h.body_len / 0x1000000) as u8);
    out.push(((h.body_len / 0x10000) % 256) as u8);
    out.push(((h.body_len / 256) % 256) as u8);
    out.push((h.body_len % 256) as u8);
    assert(out@ =~= spec_header_bytes(*h));
    out
}

/// The flags byte of `f`.
pub fn flags_byte(f: &Flags) -> (r: u8)
    ensures
        r == spec_flags_byte(*f),
{
    let mut b: u8 = 0;
    if f.compression {
        b = b + 1;
    }
    if f.tracing {
        b = b + 2;
    }
    if f.custom_payload {
        b = b + 4;
    }
    if f.warning {
        b = b + 8;
    }
    b
}

/// The byte of an opcode.
pub fn opcode_byte(o: &Opcode) -> (r: u8)
    ensures
        r == spec_opcode_byte(*o),
{
    match o {
        Opcode::Error => 0x00,
        Opcode::Startup => 0x01,
        Opcode::Ready => 0x02,
        Opcode::Authenticate => 0x03,
        Opcode::Options => 0x05,
        Opcode::Supported => 0x06,
        Opcode::Query => 0x07,
        Opcode::Result => 0x08,
        Opcode::Prepare => 0x09,
        Opcode::Execute => 0x0A,
        Opcode::Register => 0x0B,
        Opcode::Event => 0x0C,
        Opcode::Batch => 0x0D,
        Opcode::AuthChallenge => 0x0E,
        Opcode::AuthResponse => 0x0F,
        Opcode::AuthSuccess => 0x10,
    }
}

/// Parses the nine-byte header at the front of `data`.
pub fn parse_header(data: &Vec<u8>) -> (r: Result<Header, CodecError>)
    ensures
        r == spec_parse_header(data@),
{
    if data.len() < 9 {
        return Err(CodecError::UnexpectedEnd);
    }
    let b0 = data[0];
    let vb = b0 % 128;
    let direction = if b0 / 128 == 1 {
        Direction::Response
    } else {
        Direction::Request
    };
    let version = if vb == 3 {
        Version::V3
    } else if vb == 4 {
        Version::V4
    } else if vb == 5 {
        Version::V5
    } else {
        return Err(CodecError::InvalidVersion(vb));
    };
    let ob = data[4];
    let opcode = match opcode_from_byte(ob) {
        Some(o) => o,
        Option::None => {
            return Err(CodecError::InvalidOpcode(ob));
        },
    };
    let flags = Flags {
        compression: data[1] % 2 == 1,
        tracing: (data[1] / 2) % 2 == 1,
        custom_payload: (data[1] / 4) % 2 == 1,
        warning: (data[1] / 8) % 2 == 1,
    };
    let sid_u = crate::wire::get_u16_be(data, 2);
    let body_len = crate::wire::get_u32_be(data, 5);
    Ok(Header { version, direction, flags, stream_id: sid_u as i16, opcode, body_len })
}

/// The opcode denoted by a byte, or `None`.
pub fn opcode_from_byte(b: u8) -> (r: Option<Opcode>)
    ensures
        r == spec_opcode_from_byte(b),
{
    if b == 0x00 {
        Some(Opcode::Error)
    } else if b == 0x01 {
        Some(Opcode::Startup)
    } else if b == 0x02 {
        Some(Opcode::Ready)
    } else if b == 0x03 {
        Some(Opcode::Authenticate)
    } else if b == 0x05 {
        Some(Opcode::Options)
    } else if b == 0x06 {
        Some(Opcode::Supported)
    } else if b == 0x07 {
        Some(Opcode::Query)
    } else if b == 0x08 {
        Some(Opcode::Result)
    } else if b == 0x09 {
        Some(Opcode::Prepare)
    } else if b == 0x0A {
        Some(Opcode::Execute)
    } else if b == 0x0B {
        Some(Opcode::Register)
    } else if b == 0x0C {
        Some(Opcode::Event)
    } else if b == 0x0D {
        Some(Opcode::Batch)
    } else if b == 0x0E {
        Some(Opcode::AuthChallenge)
    } else if b == 0x0F {
        Some(Opcode::AuthResponse)
    } else if b == 0x10 {
        Some(Opcode::AuthSuccess)
    } else {
        Option::None
    }
}

/// One application-level message: header fields plus the decoded body, and,
/// on parsed responses, the tracing id and warnings the server attached.
#[derive(Debug)]
pub struct Frame {
    pub version: Version,
    pub direction: Direction,
    pub flags: Flags,
    pub stream_id: i16,
    pub opcode: Opcode,
    pub body: Vec<u8>,
    pub tracing_id: Option<Vec<u8>>,
    pub warnings: Vec<String>,
}

/// Mathematical image of a frame.
pub ghost struct FrameView {
    pub version: Version,
    pub direction: Direction,
    pub flags: Flags,
    pub stream_id: i16,
    pub opcode: Opcode,
    pub body: Seq<u8>,
    pub tracing_id: Option<Seq<u8>>,
    pub warnings: Seq<Seq<char>>,
}

impl View for Frame {
    type V = FrameView;

    open spec fn view(&self) -> FrameView {
        FrameView {
            version: self.version,
            direction: self.direction,
            flags: self.flags,
            stream_id: self.stream_id,
            opcode: self.opcode,
            body: self.body@,
            tracing_id: match self.tracing_id {
                Some(t) => Some(t@),
                Option::None => Option::None,
            },
            warnings: views_of_strings(self.warnings@),
        }
    }
}

impl FrameView {
    /// A frame the codec round-trips. The tracing id and the warning list are
    /// response-side metadata: a response with the tracing flag carries its
    /// 16-byte id, while a request with that flag merely asks for tracing and
    /// carries none. The compression and custom-payload flags describe only
    /// the wire image, never a decoded frame.
    pub open spec fn wf(self) -> bool {
        &&& (self.flags.tracing && self.direction == Direction::Response) <==> self.tracing_id
            is Some
        &&& self.tracing_id is Some ==> self.tracing_id->0.len() == 16
        &&& !(self.flags.warning && self.direction == Direction::Response)
            ==> self.warnings.len() == 0
        &&& wf_strings(self.warnings)
        &&& !self.flags.compression
        &&& !self.flags.custom_payload
    }
}

impl Frame {
    /// Builds a frame from its parts; the stream id starts at zero and is
    /// assigned by the transport when the frame is sent.
    pub fn new(
        version: Version,
        direction: Direction,
        flags: Flags,
        opcode: Opcode,
        body: Vec<u8>,
        tracing_id: Option<Vec<u8>>,
        warnings: Vec<String>,
    ) -> (r: Frame)
        ensures
            r.version == version,
            r.direction == direction,
            r.flags == flags,
            r.stream_id == 0i16,
            r.opcode == opcode,
            r.body@ == body@,
            r@.tracing_id == (match tracing_id {
                Some(t) => Some::<Seq<u8>>(t@),
                Option::None => Option::None::<Seq<u8>>,
            }),
            r@.warnings == views_of_strings(warnings@),
    {
        Frame { version, direction, flags, stream_id: 0, opcode, body, tracing_id, warnings }
    }

    /// Sets the client-assigned stream id.
    pub fn set_stream_id(&mut self, id: i16)
        ensures
            *final(self) == (Frame { stream_id: id, ..*old(self) }),
    {
        self.stream_id = id;
    }

    /// The header this frame would be sent under, for a body of `body_len`
    /// wire bytes and the given wire flags.
    pub fn header_for(&self, flags: Flags, body_len: u32) -> (r: Header)
        ensures
            r == (Header {
                version: self.version,
                direction: self.direction,
                flags: flags,
                stream_id: self.stream_id,
                opcode: self.opcode,
                body_len: body_len,
            }),
    {
        Header {
            version: self.version,
            direction: self.direction,
            flags,
            stream_id: self.stream_id,
            opcode: self.opcode,
            body_len,
        }
    }
}

} // verus!
