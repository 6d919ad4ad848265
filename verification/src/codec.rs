//! The wire framing codec.
//!
//! Encoding builds the body envelope — tracing id and warning list when their
//! flags ask for them, then the body — compresses it when the session asks
//! for compression (never for STARTUP, which negotiates it), and prepends the
//! nine-byte header. Decoding inverts every step, and `encode_with` carries
//! the round trip in its contract: decoding an encoded frame, under every
//! supported compression setting, gives the frame back.

use vstd::prelude::*;
use crate::compression::{Compression, snappy_compressed, snappy_decompressed, lz4_compressed,
    lz4_decompressed, snappy_compress, snappy_decompress, lz4_compress, lz4_decompress};
use crate::error::CodecError;
use crate::frame::{Frame, FrameView, Flags, Header, Opcode, Direction, spec_header_bytes, spec_parse_header,
    serialize_header, parse_header};
use crate::wire::{spec_u32_be, spec_u32_from_be, spec_string_list, spec_parse_string_list_at,
    spec_parse_bytes_map_at, views_of_strings, put_bytes, put_u32_be, put_string_list, copy_range,
    get_u32_be, parse_string_list_at, skip_bytes_map_at, lemma_parse_string_list_embedded,
    lemma_u32_be_round_trip};

verus! {

/// The body envelope: tracing id and warning list under their flags, then
/// the body itself.
pub open spec fn spec_envelope(f: FrameView) -> Seq<u8> {
    (if f.flags.tracing && f.direction == Direction::Response && f.tracing_id is Some {
        f.tracing_id->0
    } else {
        Seq::<u8>::empty()
    }) + (if f.flags.warning && f.direction == Direction::Response {
        spec_string_list(f.warnings)
    } else {
        Seq::<u8>::empty()
    }) + f.body
}

/// Whether this frame's envelope goes out compressed: a configured scheme,
/// and never STARTUP.
pub open spec fn spec_compresses(f: FrameView, c: Compression) -> bool {
    c != Compression::Uncompressed && f.opcode != Opcode::Startup
}

/// The bytes after the header: the envelope, possibly compressed.
pub open spec fn spec_wire_payload(f: FrameView, c: Compression) -> Seq<u8> {
    if !spec_compresses(f, c) {
        spec_envelope(f)
    } else if c == Compression::Snappy {
        snappy_compressed(spec_envelope(f))
    } else {
        spec_u32_be(spec_envelope(f).len() as u32) + lz4_compressed(spec_envelope(f))
    }
}

/// The flags byte that goes on the wire.
pub open spec fn spec_wire_flags(f: FrameView, c: Compression) -> Flags {
    Flags { compression: spec_compresses(f, c), ..f.flags }
}

/// The header an encoded frame goes out under.
pub open spec fn spec_wire_header(f: FrameView, c: Compression) -> Header {
    Header {
        version: f.version,
        direction: f.direction,
        flags: spec_wire_flags(f, c),
        stream_id: f.stream_id,
        opcode: f.opcode,
        body_len: spec_wire_payload(f, c).len() as u32,
    }
}

/// The full wire image of a frame under a compression setting.
pub open spec fn spec_encode_frame(f: FrameView, c: Compression) -> Seq<u8> {
    spec_header_bytes(spec_wire_header(f, c)) + spec_wire_payload(f, c)
}

/// Whether a frame's wire image exists under a compression setting: the
/// payload fits the header's length field, and under Snappy the envelope is
/// within the compressor's input bound.
pub open spec fn spec_encodable(f: FrameView, c: Compression) -> bool {
    &&& spec_wire_payload(f, c).len() <= 0xFFFF_FFFF
    &&& (spec_compresses(f, c) && c == Compression::Snappy ==> 32 + spec_envelope(f).len()
        + spec_envelope(f).len() / 6 <= 0xFFFF_FFFF)
}

/// Decodes the envelope under the header's flags: strips the tracing id,
/// the warning list, and a custom-payload map, leaving the body.
pub open spec fn spec_decode_envelope(h: Header, env: Seq<u8>) -> Result<FrameView, CodecError> {
    let from_server = h.direction == Direction::Response;
    let p0: int = if h.flags.tracing && from_server {
        16
    } else {
        0
    };
    if env.len() < p0 {
        Err(CodecError::UnexpectedEnd)
    } else {
        let tracing_id: Option<Seq<u8>> = if h.flags.tracing && from_server {
            Some(env.take(16))
        } else {
            Option::None
        };
        let wr: Result<(Seq<Seq<char>>, int), CodecError> = if h.flags.warning && from_server {
            spec_parse_string_list_at(env, p0)
        } else {
            Ok((Seq::empty(), p0))
        };
        match wr {
            Err(e) => Err(e),
            Ok((warnings, p1)) => {
                let pr: Result<int, CodecError> = if h.flags.custom_payload {
                    spec_parse_bytes_map_at(env, p1)
                } else {
                    Ok(p1)
                };
                match pr {
                    Err(e) => Err(e),
                    Ok(p2) => Ok(
                        FrameView {
                            version: h.version,
                            direction: h.direction,
                            flags: Flags { compression: false, ..h.flags },
                            stream_id: h.stream_id,
                            opcode: h.opcode,
                            body: env.skip(p2),
                            tracing_id,
                            warnings,
                        },
                    ),
                }
            },
        }
    }
}

/// Decodes a full wire image: header, length check, decompression under the
/// configured scheme, then the envelope.
pub open spec fn spec_decode_frame(s: Seq<u8>, c: Compression) -> Result<FrameView, CodecError> {
    match spec_parse_header(s) {
        Err(e) => Err(e),
        Ok(h) => {
            if s.len() != 9 + h.body_len {
                Err(CodecError::LengthMismatch)
            } else {
                let payload = s.skip(9);
                let env_r: Result<Seq<u8>, CodecError> = if !h.flags.compression {
                    Ok(payload)
                } else if c == Compression::Uncompressed {
                    Err(CodecError::UnknownCompression)
                } else if c == Compression::Snappy {
                    match snappy_decompressed(payload) {
                        Some(env) => Ok(env),
                        Option::None => Err(CodecError::DecompressionFailed),
                    }
                } else {
                    if payload.len() < 4 {
                        Err(CodecError::UnexpectedEnd)
                    } else {
                        let n = spec_u32_from_be(payload[0], payload[1], payload[2], payload[3]);
                        match lz4_decompressed(payload.skip(4), n as nat) {
                            Some(env) => if env.len() == n {
                                Ok(env)
                            } else {
                                Err(CodecError::LengthMismatch)
                            },
                            Option::None => Err(CodecError::DecompressionFailed),
                        }
                    }
                };
                match env_r {
                    Err(e) => Err(e),
                    Ok(env) => spec_decode_envelope(h, env),
                }
            }
        },
    }
}

/// The header of a well-formed frame's wire image decodes the envelope back
/// to the frame itself.
pub proof fn lemma_decode_envelope_round_trip(f: FrameView, h: Header)
    requires
        f.wf(),
        h.version == f.version,
        h.direction == f.direction,
        h.stream_id == f.stream_id,
        h.opcode == f.opcode,
        h.flags.tracing == f.flags.tracing,
        h.flags.warning == f.flags.warning,
        h.flags.custom_payload == f.flags.custom_payload,
    ensures
        spec_decode_envelope(h, spec_envelope(f)) == Ok::<FrameView, CodecError>(f),
{
    let env = spec_envelope(f);
    let from_server = f.direction == Direction::Response;
    let t: Seq<u8> = if f.flags.tracing && from_server && f.tracing_id is Some {
        f.tracing_id->0
    } else {
        Seq::<u8>::empty()
    };
    let w: Seq<u8> = if f.flags.warning && from_server {
        spec_string_list(f.warnings)
    } else {
        Seq::<u8>::empty()
    };
    assert(env == t + w + f.body);
    let p0: int = if h.flags.tracing && from_server {
        16
    } else {
        0
    };
    assert(t.len() == p0);
    assert(env.len() >= p0);
    if h.flags.tracing && from_server {
        assert(env.take(16) =~= t);
        assert(f.tracing_id == Some(t));
    }
    if h.flags.warning && from_server {
        assert(env.subrange(p0, p0 + w.len() as int) =~= w);
        lemma_parse_string_list_embedded(env, p0, f.warnings);
        assert(spec_parse_string_list_at(env, p0) == Ok::<(Seq<Seq<char>>, int), CodecError>(
            (f.warnings, p0 + w.len()),
        ));
    } else {
        assert(f.warnings.len() == 0);
        assert(f.warnings =~= Seq::<Seq<char>>::empty());
    }
    let p1: int = p0 + w.len();
    assert(!h.flags.custom_payload);
    assert(env.skip(p1) =~= f.body);
    assert(Flags { compression: false, ..h.flags } == f.flags);
}

/// The wire image of a well-formed frame decodes back to the frame, given
/// that the payload inverts: for the compressed settings, that the configured
/// decompressor maps the payload back to the envelope, which the compressor
/// call in [`encode_with`] supplies.
pub proof fn lemma_decode_of_encoded(f: FrameView, c: Compression)
    requires
        f.wf(),
        spec_wire_payload(f, c).len() <= 0xFFFF_FFFF,
        spec_compresses(f, c) && c == Compression::Snappy ==> snappy_decompressed(
            spec_wire_payload(f, c),
        ) == Some(spec_envelope(f)),
        spec_compresses(f, c) && c == Compression::Lz4 ==> lz4_decompressed(
            spec_wire_payload(f, c).skip(4),
            spec_envelope(f).len(),
        ) == Some(spec_envelope(f)) && spec_envelope(f).len() <= 0xFFFF_FFFF,
    ensures
        spec_decode_frame(spec_encode_frame(f, c), c) == Ok::<FrameView, CodecError>(f),
{
    let h = spec_wire_header(f, c);
    let payload = spec_wire_payload(f, c);
    let s = spec_encode_frame(f, c);
    crate::frame::lemma_parse_header_prefix(h, payload);
    assert(spec_parse_header(s) == Ok::<Header, CodecError>(h));
    assert(s.len() == 9 + h.body_len);
    assert(s.skip(9) =~= payload);
    if spec_compresses(f, c) {
        assert(h.flags.compression);
        if c == Compression::Lz4 {
            let env = spec_envelope(f);
            lemma_u32_be_round_trip(env.len() as u32);
            assert(payload == spec_u32_be(env.len() as u32) + lz4_compressed(env));
            assert(payload.len() >= 4);
            assert(payload[0] == spec_u32_be(env.len() as u32)[0]);
            assert(payload[1] == spec_u32_be(env.len() as u32)[1]);
            assert(payload[2] == spec_u32_be(env.len() as u32)[2]);
            assert(payload[3] == spec_u32_be(env.len() as u32)[3]);
            assert(spec_u32_from_be(payload[0], payload[1], payload[2], payload[3]) == env.len()
                as u32);
        }
    } else {
        assert(!h.flags.compression);
    }
    lemma_decode_envelope_round_trip(f, h);
}

/// The wire image of a well-formed frame decodes back to the frame, when no
/// compression is configured. The compressed settings carry the same fact in
/// the contract of [`encode_with`].
pub proof fn lemma_round_trip_uncompressed(f: FrameView)
    requires
        f.wf(),
        spec_envelope(f).len() <= 0xFFFF_FFFF,
    ensures
        spec_decode_frame(spec_encode_frame(f, Compression::Uncompressed),
            Compression::Uncompressed) == Ok::<FrameView, CodecError>(f),
{
    lemma_decode_of_encoded(f, Compression::Uncompressed);
}

/// Encodes a frame for the wire under the session's compression setting.
///
/// Success comes exactly when the wire image exists — the payload fits the
/// length field, and Snappy accepts the envelope — which the uncompressed
/// path always does. On success the result is exactly the frame's wire
/// image, and decoding it under the same setting gives the frame back.
#[verifier::rlimit(100)]
pub fn encode_with(frame: &Frame, compression: Compression) -> (r: Result<Vec<u8>, CodecError>)
    requires
        frame@.wf(),
        spec_envelope(frame@).len() <= 0xFFFF_FFFF,
    ensures
        r is Ok <==> spec_encodable(frame@, compression),
        match r {
            Ok(bytes) => bytes@ == spec_encode_frame(frame@, compression) && spec_decode_frame(
                bytes@,
                compression,
            ) == Ok::<FrameView, CodecError>(frame@),
            Err(e) => e == CodecError::BodyTooLong,
        },
{
    let ghost f = frame@;
    let from_server = matches!(frame.direction, Direction::Response);
    let mut env: Vec<u8> = Vec::new();
    if frame.flags.tracing && from_server {
        match &frame.tracing_id {
            Some(t) => put_bytes(&mut env, t),
            Option::None => {},
        }
    }
    if frame.flags.warning && from_server {
        put_string_list(&mut env, &frame.warnings);
    }
    put_bytes(&mut env, &frame.body);
    assert(env@ =~= spec_envelope(f));

    let compresses = match compression {
        Compression::Uncompressed => false,
        _ => !matches!(frame.opcode, Opcode::Startup),
    };
    assert(compresses == spec_compresses(f, compression));

    let ghost env_view = env@;
    let payload: Vec<u8> = if !compresses {
        env
    } else if matches!(compression, Compression::Snappy) {
        match snappy_compress(&env) {
            Some(v) => v,
            Option::None => {
                return Err(CodecError::BodyTooLong);
            },
        }
    } else {
        let block = lz4_compress(&env);
        let mut out: Vec<u8> = Vec::new();
        put_u32_be(&mut out, env.len() as u32);
        put_bytes(&mut out, &block);
        out
    };
    assert(payload@ == spec_wire_payload(f, compression));

    if payload.len() > 0xFFFF_FFFFusize {
        return Err(CodecError::BodyTooLong);
    }
    let wire_flags = Flags {
        compression: compresses,
        tracing: frame.flags.tracing,
        custom_payload: frame.flags.custom_payload,
        warning: frame.flags.warning,
    };
    assert(wire_flags == spec_wire_flags(f, compression));
    let header = frame.header_for(wire_flags, payload.len() as u32);
    assert(header == spec_wire_header(f, compression));
    let mut bytes = serialize_header(&header);
    put_bytes(&mut bytes, &payload);
    assert(bytes@ =~= spec_encode_frame(f, compression));

    proof {
        if compresses && compression == Compression::Lz4 {
            assert(payload@.skip(4) =~= lz4_compressed(env_view));
        }
        lemma_decode_of_encoded(f, compression);
    }
    Ok(bytes)
}

/// Decodes one full wire image under the session's compression setting.
///
/// The result is exactly what the spec-level decoder says, value and error
/// alike: a malformed frame yields its protocol error, never a panic.
pub fn decode_frame(bytes: &Vec<u8>, compression: Compression) -> (r: Result<Frame, CodecError>)
    ensures
        match r {
            Ok(f) => spec_decode_frame(bytes@, compression) == Ok::<FrameView, CodecError>(f@),
            Err(e) => spec_decode_frame(bytes@, compression) == Err::<FrameView, CodecError>(e),
        },
{
    let header = match parse_header(bytes) {
        Ok(h) => h,
        Err(e) => {
            return Err(e);
        },
    };
    if bytes.len() - 9 != header.body_len as usize {
        return Err(CodecError::LengthMismatch);
    }
    let payload = copy_range(bytes, 9, bytes.len());
    assert(payload@ =~= bytes@.skip(9));
    let env: Vec<u8> = if !header.flags.compression {
        payload
    } else if matches!(compression, Compression::Uncompressed) {
        return Err(CodecError::UnknownCompression);
    } else if matches!(compression, Compression::Snappy) {
        match snappy_decompress(&payload) {
            Some(e) => e,
            Option::None => {
                return Err(CodecError::DecompressionFailed);
            },
        }
    } else {
        if payload.len() < 4 {
            return Err(CodecError::UnexpectedEnd);
        }
        let n = get_u32_be(&payload, 0);
        let block = copy_range(&payload, 4, payload.len());
        assert(block@ =~= payload@.skip(4));
        match lz4_decompress(&block, n as usize) {
            Some(e) => {
                if e.len() != n as usize {
                    return Err(CodecError::LengthMismatch);
                }
                e
            },
            Option::None => {
                return Err(CodecError::DecompressionFailed);
            },
        }
    };
    decode_envelope(&header, env)
}

/// Decodes the envelope under the header's flags.
fn decode_envelope(header: &Header, env: Vec<u8>) -> (r: Result<Frame, CodecError>)
    ensures
        match r {
            Ok(f) => spec_decode_envelope(*header, env@) == Ok::<FrameView, CodecError>(f@),
            Err(e) => spec_decode_envelope(*header, env@) == Err::<FrameView, CodecError>(e),
        },
{
    let mut pos: usize = 0;
    let from_server = matches!(header.direction, Direction::Response);
    let tracing_id: Option<Vec<u8>> = if header.flags.tracing && from_server {
        if env.len() < 16 {
            return Err(CodecError::UnexpectedEnd);
        }
        let t = copy_range(&env, 0, 16);
        assert(t@ =~= env@.take(16));
        pos = 16;
        Some(t)
    } else {
        Option::None
    };
    let warnings: Vec<String> = if header.flags.warning && from_server {
        match parse_string_list_at(&env, pos) {
            Ok((ws, p)) => {
                pos = p;
                ws
            },
            Err(e) => {
                return Err(e);
            },
        }
    } else {
        Vec::new()
    };
    if header.flags.custom_payload {
        match skip_bytes_map_at(&env, pos) {
            Ok(p) => {
                pos = p;
            },
            Err(e) => {
                return Err(e);
            },
        }
    }
    let body = copy_range(&env, pos, env.len());
    assert(body@ =~= env@.skip(pos as int));
    let frame = Frame {
        version: header.version,
        direction: header.direction,
        flags: Flags {
            compression: false,
            tracing: header.flags.tracing,
            custom_payload: header.flags.custom_payload,
            warning: header.flags.warning,
        },
        stream_id: header.stream_id,
        opcode: header.opcode,
        body,
        tracing_id,
        warnings,
    };
    assert(views_of_strings(Seq::<String>::empty()) =~= Seq::<Seq<char>>::empty());
    Ok(frame)
}

} // verus!
