//! Big-endian wire primitives of the CQL binary protocol: unsigned and signed
//! 8/16/32-bit integers, `[string]`, `[string list]`, `[string map]`,
//! `[bytes]` and `[short bytes]`.
//!
//! Each form has a spec-level byte image (`spec_*`), a positional spec parser
//! (`spec_parse_*_at`), lemmas showing that an image embedded in a larger
//! buffer parses back to the value it came from, and exec serializers and
//! parsers proved against them.

use vstd::prelude::*;
use vstd::utf8::{valid_utf8, decode_utf8, encode_utf8, encode_utf8_valid_utf8,
    encode_utf8_decode_utf8};
use crate::error::CodecError;

verus! {

// ---------------------------------------------------------------------------
// Fixed-width integers
// ---------------------------------------------------------------------------

/// Spec image of a `u16` as two big-endian bytes.
pub open spec fn spec_u16_be(v: u16) -> Seq<u8> {
    seq![(v / 256) as u8, (v % 256) as u8]
}

/// Spec image of a `u32` as four big-endian bytes.
pub open spec fn spec_u32_be(v: u32) -> Seq<u8> {
    seq![
        (v / 0x1000000) as u8,
        ((v / 0x10000) % 256) as u8,
        ((v / 256) % 256) as u8,
        (v % 256) as u8,
    ]
}

/// The `u16` denoted by two big-endian bytes.
pub open spec fn spec_u16_from_be(b0: u8, b1: u8) -> u16 {
    (b0 * 256 + b1) as u16
}

/// The `u32` denoted by four big-endian bytes.
pub open spec fn spec_u32_from_be(b0: u8, b1: u8, b2: u8, b3: u8) -> u32 {
    (b0 * 0x1000000 + b1 * 0x10000 + b2 * 256 + b3) as u32
}

pub proof fn lemma_u16_be_round_trip(v: u16)
    ensures
        spec_u16_from_be(spec_u16_be(v)[0], spec_u16_be(v)[1]) == v,
{
}

pub proof fn lemma_u32_be_round_trip(v: u32)
    ensures
        spec_u32_from_be(spec_u32_be(v)[0], spec_u32_be(v)[1], spec_u32_be(v)[2], spec_u32_be(v)[3])
            == v,
{
}

/// A signed 16-bit value survives the round trip through its unsigned carrier.
pub proof fn lemma_i16_cast_round_trip(v: i16)
    ensures
        (v as u16) as i16 == v,
{
    assert((v as u16) as i16 == v) by (bit_vector);
}

/// Appends the two big-endian bytes of `v`.
pub fn put_u16_be(out: &mut Vec<u8>, v: u16)
    ensures
        final(out)@ == old(out)@ + spec_u16_be(v),
{
    out.push((v / 256) as u8);
    out.push((v % 256) as u8);
    assert(out@ =~= old(out)@ + spec_u16_be(v));
}

/// Appends the four big-endian bytes of `v`.
pub fn put_u32_be(out: &mut Vec<u8>, v: u32)
    ensures
        final(out)@ == old(out)@ + spec_u32_be(v),
{
    out.push((v / 0x1000000) as u8);
    out.push(((v / 0x10000) % 256) as u8);
    out.push(((v / 256) % 256) as u8);
    out.push((v % 256) as u8);
    assert(out@ =~= old(out)@ + spec_u32_be(v));
}

/// Reads two big-endian bytes at `pos`.
pub fn get_u16_be(data: &Vec<u8>, pos: usize) -> (r: u16)
    requires
        pos + 2 <= data.len(),
    ensures
        r == spec_u16_from_be(data@[pos as int], data@[pos + 1]),
{
    let b0 = data[pos];
    let b1 = data[pos + 1];
    (b0 as u16) * 256 + (b1 as u16)
}

/// Reads four big-endian bytes at `pos`.
pub fn get_u32_be(data: &Vec<u8>, pos: usize) -> (r: u32)
    requires
        pos + 4 <= data.len(),
    ensures
        r == spec_u32_from_be(data@[pos as int], data@[pos + 1], data@[pos + 2], data@[pos + 3]),
{
    let b0 = data[pos];
    let b1 = data[pos + 1];
    let b2 = data[pos + 2];
    let b3 = data[pos + 3];
    (b0 as u32) * 0x1000000 + (b1 as u32) * 0x10000 + (b2 as u32) * 256 + (b3 as u32)
}

/// Spec image of a `u64` as eight big-endian bytes.
pub open spec fn spec_u64_be(v: u64) -> Seq<u8> {
    spec_u32_be((v / 0x100000000) as u32) + spec_u32_be((v % 0x100000000) as u32)
}

/// Appends the eight big-endian bytes of `v`.
pub fn put_u64_be(out: &mut Vec<u8>, v: u64)
    ensures
        final(out)@ == old(out)@ + spec_u64_be(v),
{
    put_u32_be(out, (v / 0x100000000) as u32);
    put_u32_be(out, (v % 0x100000000) as u32);
    assert(out@ =~= old(out)@ + spec_u64_be(v));
}

/// The concatenation of the byte images of a sequence's elements.
pub open spec fn spec_concat<A>(s: Seq<A>, f: spec_fn(A) -> Seq<u8>) -> Seq<u8>
    decreases s.len(),
{
    if s.len() == 0 {
        Seq::empty()
    } else {
        f(s[0]) + spec_concat(s.drop_first(), f)
    }
}

/// Taking one more element extends the concatenation at its end.
pub proof fn lemma_spec_concat_push<A>(s: Seq<A>, f: spec_fn(A) -> Seq<u8>, i: int)
    requires
        0 <= i < s.len(),
    ensures
        spec_concat(s.take(i + 1), f) == spec_concat(s.take(i), f) + f(s[i]),
    decreases i,
{
    if i == 0 {
        assert(s.take(1) =~= seq![s[0]]);
        assert(s.take(1)[0] == s[0]);
        assert(s.take(1).drop_first() =~= Seq::<A>::empty());
        assert(spec_concat(Seq::<A>::empty(), f) == Seq::<u8>::empty());
        assert(s.take(0) =~= Seq::<A>::empty());
        assert(spec_concat(s.take(1), f) == f(s[0]) + spec_concat(s.take(1).drop_first(), f));
        assert(spec_concat(s.take(1), f) =~= spec_concat(s.take(0), f) + f(s[0]));
    } else {
        let t1 = s.take(i + 1);
        let t0 = s.take(i);
        assert(t1[0] == s[0] && t0[0] == s[0]);
        assert(t1.drop_first() =~= s.drop_first().take(i));
        assert(t0.drop_first() =~= s.drop_first().take(i - 1));
        lemma_spec_concat_push(s.drop_first(), f, i - 1);
        assert(s.drop_first()[i - 1] == s[i]);
        assert(spec_concat(t1, f) == f(s[0]) + spec_concat(s.drop_first().take(i), f));
        assert(spec_concat(t0, f) == f(s[0]) + spec_concat(s.drop_first().take(i - 1), f));
        assert(spec_concat(t1, f) =~= spec_concat(t0, f) + f(s[i]));
    }
}

/// Copies `data[start..end]` into a fresh vector.
pub fn copy_range(data: &Vec<u8>, start: usize, end: usize) -> (r: Vec<u8>)
    requires
        start <= end,
        end <= data.len(),
    ensures
        r@ == data@.subrange(start as int, end as int),
{
    let mut out: Vec<u8> = Vec::new();
    let mut i: usize = start;
    while i < end
        invariant
            start <= i <= end,
            end <= data.len(),
            out@ == data@.subrange(start as int, i as int),
        decreases end - i,
    {
        out.push(data[i]);
        assert(out@ =~= data@.subrange(start as int, i + 1));
        i = i + 1;
    }
    out
}

/// Appends every byte of `extra`.
pub fn put_bytes(out: &mut Vec<u8>, extra: &Vec<u8>)
    ensures
        final(out)@ == old(out)@ + extra@,
{
    let mut i: usize = 0;
    while i < extra.len()
        invariant
            i <= extra.len(),
            out@ == old(out)@ + extra@.subrange(0, i as int),
        decreases extra.len() - i,
    {
        out.push(extra[i]);
        assert(out@ =~= old(out)@ + extra@.subrange(0, i + 1));
        i = i + 1;
    }
    assert(out@ =~= old(out)@ + extra@);
}

// ---------------------------------------------------------------------------
// [string]: a u16 byte length followed by that many bytes of UTF-8
// ---------------------------------------------------------------------------

/// A character sequence fits a `[string]`: its UTF-8 image fits a u16 length.
pub open spec fn wf_string(w: Seq<char>) -> bool {
    encode_utf8(w).len() <= 0xFFFF
}

/// A UTF-8 image is at most four bytes per character, so any string of at
/// most 16383 characters fits a `[string]`.
pub proof fn lemma_encode_utf8_len_bound(chars: Seq<char>)
    ensures
        encode_utf8(chars).len() <= 4 * chars.len(),
    decreases chars.len(),
{
    if chars.len() == 0 {
    } else {
        assert(vstd::utf8::encode_scalar(chars[0] as u32).len() <= 4);
        lemma_encode_utf8_len_bound(chars.drop_first());
    }
}

/// Spec image of a `[string]`.
pub open spec fn spec_string(w: Seq<char>) -> Seq<u8> {
    spec_u16_be(encode_utf8(w).len() as u16) + encode_utf8(w)
}

/// Spec parser for a `[string]` at `pos`; returns the value and the position
/// after it.
pub open spec fn spec_parse_string_at(s: Seq<u8>, pos: int) -> Result<(Seq<char>, int), CodecError> {
    if !(0 <= pos && pos + 2 <= s.len()) {
        Err(CodecError::UnexpectedEnd)
    } else {
        let n = spec_u16_from_be(s[pos], s[pos + 1]) as int;
        if pos + 2 + n > s.len() {
            Err(CodecError::UnexpectedEnd)
        } else if !valid_utf8(s.subrange(pos + 2, pos + 2 + n)) {
            Err(CodecError::InvalidStringEncoding)
        } else {
            Ok((decode_utf8(s.subrange(pos + 2, pos + 2 + n)), pos + 2 + n))
        }
    }
}

/// A `[string]` image embedded in a larger buffer parses back to its value.
pub proof fn lemma_parse_string_embedded(s: Seq<u8>, pos: int, w: Seq<char>)
    requires
        wf_string(w),
        0 <= pos,
        pos + spec_string(w).len() <= s.len(),
        s.subrange(pos, pos + spec_string(w).len() as int) == spec_string(w),
    ensures
        spec_parse_string_at(s, pos) == Ok::<(Seq<char>, int), CodecError>(
            (w, pos + spec_string(w).len()),
        ),
{
    let img = spec_string(w);
    let u = encode_utf8(w);
    let n = u.len() as int;
    assert(img.len() == 2 + n);
    assert(s[pos] == img[0] && s[pos + 1] == img[1]) by {
        assert(s.subrange(pos, pos + img.len() as int)[0] == s[pos]);
        assert(s.subrange(pos, pos + img.len() as int)[1] == s[pos + 1]);
    }
    lemma_u16_be_round_trip(u.len() as u16);
    assert(spec_u16_from_be(s[pos], s[pos + 1]) as int == n);
    assert(s.subrange(pos + 2, pos + 2 + n) =~= u) by {
        assert forall|i: int| 0 <= i < n implies s.subrange(pos + 2, pos + 2 + n)[i] == u[i] by {
            assert(s.subrange(pos, pos + img.len() as int)[i + 2] == img[i + 2]);
            assert(img[i + 2] == u[i]);
        }
    }
    encode_utf8_valid_utf8(w);
    encode_utf8_decode_utf8(w);
}

/// Appends the `[string]` image of `s`.
pub fn put_str(out: &mut Vec<u8>, s: &str)
    requires
        wf_string(s@),
    ensures
        final(out)@ == old(out)@ + spec_string(s@),
{
    let bytes = vstd::string::StrSliceExecFns::as_bytes_vec(s);
    put_u16_be(out, bytes.len() as u16);
    put_bytes(out, &bytes);
    assert(out@ =~= old(out)@ + spec_string(s@));
}

/// Relies on `String::from_utf8`: it returns `Ok` exactly on valid UTF-8
/// input, decoding it; otherwise it reports the encoding error.
#[verifier::external_body]
pub fn string_from_utf8(bytes: Vec<u8>) -> (r: Option<String>)
    ensures
        r is Some <==> valid_utf8(bytes@),
        r is Some ==> r->0@ == decode_utf8(bytes@),
{
    String::from_utf8(bytes).ok()
}

/// Parses a `[string]` at `pos`.
pub fn parse_string_at(data: &Vec<u8>, pos: usize) -> (r: Result<(String, usize), CodecError>)
    ensures
        match r {
            Ok((w, p)) => spec_parse_string_at(data@, pos as int) == Ok::<(Seq<char>, int),
                CodecError>((w@, p as int)) && pos <= p <= data.len(),
            Err(e) => spec_parse_string_at(data@, pos as int) == Err::<(Seq<char>, int),
                CodecError>(e),
        },
{
    if data.len() < 2 || pos > data.len() - 2 {
        return Err(CodecError::UnexpectedEnd);
    }
    let n = get_u16_be(data, pos) as usize;
    if n > data.len() - (pos + 2) {
        return Err(CodecError::UnexpectedEnd);
    }
    let bytes = copy_range(data, pos + 2, pos + 2 + n);
    match string_from_utf8(bytes) {
        Some(w) => Ok((w, pos + 2 + n)),
        None => Err(CodecError::InvalidStringEncoding),
    }
}

// ---------------------------------------------------------------------------
// [string list]: a u16 count followed by that many [string]s
// ---------------------------------------------------------------------------

/// Every string fits, and the count fits a u16.
pub open spec fn wf_strings(ws: Seq<Seq<char>>) -> bool {
    ws.len() <= 0xFFFF && forall|i: int| 0 <= i < ws.len() ==> wf_string(#[trigger] ws[i])
}

/// Spec image of the concatenated `[string]`s, without the count.
pub open spec fn spec_strings(ws: Seq<Seq<char>>) -> Seq<u8>
    decreases ws.len(),
{
    if ws.len() == 0 {
        Seq::empty()
    } else {
        spec_string(ws[0]) + spec_strings(ws.drop_first())
    }
}

/// Spec image of a `[string list]`.
pub open spec fn spec_string_list(ws: Seq<Seq<char>>) -> Seq<u8> {
    spec_u16_be(ws.len() as u16) + spec_strings(ws)
}

/// Spec parser for `count` consecutive `[string]`s at `pos`.
pub open spec fn spec_parse_strings_at(s: Seq<u8>, pos: int, count: nat) -> Result<
    (Seq<Seq<char>>, int),
    CodecError,
>
    decreases count,
{
    if count == 0 {
        Ok((Seq::empty(), pos))
    } else {
        match spec_parse_string_at(s, pos) {
            Err(e) => Err(e),
            Ok((w, p)) => match spec_parse_strings_at(s, p, (count - 1) as nat) {
                Err(e) => Err(e),
                Ok((ws, p2)) => Ok((seq![w] + ws, p2)),
            },
        }
    }
}

/// Spec parser for a `[string list]` at `pos`.
pub open spec fn spec_parse_string_list_at(s: Seq<u8>, pos: int) -> Result<
    (Seq<Seq<char>>, int),
    CodecError,
> {
    if !(0 <= pos && pos + 2 <= s.len()) {
        Err(CodecError::UnexpectedEnd)
    } else {
        spec_parse_strings_at(s, pos + 2, spec_u16_from_be(s[pos], s[pos + 1]) as nat)
    }
}

/// Concatenated `[string]` images embedded in a buffer parse back in order.
pub proof fn lemma_parse_strings_embedded(s: Seq<u8>, pos: int, ws: Seq<Seq<char>>)
    requires
        wf_strings(ws),
        0 <= pos,
        pos + spec_strings(ws).len() <= s.len(),
        s.subrange(pos, pos + spec_strings(ws).len() as int) == spec_strings(ws),
    ensures
        spec_parse_strings_at(s, pos, ws.len()) == Ok::<(Seq<Seq<char>>, int), CodecError>(
            (ws, pos + spec_strings(ws).len()),
        ),
    decreases ws.len(),
{
    if ws.len() == 0 {
        assert(spec_strings(ws).len() == 0);
        assert(ws =~= Seq::<Seq<char>>::empty());
        assert(spec_parse_strings_at(s, pos, 0) == Ok::<(Seq<Seq<char>>, int), CodecError>(
            (Seq::empty(), pos),
        ));
    } else {
        let w0 = ws[0];
        let rest = ws.drop_first();
        let img0 = spec_string(w0);
        let img_rest = spec_strings(rest);
        assert(spec_strings(ws) == img0 + img_rest);
        assert(s.subrange(pos, pos + img0.len() as int) =~= img0) by {
            assert forall|i: int| 0 <= i < img0.len() implies s.subrange(
                pos,
                pos + img0.len() as int,
            )[i] == img0[i] by {
                assert(s.subrange(pos, pos + spec_strings(ws).len() as int)[i] == spec_strings(
                    ws,
                )[i]);
                assert(spec_strings(ws)[i] == img0[i]);
            }
        }
        lemma_parse_string_embedded(s, pos, w0);
        let p1 = pos + img0.len();
        assert(s.subrange(p1, p1 + img_rest.len() as int) =~= img_rest) by {
            assert forall|i: int| 0 <= i < img_rest.len() implies s.subrange(
                p1,
                p1 + img_rest.len() as int,
            )[i] == img_rest[i] by {
                assert(s.subrange(pos, pos + spec_strings(ws).len() as int)[i + img0.len()]
                    == spec_strings(ws)[i + img0.len()]);
                assert(spec_strings(ws)[i + img0.len()] == img_rest[i]);
            }
        }
        assert(forall|i: int| 0 <= i < rest.len() ==> rest[i] == ws[i + 1]);
        assert(wf_strings(rest));
        lemma_parse_strings_embedded(s, p1, rest);
        assert(spec_parse_string_at(s, pos) == Ok::<(Seq<char>, int), CodecError>((w0, p1)));
        assert(spec_parse_strings_at(s, p1, rest.len()) == Ok::<(Seq<Seq<char>>, int), CodecError>(
            (rest, p1 + img_rest.len()),
        ));
        assert((ws.len() - 1) as nat == rest.len());
        assert(spec_parse_strings_at(s, pos, ws.len()) == Ok::<(Seq<Seq<char>>, int), CodecError>(
            (seq![w0] + rest, p1 + img_rest.len()),
        ));
        assert(seq![w0] + rest =~= ws);
        assert(pos + spec_strings(ws).len() == p1 + img_rest.len());
    }
}

/// A `[string list]` image embedded in a buffer parses back to its list.
pub proof fn lemma_parse_string_list_embedded(s: Seq<u8>, pos: int, ws: Seq<Seq<char>>)
    requires
        wf_strings(ws),
        0 <= pos,
        pos + spec_string_list(ws).len() <= s.len(),
        s.subrange(pos, pos + spec_string_list(ws).len() as int) == spec_string_list(ws),
    ensures
        spec_parse_string_list_at(s, pos) == Ok::<(Seq<Seq<char>>, int), CodecError>(
            (ws, pos + spec_string_list(ws).len()),
        ),
{
    let img = spec_string_list(ws);
    let body = spec_strings(ws);
    assert(s[pos] == img[0] && s[pos + 1] == img[1]) by {
        assert(s.subrange(pos, pos + img.len() as int)[0] == s[pos]);
        assert(s.subrange(pos, pos + img.len() as int)[1] == s[pos + 1]);
    }
    lemma_u16_be_round_trip(ws.len() as u16);
    assert(spec_u16_from_be(s[pos], s[pos + 1]) as nat == ws.len());
    assert(s.subrange(pos + 2, pos + 2 + body.len() as int) =~= body) by {
        assert forall|i: int| 0 <= i < body.len() implies s.subrange(
            pos + 2,
            pos + 2 + body.len() as int,
        )[i] == body[i] by {
            assert(s.subrange(pos, pos + img.len() as int)[i + 2] == img[i + 2]);
            assert(img[i + 2] == body[i]);
        }
    }
    lemma_parse_strings_embedded(s, pos + 2, ws);
}

/// The views of a vector of strings.
pub open spec fn views_of_strings(v: Seq<String>) -> Seq<Seq<char>> {
    v.map_values(|s: String| s@)
}

/// Appends the `[string list]` image of `ws`.
pub fn put_string_list(out: &mut Vec<u8>, ws: &Vec<String>)
    requires
        wf_strings(views_of_strings(ws@)),
    ensures
        final(out)@ == old(out)@ + spec_string_list(views_of_strings(ws@)),
{
    let ghost wsv = views_of_strings(ws@);
    put_u16_be(out, ws.len() as u16);
    let mut i: usize = 0;
    while i < ws.len()
        invariant
            i <= ws.len(),
            wf_strings(wsv),
            wsv == views_of_strings(ws@),
            out@ == old(out)@ + spec_u16_be(ws.len() as u16) + spec_strings(wsv.take(i as int)),
        decreases ws.len() - i,
    {
        let ghost before = out@;
        proof {
            assert(wsv[i as int] == ws@[i as int]@);
            assert(wf_string(wsv[i as int]));
        }
        put_str(out, ws[i].as_str());
        proof {
            lemma_spec_strings_push(wsv, i as int);
        }
        assert(out@ =~= old(out)@ + spec_u16_be(ws.len() as u16) + spec_strings(
            wsv.take(i + 1),
        ));
        i = i + 1;
    }
    assert(wsv.take(ws.len() as int) =~= wsv);
    assert(out@ =~= old(out)@ + spec_string_list(wsv));
}

/// Appending one more string extends the concatenated image at its end.
pub proof fn lemma_spec_strings_push(ws: Seq<Seq<char>>, i: int)
    requires
        0 <= i < ws.len(),
    ensures
        spec_strings(ws.take(i + 1)) == spec_strings(ws.take(i)) + spec_string(ws[i]),
    decreases i,
{
    if i == 0 {
        assert(ws.take(1) =~= seq![ws[0]]);
        assert(ws.take(1).len() == 1);
        assert(ws.take(1)[0] == ws[0]);
        assert(ws.take(1).drop_first() =~= Seq::<Seq<char>>::empty());
        assert(spec_strings(Seq::<Seq<char>>::empty()) == Seq::<u8>::empty());
        assert(ws.take(0) =~= Seq::<Seq<char>>::empty());
        assert(spec_strings(ws.take(0)) == Seq::<u8>::empty());
        assert(spec_strings(ws.take(1)) == spec_string(ws[0]) + spec_strings(
            ws.take(1).drop_first(),
        ));
        assert(spec_strings(ws.take(1)) =~= spec_strings(ws.take(0)) + spec_string(ws[0]));
    } else {
        let t1 = ws.take(i + 1);
        let t0 = ws.take(i);
        assert(t1[0] == ws[0] && t0[0] == ws[0]);
        assert(t1.drop_first() =~= ws.drop_first().take(i));
        assert(t0.drop_first() =~= ws.drop_first().take(i - 1));
        lemma_spec_strings_push(ws.drop_first(), i - 1);
        assert(ws.drop_first()[i - 1] == ws[i]);
        assert(spec_strings(t1) == spec_string(ws[0]) + spec_strings(ws.drop_first().take(i)));
        assert(spec_strings(t0) == spec_string(ws[0]) + spec_strings(ws.drop_first().take(i - 1)));
        assert(spec_strings(t1) =~= spec_strings(t0) + spec_string(ws[i]));
    }
}

/// Parses a `[string list]` at `pos`.
pub fn parse_string_list_at(data: &Vec<u8>, pos: usize) -> (r: Result<
    (Vec<String>, usize),
    CodecError,
>)
    ensures
        match r {
            Ok((ws, p)) => spec_parse_string_list_at(data@, pos as int) == Ok::<
                (Seq<Seq<char>>, int),
                CodecError,
            >((views_of_strings(ws@), p as int)) && pos <= p <= data.len(),
            Err(e) => spec_parse_string_list_at(data@, pos as int) == Err::<
                (Seq<Seq<char>>, int),
                CodecError,
            >(e),
        },
{
    if data.len() < 2 || pos > data.len() - 2 {
        return Err(CodecError::UnexpectedEnd);
    }
    let count = get_u16_be(data, pos) as usize;
    let mut acc: Vec<String> = Vec::new();
    let mut cur: usize = pos + 2;
    let mut remaining: usize = count;
    while remaining > 0
        invariant
            pos + 2 <= cur <= data.len(),
            remaining <= count,
            acc@.len() == count - remaining,
            count == spec_u16_from_be(data@[pos as int], data@[pos as int + 1]),
            spec_parse_strings_at(data@, pos + 2, count as nat) == match spec_parse_strings_at(
                data@,
                cur as int,
                remaining as nat,
            ) {
                Ok((ws, p)) => Ok::<(Seq<Seq<char>>, int), CodecError>(
                    (views_of_strings(acc@) + ws, p),
                ),
                Err(e) => Err::<(Seq<Seq<char>>, int), CodecError>(e),
            },
        decreases remaining,
    {
        match parse_string_at(data, cur) {
            Ok((w, p)) => {
                let ghost old_acc = acc@;
                acc.push(w);
                assert(views_of_strings(acc@) =~= views_of_strings(old_acc) + seq![w@]);
                proof {
                    if let Ok((ws2, p2)) = spec_parse_strings_at(
                        data@,
                        p as int,
                        (remaining - 1) as nat,
                    ) {
                        assert(views_of_strings(old_acc) + (seq![w@] + ws2) =~= views_of_strings(
                            acc@,
                        ) + ws2);
                    }
                }
                cur = p;
                remaining = remaining - 1;
            },
            Err(e) => {
                proof {
                    assert(spec_parse_strings_at(data@, cur as int, remaining as nat) == Err::<
                        (Seq<Seq<char>>, int),
                        CodecError,
                    >(e));
                    assert(spec_parse_strings_at(data@, pos + 2, count as nat) == Err::<
                        (Seq<Seq<char>>, int),
                        CodecError,
                    >(e));
                    assert(count == spec_u16_from_be(data@[pos as int], data@[pos as int + 1]));
                    assert(spec_parse_string_list_at(data@, pos as int) == Err::<
                        (Seq<Seq<char>>, int),
                        CodecError,
                    >(e));
                }
                return Err(e);
            },
        }
    }
    assert(views_of_strings(acc@) + Seq::<Seq<char>>::empty() =~= views_of_strings(acc@));
    Ok((acc, cur))
}

// ---------------------------------------------------------------------------
// [short bytes]: a u16 length followed by that many bytes
// ---------------------------------------------------------------------------

/// A byte string fits a `[short bytes]`.
pub open spec fn wf_short_bytes(b: Seq<u8>) -> bool {
    b.len() <= 0xFFFF
}

/// Spec image of a `[short bytes]`.
pub open spec fn spec_short_bytes(b: Seq<u8>) -> Seq<u8> {
    spec_u16_be(b.len() as u16) + b
}

/// Spec parser for a `[short bytes]` at `pos`.
pub open spec fn spec_parse_short_bytes_at(s: Seq<u8>, pos: int) -> Result<
    (Seq<u8>, int),
    CodecError,
> {
    if !(0 <= pos && pos + 2 <= s.len()) {
        Err(CodecError::UnexpectedEnd)
    } else {
        let n = spec_u16_from_be(s[pos], s[pos + 1]) as int;
        if pos + 2 + n > s.len() {
            Err(CodecError::UnexpectedEnd)
        } else {
            Ok((s.subrange(pos + 2, pos + 2 + n), pos + 2 + n))
        }
    }
}

/// Appends the `[short bytes]` image of `b`.
pub fn put_short_bytes(out: &mut Vec<u8>, b: &Vec<u8>)
    requires
        wf_short_bytes(b@),
    ensures
        final(out)@ == old(out)@ + spec_short_bytes(b@),
{
    put_u16_be(out, b.len() as u16);
    put_bytes(out, b);
    assert(out@ =~= old(out)@ + spec_short_bytes(b@));
}

/// Parses a `[short bytes]` at `pos`.
pub fn parse_short_bytes_at(data: &Vec<u8>, pos: usize) -> (r: Result<
    (Vec<u8>, usize),
    CodecError,
>)
    ensures
        match r {
            Ok((b, p)) => spec_parse_short_bytes_at(data@, pos as int) == Ok::<(Seq<u8>, int),
                CodecError>((b@, p as int)) && pos <= p <= data.len(),
            Err(e) => spec_parse_short_bytes_at(data@, pos as int) == Err::<(Seq<u8>, int),
                CodecError>(e),
        },
{
    if data.len() < 2 || pos > data.len() - 2 {
        return Err(CodecError::UnexpectedEnd);
    }
    let n = get_u16_be(data, pos) as usize;
    if n > data.len() - (pos + 2) {
        return Err(CodecError::UnexpectedEnd);
    }
    let b = copy_range(data, pos + 2, pos + 2 + n);
    Ok((b, pos + 2 + n))
}

// ---------------------------------------------------------------------------
// [bytes]: a signed u32 length (−1 null, −2 not set) followed by the bytes;
// and [bytes map]: a u16 count of [string][bytes] pairs. The decoder only
// skips these, so the parsers here return the position after the form.
// ---------------------------------------------------------------------------

/// Spec parser skipping one `[bytes]` at `pos`.
pub open spec fn spec_parse_bytes_skip_at(s: Seq<u8>, pos: int) -> Result<int, CodecError> {
    if !(0 <= pos && pos + 4 <= s.len()) {
        Err(CodecError::UnexpectedEnd)
    } else {
        let n = spec_u32_from_be(s[pos], s[pos + 1], s[pos + 2], s[pos + 3]) as i32;
        if n >= 0 {
            if pos + 4 + n <= s.len() {
                Ok(pos + 4 + n)
            } else {
                Err(CodecError::UnexpectedEnd)
            }
        } else if n == -1 || n == -2 {
            Ok(pos + 4)
        } else {
            Err(CodecError::InvalidBytesLength)
        }
    }
}

/// Spec parser skipping `count` `[string][bytes]` pairs at `pos`.
pub open spec fn spec_parse_bytes_map_skip_at(s: Seq<u8>, pos: int, count: nat) -> Result<
    int,
    CodecError,
>
    decreases count,
{
    if count == 0 {
        Ok(pos)
    } else {
        match spec_parse_string_at(s, pos) {
            Err(e) => Err(e),
            Ok((_k, p)) => match spec_parse_bytes_skip_at(s, p) {
                Err(e) => Err(e),
                Ok(p2) => spec_parse_bytes_map_skip_at(s, p2, (count - 1) as nat),
            },
        }
    }
}

/// Spec parser skipping a whole `[bytes map]` at `pos`.
pub open spec fn spec_parse_bytes_map_at(s: Seq<u8>, pos: int) -> Result<int, CodecError> {
    if !(0 <= pos && pos + 2 <= s.len()) {
        Err(CodecError::UnexpectedEnd)
    } else {
        spec_parse_bytes_map_skip_at(s, pos + 2, spec_u16_from_be(s[pos], s[pos + 1]) as nat)
    }
}

/// Skips one `[bytes]` at `pos`.
pub fn skip_bytes_at(data: &Vec<u8>, pos: usize) -> (r: Result<usize, CodecError>)
    ensures
        match r {
            Ok(p) => spec_parse_bytes_skip_at(data@, pos as int) == Ok::<int, CodecError>(p as int)
                && pos <= p <= data.len(),
            Err(e) => spec_parse_bytes_skip_at(data@, pos as int) == Err::<int, CodecError>(e),
        },
{
    if data.len() < 4 || pos > data.len() - 4 {
        return Err(CodecError::UnexpectedEnd);
    }
    let n = get_u32_be(data, pos) as i32;
    if n >= 0 {
        let len = n as usize;
        if len <= data.len() - (pos + 4) {
            Ok(pos + 4 + len)
        } else {
            Err(CodecError::UnexpectedEnd)
        }
    } else if n == -1 || n == -2 {
        Ok(pos + 4)
    } else {
        Err(CodecError::InvalidBytesLength)
    }
}

/// Skips a whole `[bytes map]` at `pos`, validating its structure.
pub fn skip_bytes_map_at(data: &Vec<u8>, pos: usize) -> (r: Result<usize, CodecError>)
    ensures
        match r {
            Ok(p) => spec_parse_bytes_map_at(data@, pos as int) == Ok::<int, CodecError>(p as int)
                && pos <= p <= data.len(),
            Err(e) => spec_parse_bytes_map_at(data@, pos as int) == Err::<int, CodecError>(e),
        },
{
    if data.len() < 2 || pos > data.len() - 2 {
        return Err(CodecError::UnexpectedEnd);
    }
    let count = get_u16_be(data, pos) as usize;
    let mut cur: usize = pos + 2;
    let mut remaining: usize = count;
    while remaining > 0
        invariant
            pos + 2 <= cur <= data.len(),
            remaining <= count,
            count == spec_u16_from_be(data@[pos as int], data@[pos as int + 1]),
            spec_parse_bytes_map_skip_at(data@, pos + 2, count as nat)
                == spec_parse_bytes_map_skip_at(data@, cur as int, remaining as nat),
        decreases remaining,
    {
        let p1 = match parse_string_at(data, cur) {
            Ok((_k, p)) => p,
            Err(e) => {
                return Err(e);
            },
        };
        let p2 = match skip_bytes_at(data, p1) {
            Ok(p) => p,
            Err(e) => {
                return Err(e);
            },
        };
        cur = p2;
        remaining = remaining - 1;
    }
    Ok(cur)
}

} // verus!
