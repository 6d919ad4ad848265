//! The STARTUP request body: a `[string map]` of options holding at least
//! `CQL_VERSION`, and `COMPRESSION` when a scheme is configured.

use vstd::prelude::*;
use vstd::utf8::encode_utf8;
use vstd::string::{StringExecFns, StrSliceExecFns};
use crate::error::CodecError;
use crate::frame::{Frame, Flags, Version, Direction, Opcode};
use crate::wire::{wf_string, spec_string, spec_u16_be, spec_u16_from_be, spec_parse_string_at,
    put_u16_be, put_str, get_u16_be, parse_string_at, lemma_parse_string_embedded,
    lemma_u16_be_round_trip, lemma_encode_utf8_len_bound};

verus! {

/// The views of a vector of string pairs.
pub open spec fn views_of_pairs(v: Seq<(String, String)>) -> Seq<(Seq<char>, Seq<char>)> {
    v.map_values(|p: (String, String)| (p.0@, p.1@))
}

/// Every key and value fits a `[string]`, and the count fits a u16.
pub open spec fn wf_pairs(ps: Seq<(Seq<char>, Seq<char>)>) -> bool {
    ps.len() <= 0xFFFF && forall|i: int|
        0 <= i < ps.len() ==> wf_string((#[trigger] ps[i]).0) && wf_string(ps[i].1)
}

/// Spec image of the concatenated `[string][string]` pairs, without the count.
pub open spec fn spec_pairs(ps: Seq<(Seq<char>, Seq<char>)>) -> Seq<u8>
    decreases ps.len(),
{
    if ps.len() == 0 {
        Seq::empty()
    } else {
        spec_string(ps[0].0) + spec_string(ps[0].1) + spec_pairs(ps.drop_first())
    }
}

/// Spec image of a `[string map]`.
pub open spec fn spec_string_map(ps: Seq<(Seq<char>, Seq<char>)>) -> Seq<u8> {
    spec_u16_be(ps.len() as u16) + spec_pairs(ps)
}

/// Spec parser for `count` consecutive `[string][string]` pairs at `pos`.
pub open spec fn spec_parse_pairs_at(s: Seq<u8>, pos: int, count: nat) -> Result<
    (Seq<(Seq<char>, Seq<char>)>, int),
    CodecError,
>
    decreases count,
{
    if count == 0 {
        Ok((Seq::empty(), pos))
    } else {
        match spec_parse_string_at(s, pos) {
            Err(e) => Err(e),
            Ok((k, p)) => match spec_parse_string_at(s, p) {
                Err(e) => Err(e),
                Ok((v, p2)) => match spec_parse_pairs_at(s, p2, (count - 1) as nat) {
                    Err(e) => Err(e),
                    Ok((ps, p3)) => Ok((seq![(k, v)] + ps, p3)),
                },
            },
        }
    }
}

/// Spec parser for a `[string map]` at `pos`.
pub open spec fn spec_parse_string_map_at(s: Seq<u8>, pos: int) -> Result<
    (Seq<(Seq<char>, Seq<char>)>, int),
    CodecError,
> {
    if !(0 <= pos && pos + 2 <= s.len()) {
        Err(CodecError::UnexpectedEnd)
    } else {
        spec_parse_pairs_at(s, pos + 2, spec_u16_from_be(s[pos], s[pos + 1]) as nat)
    }
}

/// Concatenated pair images embedded in a buffer parse back in order.
pub proof fn lemma_parse_pairs_embedded(s: Seq<u8>, pos: int, ps: Seq<(Seq<char>, Seq<char>)>)
    requires
        wf_pairs(ps),
        0 <= pos,
        pos + spec_pairs(ps).len() <= s.len(),
        s.subrange(pos, pos + spec_pairs(ps).len() as int) == spec_pairs(ps),
    ensures
        spec_parse_pairs_at(s, pos, ps.len()) == Ok::<(Seq<(Seq<char>, Seq<char>)>, int),
            CodecError>((ps, pos + spec_pairs(ps).len())),
    decreases ps.len(),
{
    if ps.len() == 0 {
        assert(spec_pairs(ps).len() == 0);
        assert(ps =~= Seq::<(Seq<char>, Seq<char>)>::empty());
    } else {
        let k0 = ps[0].0;
        let v0 = ps[0].1;
        let rest = ps.drop_first();
        let imgk = spec_string(k0);
        let imgv = spec_string(v0);
        let img_rest = spec_pairs(rest);
        let whole = spec_pairs(ps);
        assert(whole == imgk + imgv + img_rest);
        assert(s.subrange(pos, pos + imgk.len() as int) =~= imgk) by {
            assert forall|i: int| 0 <= i < imgk.len() implies s.subrange(
                pos,
                pos + imgk.len() as int,
            )[i] == imgk[i] by {
                assert(s.subrange(pos, pos + whole.len() as int)[i] == whole[i]);
                assert(whole[i] == imgk[i]);
            }
        }
        lemma_parse_string_embedded(s, pos, k0);
        let p1 = pos + imgk.len();
        assert(s.subrange(p1, p1 + imgv.len() as int) =~= imgv) by {
            assert forall|i: int| 0 <= i < imgv.len() implies s.subrange(
                p1,
                p1 + imgv.len() as int,
            )[i] == imgv[i] by {
                assert(s.subrange(pos, pos + whole.len() as int)[i + imgk.len()] == whole[i
                    + imgk.len()]);
                assert(whole[i + imgk.len()] == imgv[i]);
            }
        }
        lemma_parse_string_embedded(s, p1, v0);
        let p2 = p1 + imgv.len();
        assert(s.subrange(p2, p2 + img_rest.len() as int) =~= img_rest) by {
            assert forall|i: int| 0 <= i < img_rest.len() implies s.subrange(
                p2,
                p2 + img_rest.len() as int,
            )[i] == img_rest[i] by {
                assert(s.subrange(pos, pos + whole.len() as int)[i + imgk.len() + imgv.len()]
                    == whole[i + imgk.len() + imgv.len()]);
                assert(whole[i + imgk.len() + imgv.len()] == img_rest[i]);
            }
        }
        assert(forall|i: int| 0 <= i < rest.len() ==> rest[i] == ps[i + 1]);
        assert(wf_pairs(rest));
        lemma_parse_pairs_embedded(s, p2, rest);
        assert(spec_parse_string_at(s, pos) == Ok::<(Seq<char>, int), CodecError>((k0, p1)));
        assert(spec_parse_string_at(s, p1) == Ok::<(Seq<char>, int), CodecError>((v0, p2)));
        assert(spec_parse_pairs_at(s, p2, rest.len()) == Ok::<(Seq<(Seq<char>, Seq<char>)>, int),
            CodecError>((rest, p2 + img_rest.len())));
        assert((ps.len() - 1) as nat == rest.len());
        assert(spec_parse_pairs_at(s, pos, ps.len()) == Ok::<(Seq<(Seq<char>, Seq<char>)>, int),
            CodecError>((seq![(k0, v0)] + rest, p2 + img_rest.len())));
        assert(seq![(k0, v0)] + rest =~= ps);
        assert(pos + whole.len() == p2 + img_rest.len());
    }
}

/// A `[string map]` image embedded in a buffer parses back to its pairs.
pub proof fn lemma_parse_string_map_embedded(s: Seq<u8>, pos: int, ps: Seq<(Seq<char>, Seq<char>)>)
    requires
        wf_pairs(ps),
        0 <= pos,
        pos + spec_string_map(ps).len() <= s.len(),
        s.subrange(pos, pos + spec_string_map(ps).len() as int) == spec_string_map(ps),
    ensures
        spec_parse_string_map_at(s, pos) == Ok::<(Seq<(Seq<char>, Seq<char>)>, int), CodecError>(
            (ps, pos + spec_string_map(ps).len()),
        ),
{
    let img = spec_string_map(ps);
    let body = spec_pairs(ps);
    assert(s[pos] == img[0] && s[pos + 1] == img[1]) by {
        assert(s.subrange(pos, pos + img.len() as int)[0] == s[pos]);
        assert(s.subrange(pos, pos + img.len() as int)[1] == s[pos + 1]);
    }
    lemma_u16_be_round_trip(ps.len() as u16);
    assert(spec_u16_from_be(s[pos], s[pos + 1]) as nat == ps.len());
    assert(s.subrange(pos + 2, pos + 2 + body.len() as int) =~= body) by {
        assert forall|i: int| 0 <= i < body.len() implies s.subrange(
            pos + 2,
            pos + 2 + body.len() as int,
        )[i] == body[i] by {
            assert(s.subrange(pos, pos + img.len() as int)[i + 2] == img[i + 2]);
            assert(img[i + 2] == body[i]);
        }
    }
    lemma_parse_pairs_embedded(s, pos + 2, ps);
}

/// A serialized `[string map]` parses back to the pairs it came from.
pub proof fn lemma_string_map_round_trip(ps: Seq<(Seq<char>, Seq<char>)>)
    requires
        wf_pairs(ps),
    ensures
        spec_parse_string_map_at(spec_string_map(ps), 0) == Ok::<
            (Seq<(Seq<char>, Seq<char>)>, int),
            CodecError,
        >((ps, spec_string_map(ps).len() as int)),
{
    let img = spec_string_map(ps);
    assert(img.subrange(0, img.len() as int) =~= img);
    lemma_parse_string_map_embedded(img, 0, ps);
}

/// Appending one more pair extends the concatenated image at its end.
pub proof fn lemma_spec_pairs_push(ps: Seq<(Seq<char>, Seq<char>)>, i: int)
    requires
        0 <= i < ps.len(),
    ensures
        spec_pairs(ps.take(i + 1)) == spec_pairs(ps.take(i)) + spec_string(ps[i].0) + spec_string(
            ps[i].1,
        ),
    decreases i,
{
    if i == 0 {
        assert(ps.take(1) =~= seq![ps[0]]);
        assert(ps.take(1)[0] == ps[0]);
        assert(ps.take(1).drop_first() =~= Seq::<(Seq<char>, Seq<char>)>::empty());
        assert(spec_pairs(Seq::<(Seq<char>, Seq<char>)>::empty()) == Seq::<u8>::empty());
        assert(ps.take(0) =~= Seq::<(Seq<char>, Seq<char>)>::empty());
        assert(spec_pairs(ps.take(1)) == spec_string(ps[0].0) + spec_string(ps[0].1) + spec_pairs(
            ps.take(1).drop_first(),
        ));
        assert(spec_pairs(ps.take(1)) =~= spec_pairs(ps.take(0)) + spec_string(ps[0].0)
            + spec_string(ps[0].1));
    } else {
        let t1 = ps.take(i + 1);
        let t0 = ps.take(i);
        assert(t1[0] == ps[0] && t0[0] == ps[0]);
        assert(t1.drop_first() =~= ps.drop_first().take(i));
        assert(t0.drop_first() =~= ps.drop_first().take(i - 1));
        lemma_spec_pairs_push(ps.drop_first(), i - 1);
        assert(ps.drop_first()[i - 1] == ps[i]);
        assert(spec_pairs(t1) == spec_string(ps[0].0) + spec_string(ps[0].1) + spec_pairs(
            ps.drop_first().take(i),
        ));
        assert(spec_pairs(t0) == spec_string(ps[0].0) + spec_string(ps[0].1) + spec_pairs(
            ps.drop_first().take(i - 1),
        ));
        assert(spec_pairs(t1) =~= spec_pairs(t0) + spec_string(ps[i].0) + spec_string(ps[i].1));
    }
}

/// The value stored under `key`, if any: the last binding wins, as a later
/// insert of the same option overrides an earlier one.
pub open spec fn spec_map_get(ps: Seq<(Seq<char>, Seq<char>)>, key: Seq<char>) -> Option<Seq<char>>
    decreases ps.len(),
{
    if ps.len() == 0 {
        Option::None
    } else if ps.last().0 == key {
        Some(ps.last().1)
    } else {
        spec_map_get(ps.drop_last(), key)
    }
}

/// Whether two string slices hold the same characters.
pub fn str_eq(a: &str, b: &str) -> (r: bool)
    ensures
        r == (a@ == b@),
{
    let ab = <str as StrSliceExecFns>::as_bytes_vec(a);
    let bb = <str as StrSliceExecFns>::as_bytes_vec(b);
    if ab.len() != bb.len() {
        proof {
            if a@ == b@ {
                assert(encode_utf8(a@) == encode_utf8(b@));
            }
        }
        return false;
    }
    let mut i: usize = 0;
    while i < ab.len()
        invariant
            i <= ab.len(),
            ab.len() == bb.len(),
            ab@ == encode_utf8(a@),
            bb@ == encode_utf8(b@),
            forall|j: int| 0 <= j < i ==> ab@[j] == bb@[j],
        decreases ab.len() - i,
    {
        if ab[i] != bb[i] {
            proof {
                if a@ == b@ {
                    assert(encode_utf8(a@) == encode_utf8(b@));
                }
            }
            return false;
        }
        i = i + 1;
    }
    proof {
        assert(ab@ =~= bb@);
        vstd::utf8::encode_utf8_decode_utf8(a@);
        vstd::utf8::encode_utf8_decode_utf8(b@);
    }
    true
}

/// The STARTUP body: option names to values, in insertion order, with the
/// protocol's `CQL_VERSION` always first.
#[derive(Debug)]
pub struct BodyReqStartup {
    pub map: Vec<(String, String)>,
}

impl BodyReqStartup {
    /// The pairs the body denotes.
    pub open spec fn map_view(self) -> Seq<(Seq<char>, Seq<char>)> {
        views_of_pairs(self.map@)
    }

    /// Every option fits the wire form.
    pub open spec fn wf(self) -> bool {
        wf_pairs(self.map_view())
    }

    /// The pairs a STARTUP body carries for a compression choice.
    pub open spec fn spec_new(compression: Option<Seq<char>>) -> Seq<(Seq<char>, Seq<char>)> {
        match compression {
            Option::None => seq![("CQL_VERSION"@, "3.0.0"@)],
            Some(c) => seq![("CQL_VERSION"@, "3.0.0"@), ("COMPRESSION"@, c)],
        }
    }

    /// Builds the body: `CQL_VERSION` 3.0.0, and `COMPRESSION` when given.
    pub fn new(compression: Option<String>) -> (r: BodyReqStartup)
        ensures
            r.map_view() == Self::spec_new(match compression {
                Some(c) => Some(c@),
                Option::None => Option::None::<Seq<char>>,
            }),
            (match compression {
                Some(c) => wf_string(c@),
                Option::None => true,
            }) ==> r.wf(),
    {
        proof {
            reveal_strlit("CQL_VERSION");
            reveal_strlit("3.0.0");
            reveal_strlit("COMPRESSION");
            lemma_encode_utf8_len_bound("CQL_VERSION"@);
            lemma_encode_utf8_len_bound("3.0.0"@);
            lemma_encode_utf8_len_bound("COMPRESSION"@);
        }
        let mut map: Vec<(String, String)> = Vec::new();
        map.push((<String as StringExecFns>::from_str("CQL_VERSION"), <String as StringExecFns>::from_str("3.0.0")));
        match compression {
            Some(c) => {
                map.push((<String as StringExecFns>::from_str("COMPRESSION"), c));
                let r = BodyReqStartup { map };
                assert(r.map_view() =~= seq![
                    ("CQL_VERSION"@, "3.0.0"@),
                    ("COMPRESSION"@, r.map@[1].1@),
                ]);
                r
            },
            Option::None => {
                let r = BodyReqStartup { map };
                assert(r.map_view() =~= seq![("CQL_VERSION"@, "3.0.0"@)]);
                r
            },
        }
    }

    /// The value stored under `key`, if any: the last binding wins, as a
    /// later insert of the same option overrides an earlier one.
    pub fn get(&self, key: &str) -> (r: Option<&String>)
        ensures
            match r {
                Some(v) => spec_map_get(self.map_view(), key@) == Some(v@),
                Option::None => spec_map_get(self.map_view(), key@) is None,
            },
    {
        let mut i: usize = self.map.len();
        proof {
            assert(self.map_view().take(self.map@.len() as int) =~= self.map_view());
        }
        while i > 0
            invariant
                i <= self.map.len(),
                spec_map_get(self.map_view(), key@) == spec_map_get(
                    self.map_view().take(i as int),
                    key@,
                ),
            decreases i,
        {
            i = i - 1;
            let ghost prefix = self.map_view().take(i + 1);
            proof {
                assert(prefix.len() == i + 1);
                assert(prefix.last() == self.map_view()[i as int]);
                assert(prefix.drop_last() =~= self.map_view().take(i as int));
            }
            if str_eq(self.map[i].0.as_str(), key) {
                return Some(&self.map[i].1);
            }
        }
        proof {
            assert(self.map_view().take(0).len() == 0);
        }
        Option::None
    }

    /// Serializes the body as a `[string map]`.
    pub fn serialize(&self) -> (r: Vec<u8>)
        requires
            self.wf(),
        ensures
            r@ == spec_string_map(self.map_view()),
    {
        let ghost ps = self.map_view();
        let mut out: Vec<u8> = Vec::new();
        put_u16_be(&mut out, self.map.len() as u16);
        let mut i: usize = 0;
        while i < self.map.len()
            invariant
                i <= self.map.len(),
                wf_pairs(ps),
                ps == views_of_pairs(self.map@),
                out@ == spec_u16_be(self.map.len() as u16) + spec_pairs(ps.take(i as int)),
            decreases self.map.len() - i,
        {
            proof {
                assert(ps[i as int] == (self.map@[i as int].0@, self.map@[i as int].1@));
                assert(wf_string(ps[i as int].0) && wf_string(ps[i as int].1));
            }
            put_str(&mut out, self.map[i].0.as_str());
            put_str(&mut out, self.map[i].1.as_str());
            proof {
                lemma_spec_pairs_push(ps, i as int);
            }
            assert(out@ =~= spec_u16_be(self.map.len() as u16) + spec_pairs(ps.take(i + 1)));
            i = i + 1;
        }
        assert(ps.take(self.map@.len() as int) =~= ps);
        assert(out@ =~= spec_string_map(ps));
        out
    }

    /// Parses a `[string map]` body at `pos`.
    pub fn from_cursor(data: &Vec<u8>, pos: usize) -> (r: Result<(BodyReqStartup, usize),
        CodecError>)
        ensures
            match r {
                Ok((b, p)) => spec_parse_string_map_at(data@, pos as int) == Ok::<
                    (Seq<(Seq<char>, Seq<char>)>, int),
                    CodecError,
                >((b.map_view(), p as int)) && pos <= p <= data.len(),
                Err(e) => spec_parse_string_map_at(data@, pos as int) == Err::<
                    (Seq<(Seq<char>, Seq<char>)>, int),
                    CodecError,
                >(e),
            },
    {
        if data.len() < 2 || pos > data.len() - 2 {
            return Err(CodecError::UnexpectedEnd);
        }
        let count = get_u16_be(data, pos) as usize;
        let mut acc: Vec<(String, String)> = Vec::new();
        let mut cur: usize = pos + 2;
        let mut remaining: usize = count;
        while remaining > 0
            invariant
                pos + 2 <= cur <= data.len(),
                remaining <= count,
                count == spec_u16_from_be(data@[pos as int], data@[pos as int + 1]),
                spec_parse_pairs_at(data@, pos + 2, count as nat) == match spec_parse_pairs_at(
                    data@,
                    cur as int,
                    remaining as nat,
                ) {
                    Ok((ps, p)) => Ok::<(Seq<(Seq<char>, Seq<char>)>, int), CodecError>(
                        (views_of_pairs(acc@) + ps, p),
                    ),
                    Err(e) => Err::<(Seq<(Seq<char>, Seq<char>)>, int), CodecError>(e),
                },
            decreases remaining,
        {
            let (k, p1) = match parse_string_at(data, cur) {
                Ok(kp) => kp,
                Err(e) => {
                    return Err(e);
                },
            };
            let (v, p2) = match parse_string_at(data, p1) {
                Ok(vp) => vp,
                Err(e) => {
                    return Err(e);
                },
            };
            let ghost old_acc = acc@;
            acc.push((k, v));
            proof {
                assert(views_of_pairs(acc@) =~= views_of_pairs(old_acc) + seq![
                    (acc@[old_acc.len() as int].0@, acc@[old_acc.len() as int].1@),
                ]);
                if let Ok((ps2, p3)) = spec_parse_pairs_at(data@, p2 as int, (remaining - 1) as nat) {
                    assert(views_of_pairs(old_acc) + (seq![
                        (acc@[old_acc.len() as int].0@, acc@[old_acc.len() as int].1@),
                    ] + ps2) =~= views_of_pairs(acc@) + ps2);
                }
            }
            cur = p2;
            remaining = remaining - 1;
        }
        assert(views_of_pairs(acc@) + Seq::<(Seq<char>, Seq<char>)>::empty() =~= views_of_pairs(
            acc@,
        ));
        Ok((BodyReqStartup { map: acc }, cur))
    }
}

impl Frame {
    /// Builds a STARTUP request frame offering `CQL_VERSION` 3.0.0, and the
    /// configured compression scheme when one is given.
    pub fn new_req_startup(compression: Option<String>, version: Version) -> (r: Frame)
        requires
            match compression {
                Some(c) => wf_string(c@),
                Option::None => true,
            },
        ensures
            r.version == version,
            r.direction == Direction::Request,
            r.flags == (Flags { compression: false, tracing: false, custom_payload: false,
                warning: false }),
            r.stream_id == 0i16,
            r.opcode == Opcode::Startup,
            r@.tracing_id is None,
            r@.warnings.len() == 0,
            r.body@ == spec_string_map(BodyReqStartup::spec_new(match compression {
                Some(c) => Some(c@),
                Option::None => Option::None::<Seq<char>>,
            })),
    {
        let ghost comp_view: Option<Seq<char>> = match compression {
            Some(ref c) => Some(c@),
            Option::None => Option::None,
        };
        let body = BodyReqStartup::new(compression);
        let bytes = body.serialize();
        Frame::new(
            version,
            Direction::Request,
            Flags::empty(),
            Opcode::Startup,
            bytes,
            Option::None,
            Vec::new(),
        )
    }
}

} // verus!
