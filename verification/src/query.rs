//! Request bodies: query parameters (shared by QUERY and EXECUTE), bound
//! values, and the QUERY, PREPARE, EXECUTE, BATCH and REGISTER frames.

use vstd::prelude::*;
use vstd::utf8::encode_utf8;
use vstd::string::StrSliceExecFns;
use crate::frame::{Frame, Flags, Version, Direction, Opcode};
use crate::wire::{wf_string, spec_string, spec_string_list, spec_u16_be, spec_u32_be, spec_u64_be,
    spec_short_bytes, spec_concat, views_of_strings, wf_strings, put_u16_be, put_u32_be,
    put_u64_be, put_str, put_bytes, put_short_bytes, put_string_list, lemma_spec_concat_push,
    lemma_encode_utf8_len_bound};

verus! {

/// Consistency levels, by their wire codes 0x0000 to 0x000A.
#[derive(Clone, Copy, Debug, PartialEq, Eq, Structural)]
pub enum Consistency {
    Any,
    One,
    Two,
    Three,
    Quorum,
    All,
    LocalQuorum,
    EachQuorum,
    Serial,
    LocalSerial,
    LocalOne,
}

/// The wire code of a consistency level.
pub open spec fn spec_consistency_code(c: Consistency) -> u16 {
    match c {
        Consistency::Any => 0,
        Consistency::One => 1,
        Consistency::Two => 2,
        Consistency::Three => 3,
        Consistency::Quorum => 4,
        Consistency::All => 5,
        Consistency::LocalQuorum => 6,
        Consistency::EachQuorum => 7,
        Consistency::Serial => 8,
        Consistency::LocalSerial => 9,
        Consistency::LocalOne => 10,
    }
}

/// The wire code of a consistency level.
pub fn consistency_code(c: &Consistency) -> (r: u16)
    ensures
        r == spec_consistency_code(*c),
{
    match c {
        Consistency::Any => 0,
        Consistency::One => 1,
        Consistency::Two => 2,
        Consistency::Three => 3,
        Consistency::Quorum => 4,
        Consistency::All => 5,
        Consistency::LocalQuorum => 6,
        Consistency::EachQuorum => 7,
        Consistency::Serial => 8,
        Consistency::LocalSerial => 9,
        Consistency::LocalOne => 10,
    }
}

/// One bound value: bytes, the null marker (−1), or the not-set marker (−2).
#[derive(Debug)]
pub enum Value {
    Bytes(Vec<u8>),
    Null,
    NotSet,
}

/// Spec image of a `[bytes]`-form value.
pub open spec fn spec_value(v: Value) -> Seq<u8> {
    match v {
        Value::Bytes(b) => spec_u32_be(b@.len() as u32) + b@,
        Value::Null => spec_u32_be(0xFFFF_FFFFu32),
        Value::NotSet => spec_u32_be(0xFFFF_FFFEu32),
    }
}

/// A value's bytes fit the length field.
pub open spec fn wf_value(v: Value) -> bool {
    match v {
        Value::Bytes(b) => b@.len() <= 0x7FFF_FFFF,
        _ => true,
    }
}

/// Appends one value.
pub fn put_value(out: &mut Vec<u8>, v: &Value)
    requires
        wf_value(*v),
    ensures
        final(out)@ == old(out)@ + spec_value(*v),
{
    match v {
        Value::Bytes(b) => {
            put_u32_be(out, b.len() as u32);
            put_bytes(out, b);
        },
        Value::Null => {
            put_u32_be(out, 0xFFFF_FFFF);
        },
        Value::NotSet => {
            put_u32_be(out, 0xFFFF_FFFE);
        },
    }
    assert(out@ =~= old(out)@ + spec_value(*v));
}

/// Bound values: positional, or by name.
#[derive(Debug)]
pub enum QueryValues {
    Simple(Vec<Value>),
    Named(Vec<(String, Value)>),
}

/// The byte image of one positional value.
pub open spec fn value_img() -> spec_fn(Value) -> Seq<u8> {
    |v: Value| spec_value(v)
}

/// The byte image of one named value: `[string]` name, then the value.
pub open spec fn named_value_img() -> spec_fn((String, Value)) -> Seq<u8> {
    |p: (String, Value)| spec_string(p.0@) + spec_value(p.1)
}

impl QueryValues {
    /// Counts fit a u16; every value and name fits its length field.
    pub open spec fn wf(self) -> bool {
        match self {
            QueryValues::Simple(vs) => vs@.len() <= 0xFFFF && forall|i: int|
                0 <= i < vs@.len() ==> wf_value(#[trigger] vs@[i]),
            QueryValues::Named(vs) => vs@.len() <= 0xFFFF && forall|i: int|
                0 <= i < vs@.len() ==> wf_value((#[trigger] vs@[i]).1) && wf_string(vs@[i].0@),
        }
    }

    /// Spec image: a u16 count, then each value (with its name when named).
    pub open spec fn spec_bytes(self) -> Seq<u8> {
        match self {
            QueryValues::Simple(vs) => spec_u16_be(vs@.len() as u16) + spec_concat(
                vs@,
                value_img(),
            ),
            QueryValues::Named(vs) => spec_u16_be(vs@.len() as u16) + spec_concat(
                vs@,
                named_value_img(),
            ),
        }
    }

    /// Appends the values image.
    pub fn serialize(&self, out: &mut Vec<u8>)
        requires
            self.wf(),
        ensures
            final(out)@ == old(out)@ + self.spec_bytes(),
    {
        match self {
            QueryValues::Simple(vs) => {
                put_u16_be(out, vs.len() as u16);
                let mut i: usize = 0;
                while i < vs.len()
                    invariant
                        i <= vs.len(),
                        forall|j: int| 0 <= j < vs@.len() ==> wf_value(#[trigger] vs@[j]),
                        out@ == old(out)@ + spec_u16_be(vs.len() as u16) + spec_concat(
                            vs@.take(i as int),
                            value_img(),
                        ),
                    decreases vs.len() - i,
                {
                    put_value(out, &vs[i]);
                    proof {
                        lemma_spec_concat_push(vs@, value_img(), i as int);
                        assert(value_img()(vs@[i as int]) == spec_value(vs@[i as int]));
                    }
                    assert(out@ =~= old(out)@ + spec_u16_be(vs.len() as u16) + spec_concat(
                        vs@.take(i + 1),
                        value_img(),
                    ));
                    i = i + 1;
                }
                assert(vs@.take(vs@.len() as int) =~= vs@);
                assert(out@ =~= old(out)@ + self.spec_bytes());
            },
            QueryValues::Named(vs) => {
                put_u16_be(out, vs.len() as u16);
                let mut i: usize = 0;
                while i < vs.len()
                    invariant
                        i <= vs.len(),
                        forall|j: int|
                            0 <= j < vs@.len() ==> wf_value((#[trigger] vs@[j]).1) && wf_string(
                                vs@[j].0@,
                            ),
                        out@ == old(out)@ + spec_u16_be(vs.len() as u16) + spec_concat(
                            vs@.take(i as int),
                            named_value_img(),
                        ),
                    decreases vs.len() - i,
                {
                    put_str(out, vs[i].0.as_str());
                    put_value(out, &vs[i].1);
                    proof {
                        lemma_spec_concat_push(vs@, named_value_img(), i as int);
                        assert(named_value_img()(vs@[i as int]) == spec_string(vs@[i as int].0@)
                            + spec_value(vs@[i as int].1));
                    }
                    assert(out@ =~= old(out)@ + spec_u16_be(vs.len() as u16) + spec_concat(
                        vs@.take(i + 1),
                        named_value_img(),
                    ));
                    i = i + 1;
                }
                assert(vs@.take(vs@.len() as int) =~= vs@);
                assert(out@ =~= old(out)@ + self.spec_bytes());
            },
        }
    }
}

/// Query parameters, shared by QUERY and EXECUTE: consistency, then fields
/// in flag-bit order — values, page size, paging state, serial consistency,
/// default timestamp. Whether the request is idempotent feeds the retry
/// policy, never the wire.
#[derive(Debug)]
pub struct QueryParams {
    pub consistency: Consistency,
    pub values: Option<QueryValues>,
    pub page_size: Option<i32>,
    pub paging_state: Option<Vec<u8>>,
    pub serial_consistency: Option<Consistency>,
    pub timestamp: Option<i64>,
    pub is_idempotent: bool,
}

impl QueryParams {
    /// Parameters at a consistency, with nothing else set.
    pub fn new(consistency: Consistency) -> (r: QueryParams)
        ensures
            r.consistency == consistency,
            r.values is None,
            r.page_size is None,
            r.paging_state is None,
            r.serial_consistency is None,
            r.timestamp is None,
            !r.is_idempotent,
    {
        QueryParams {
            consistency,
            values: Option::None,
            page_size: Option::None,
            paging_state: Option::None,
            serial_consistency: Option::None,
            timestamp: Option::None,
            is_idempotent: false,
        }
    }

    /// Every present field fits its wire form.
    pub open spec fn wf(self) -> bool {
        &&& (self.values matches Some(vs) ==> vs.wf())
        &&& (self.page_size matches Some(p) ==> p >= 0)
        &&& (self.paging_state matches Some(b) ==> b@.len() <= 0x7FFF_FFFF)
    }

    /// The flags byte: values 0x01, page size 0x04, paging state 0x08,
    /// serial consistency 0x10, default timestamp 0x20, named values 0x40.
    pub open spec fn spec_flags_byte(self) -> u8 {
        ((if self.values is Some {
            1int
        } else {
            0int
        }) + (if self.page_size is Some {
            4int
        } else {
            0int
        }) + (if self.paging_state is Some {
            8int
        } else {
            0int
        }) + (if self.serial_consistency is Some {
            16int
        } else {
            0int
        }) + (if self.timestamp is Some {
            32int
        } else {
            0int
        }) + (if self.values matches Some(QueryValues::Named(_)) {
            64int
        } else {
            0int
        })) as u8
    }

    /// Spec image of the whole parameter block.
    pub open spec fn spec_bytes(self) -> Seq<u8> {
        spec_u16_be(spec_consistency_code(self.consistency)) + seq![self.spec_flags_byte()] + (
        match self.values {
            Some(vs) => vs.spec_bytes(),
            Option::None => Seq::<u8>::empty(),
        }) + (match self.page_size {
            Some(p) => spec_u32_be(p as u32),
            Option::None => Seq::<u8>::empty(),
        }) + (match self.paging_state {
            Some(b) => spec_u32_be(b@.len() as u32) + b@,
            Option::None => Seq::<u8>::empty(),
        }) + (match self.serial_consistency {
            Some(c) => spec_u16_be(spec_consistency_code(c)),
            Option::None => Seq::<u8>::empty(),
        }) + (match self.timestamp {
            Some(t) => spec_u64_be(t as u64),
            Option::None => Seq::<u8>::empty(),
        })
    }

    /// The flags byte this parameter block goes out under.
    pub fn flags_byte(&self) -> (r: u8)
        ensures
            r == self.spec_flags_byte(),
    {
        let mut flags: u8 = 0;
        if self.values.is_some() {
            flags = flags + 1;
        }
        if self.page_size.is_some() {
            flags = flags + 4;
        }
        if self.paging_state.is_some() {
            flags = flags + 8;
        }
        if self.serial_consistency.is_some() {
            flags = flags + 16;
        }
        if self.timestamp.is_some() {
            flags = flags + 32;
        }
        match &self.values {
            Some(QueryValues::Named(_)) => {
                flags = flags + 64;
            },
            _ => {},
        }
        flags
    }

    /// Appends the parameter block.
    #[verifier::rlimit(100)]
    #[verifier::spinoff_prover]
    pub fn serialize(&self, out: &mut Vec<u8>)
        requires
            self.wf(),
        ensures
            final(out)@ == old(out)@ + self.spec_bytes(),
    {
        let ghost base = old(out)@;
        let ghost vpart: Seq<u8> = match &self.values {
            Some(vs) => vs.spec_bytes(),
            Option::None => Seq::<u8>::empty(),
        };
        let ghost pspart: Seq<u8> = match self.page_size {
            Some(p) => spec_u32_be(p as u32),
            Option::None => Seq::<u8>::empty(),
        };
        let ghost pgpart: Seq<u8> = match &self.paging_state {
            Some(b) => spec_u32_be(b@.len() as u32) + b@,
            Option::None => Seq::<u8>::empty(),
        };
        let ghost scpart: Seq<u8> = match self.serial_consistency {
            Some(c) => spec_u16_be(spec_consistency_code(c)),
            Option::None => Seq::<u8>::empty(),
        };
        let ghost tspart: Seq<u8> = match self.timestamp {
            Some(t) => spec_u64_be(t as u64),
            Option::None => Seq::<u8>::empty(),
        };
        put_u16_be(out, consistency_code(&self.consistency));
        let flags = self.flags_byte();
        out.push(flags);
        let ghost s0 = base + spec_u16_be(spec_consistency_code(self.consistency)) + seq![
            self.spec_flags_byte(),
        ];
        assert(out@ =~= s0);
        match &self.values {
            Some(vs) => {
                vs.serialize(out);
            },
            Option::None => {},
        }
        assert(out@ =~= s0 + vpart);
        let ghost s1 = s0 + vpart;
        match &self.page_size {
            Some(p) => {
                put_u32_be(out, *p as u32);
            },
            Option::None => {},
        }
        assert(out@ =~= s1 + pspart);
        let ghost s2 = s1 + pspart;
        match &self.paging_state {
            Some(b) => {
                put_u32_be(out, b.len() as u32);
                put_bytes(out, b);
            },
            Option::None => {},
        }
        assert(out@ =~= s2 + pgpart);
        let ghost s3 = s2 + pgpart;
        match &self.serial_consistency {
            Some(c) => {
                put_u16_be(out, consistency_code(c));
            },
            Option::None => {},
        }
        assert(out@ =~= s3 + scpart);
        let ghost s4 = s3 + scpart;
        match &self.timestamp {
            Some(t) => {
                put_u64_be(out, *t as u64);
            },
            Option::None => {},
        }
        assert(out@ =~= s4 + tspart);
        assert(out@ =~= base + self.spec_bytes());
    }
}

/// A CQL query: its text and its parameters.
#[derive(Debug)]
pub struct Query {
    pub query: String,
    pub params: QueryParams,
}

/// The request flags a caller asks for: tracing and warnings.
pub fn prepare_flags(with_tracing: bool, with_warnings: bool) -> (r: Flags)
    ensures
        r == (Flags { compression: false, tracing: with_tracing, custom_payload: false,
            warning: with_warnings }),
{
    Flags { compression: false, tracing: with_tracing, custom_payload: false,
        warning: with_warnings }
}

/// A query text fits the `[long string]` length field.
pub open spec fn wf_long_string(w: Seq<char>) -> bool {
    encode_utf8(w).len() <= 0x7FFF_FFFF
}

/// Spec image of a `[long string]`: a u32 byte length, then the UTF-8.
pub open spec fn spec_long_string(w: Seq<char>) -> Seq<u8> {
    spec_u32_be(encode_utf8(w).len() as u32) + encode_utf8(w)
}

/// Appends the `[long string]` image of `s`.
pub fn put_long_str(out: &mut Vec<u8>, s: &str)
    requires
        wf_long_string(s@),
    ensures
        final(out)@ == old(out)@ + spec_long_string(s@),
{
    let bytes = <str as StrSliceExecFns>::as_bytes_vec(s);
    put_u32_be(out, bytes.len() as u32);
    put_bytes(out, &bytes);
    assert(out@ =~= old(out)@ + spec_long_string(s@));
}

/// How a batch is applied: as one logged unit, unlogged, or as counter
/// updates. The wire codes are 0, 1 and 2.
#[derive(Clone, Copy, Debug, PartialEq, Eq, Structural)]
pub enum BatchType {
    Logged,
    Unlogged,
    Counter,
}

/// The wire code of a batch type.
pub open spec fn spec_batch_type_byte(t: BatchType) -> u8 {
    match t {
        BatchType::Logged => 0,
        BatchType::Unlogged => 1,
        BatchType::Counter => 2,
    }
}

/// One statement in a batch: query text, or a prepared id.
#[derive(Debug)]
pub enum BatchQuerySubject {
    QueryString(String),
    PreparedId(Vec<u8>),
}

/// One batched statement with its bound values.
#[derive(Debug)]
pub struct BatchQuery {
    pub subject: BatchQuerySubject,
    pub values: Vec<Value>,
}

/// Spec image of one batched statement: a kind byte (0 text, 1 id), the
/// text or id, then a u16 value count and the values.
pub open spec fn spec_batch_query(q: BatchQuery) -> Seq<u8> {
    (match q.subject {
        BatchQuerySubject::QueryString(s) => seq![0u8] + spec_long_string(s@),
        BatchQuerySubject::PreparedId(id) => seq![1u8] + spec_short_bytes(id@),
    }) + spec_u16_be(q.values@.len() as u16) + spec_concat(q.values@, value_img())
}

/// The byte image of one batched statement.
pub open spec fn batch_query_img() -> spec_fn(BatchQuery) -> Seq<u8> {
    |q: BatchQuery| spec_batch_query(q)
}

/// A batched statement fits its wire form.
pub open spec fn wf_batch_query(q: BatchQuery) -> bool {
    &&& (match q.subject {
        BatchQuerySubject::QueryString(s) => wf_long_string(s@),
        BatchQuerySubject::PreparedId(id) => id@.len() <= 0xFFFF,
    })
    &&& q.values@.len() <= 0xFFFF
    &&& forall|i: int| 0 <= i < q.values@.len() ==> wf_value(#[trigger] q.values@[i])
}

/// A batch of statements executed together: BATCH's body is the type byte,
/// a u16 count, the statements, then the batch consistency and a zero
/// flags byte.
#[derive(Debug)]
pub struct QueryBatch {
    pub batch_type: BatchType,
    pub queries: Vec<BatchQuery>,
    pub consistency: Consistency,
    pub is_idempotent: bool,
}

impl QueryBatch {
    /// Every statement fits, and the count fits a u16.
    pub open spec fn wf(self) -> bool {
        self.queries@.len() <= 0xFFFF && forall|i: int|
            0 <= i < self.queries@.len() ==> wf_batch_query(#[trigger] self.queries@[i])
    }

    /// Spec image of the whole BATCH body.
    pub open spec fn spec_bytes(self) -> Seq<u8> {
        seq![spec_batch_type_byte(self.batch_type)] + spec_u16_be(self.queries@.len() as u16)
            + spec_concat(self.queries@, batch_query_img()) + spec_u16_be(
            spec_consistency_code(self.consistency),
        ) + seq![0u8]
    }
}

/// Appends one batched statement.
fn put_batch_query(out: &mut Vec<u8>, q: &BatchQuery)
    requires
        wf_batch_query(*q),
    ensures
        final(out)@ == old(out)@ + spec_batch_query(*q),
{
    match &q.subject {
        BatchQuerySubject::QueryString(s) => {
            out.push(0);
            put_long_str(out, s.as_str());
        },
        BatchQuerySubject::PreparedId(id) => {
            out.push(1);
            put_short_bytes(out, id);
        },
    }
    put_u16_be(out, q.values.len() as u16);
    let ghost mid = out@;
    let mut i: usize = 0;
    while i < q.values.len()
        invariant
            i <= q.values.len(),
            forall|j: int| 0 <= j < q.values@.len() ==> wf_value(#[trigger] q.values@[j]),
            out@ == mid + spec_concat(q.values@.take(i as int), value_img()),
        decreases q.values.len() - i,
    {
        put_value(out, &q.values[i]);
        proof {
            lemma_spec_concat_push(q.values@, value_img(), i as int);
            assert(value_img()(q.values@[i as int]) == spec_value(q.values@[i as int]));
        }
        assert(out@ =~= mid + spec_concat(q.values@.take(i + 1), value_img()));
        i = i + 1;
    }
    assert(q.values@.take(q.values@.len() as int) =~= q.values@);
    assert(out@ =~= old(out)@ + spec_batch_query(*q));
}

/// The server events a listener can REGISTER for.
#[derive(Clone, Copy, Debug, PartialEq, Eq, Structural)]
pub enum SimpleServerEvent {
    TopologyChange,
    StatusChange,
    SchemaChange,
}

/// The wire name of an event type.
pub open spec fn spec_event_name(e: SimpleServerEvent) -> Seq<char> {
    match e {
        SimpleServerEvent::TopologyChange => "TOPOLOGY_CHANGE"@,
        SimpleServerEvent::StatusChange => "STATUS_CHANGE"@,
        SimpleServerEvent::SchemaChange => "SCHEMA_CHANGE"@,
    }
}

/// The wire name of an event type.
pub fn event_name(e: &SimpleServerEvent) -> (r: &'static str)
    ensures
        r@ == spec_event_name(*e),
{
    match e {
        SimpleServerEvent::TopologyChange => "TOPOLOGY_CHANGE",
        SimpleServerEvent::StatusChange => "STATUS_CHANGE",
        SimpleServerEvent::SchemaChange => "SCHEMA_CHANGE",
    }
}

impl Frame {
    /// Builds a QUERY request: `[long string]` text, then the parameters.
    pub fn new_query(query: Query, flags: Flags) -> (r: Frame)
        requires
            wf_long_string(query.query@),
            query.params.wf(),
            !flags.compression && !flags.custom_payload,
        ensures
            r.version == Version::V4,
            r.direction == Direction::Request,
            r.flags == flags,
            r.stream_id == 0i16,
            r.opcode == Opcode::Query,
            r@.tracing_id is None,
            r@.warnings.len() == 0,
            r.body@ == spec_long_string(query.query@) + query.params.spec_bytes(),
    {
        let mut body: Vec<u8> = Vec::new();
        put_long_str(&mut body, query.query.as_str());
        query.params.serialize(&mut body);
        Frame::new(
            Version::V4,
            Direction::Request,
            flags,
            Opcode::Query,
            body,
            Option::None,
            Vec::new(),
        )
    }

    /// Builds a PREPARE request: the `[long string]` query text.
    pub fn new_req_prepare(query: String, flags: Flags) -> (r: Frame)
        requires
            wf_long_string(query@),
            !flags.compression && !flags.custom_payload,
        ensures
            r.version == Version::V4,
            r.direction == Direction::Request,
            r.flags == flags,
            r.stream_id == 0i16,
            r.opcode == Opcode::Prepare,
            r@.tracing_id is None,
            r@.warnings.len() == 0,
            r.body@ == spec_long_string(query@),
    {
        let mut body: Vec<u8> = Vec::new();
        put_long_str(&mut body, query.as_str());
        Frame::new(
            Version::V4,
            Direction::Request,
            flags,
            Opcode::Prepare,
            body,
            Option::None,
            Vec::new(),
        )
    }

    /// Builds an EXECUTE request: the `[short bytes]` prepared id, then the
    /// parameters.
    pub fn new_req_execute(id: &Vec<u8>, params: &QueryParams, flags: Flags) -> (r: Frame)
        requires
            id@.len() <= 0xFFFF,
            params.wf(),
            !flags.compression && !flags.custom_payload,
        ensures
            r.version == Version::V4,
            r.direction == Direction::Request,
            r.flags == flags,
            r.stream_id == 0i16,
            r.opcode == Opcode::Execute,
            r@.tracing_id is None,
            r@.warnings.len() == 0,
            r.body@ == spec_short_bytes(id@) + params.spec_bytes(),
    {
        let mut body: Vec<u8> = Vec::new();
        put_short_bytes(&mut body, id);
        params.serialize(&mut body);
        Frame::new(
            Version::V4,
            Direction::Request,
            flags,
            Opcode::Execute,
            body,
            Option::None,
            Vec::new(),
        )
    }

    /// Builds a BATCH request.
    pub fn new_req_batch(batch: QueryBatch, flags: Flags) -> (r: Frame)
        requires
            batch.wf(),
            !flags.compression && !flags.custom_payload,
        ensures
            r.version == Version::V4,
            r.direction == Direction::Request,
            r.flags == flags,
            r.stream_id == 0i16,
            r.opcode == Opcode::Batch,
            r@.tracing_id is None,
            r@.warnings.len() == 0,
            r.body@ == batch.spec_bytes(),
    {
        let mut body: Vec<u8> = Vec::new();
        let type_byte: u8 = match batch.batch_type {
            BatchType::Logged => 0,
            BatchType::Unlogged => 1,
            BatchType::Counter => 2,
        };
        body.push(type_byte);
        put_u16_be(&mut body, batch.queries.len() as u16);
        let ghost mid = body@;
        let mut i: usize = 0;
        while i < batch.queries.len()
            invariant
                i <= batch.queries.len(),
                forall|j: int|
                    0 <= j < batch.queries@.len() ==> wf_batch_query(
                        #[trigger] batch.queries@[j],
                    ),
                body@ == mid + spec_concat(batch.queries@.take(i as int), batch_query_img()),
            decreases batch.queries.len() - i,
        {
            put_batch_query(&mut body, &batch.queries[i]);
            proof {
                lemma_spec_concat_push(batch.queries@, batch_query_img(), i as int);
                assert(batch_query_img()(batch.queries@[i as int]) == spec_batch_query(
                    batch.queries@[i as int],
                ));
            }
            assert(body@ =~= mid + spec_concat(batch.queries@.take(i + 1), batch_query_img()));
            i = i + 1;
        }
        assert(batch.queries@.take(batch.queries@.len() as int) =~= batch.queries@);
        put_u16_be(&mut body, consistency_code(&batch.consistency));
        body.push(0);
        assert(body@ =~= batch.spec_bytes());
        Frame::new(
            Version::V4,
            Direction::Request,
            flags,
            Opcode::Batch,
            body,
            Option::None,
            Vec::new(),
        )
    }

    /// Builds a REGISTER request: the `[string list]` of event type names.
    pub fn new_req_register(events: Vec<SimpleServerEvent>) -> (r: Frame)
        requires
            events@.len() <= 0xFFFF,
        ensures
            r.version == Version::V4,
            r.direction == Direction::Request,
            r.flags == (Flags { compression: false, tracing: false, custom_payload: false,
                warning: false }),
            r.stream_id == 0i16,
            r.opcode == Opcode::Register,
            r@.tracing_id is None,
            r@.warnings.len() == 0,
            r.body@ == spec_string_list(events@.map_values(|e: SimpleServerEvent|
                spec_event_name(e))),
    {
        proof {
            reveal_strlit("TOPOLOGY_CHANGE");
            reveal_strlit("STATUS_CHANGE");
            reveal_strlit("SCHEMA_CHANGE");
            lemma_encode_utf8_len_bound("TOPOLOGY_CHANGE"@);
            lemma_encode_utf8_len_bound("STATUS_CHANGE"@);
            lemma_encode_utf8_len_bound("SCHEMA_CHANGE"@);
        }
        let ghost names = events@.map_values(|e: SimpleServerEvent| spec_event_name(e));
        let mut name_vec: Vec<String> = Vec::new();
        let mut i: usize = 0;
        while i < events.len()
            invariant
                i <= events.len(),
                name_vec@.len() == i,
                forall|j: int| 0 <= j < i ==> #[trigger] name_vec@[j]@ == names[j],
                names == events@.map_values(|e: SimpleServerEvent| spec_event_name(e)),
            decreases events.len() - i,
        {
            let n = event_name(&events[i]);
            name_vec.push(<String as vstd::string::StringExecFns>::from_str(n));
            i = i + 1;
        }
        proof {
            assert(views_of_strings(name_vec@) =~= names);
            assert(wf_strings(names));
        }
        let mut body: Vec<u8> = Vec::new();
        put_string_list(&mut body, &name_vec);
        Frame::new(
            Version::V4,
            Direction::Request,
            Flags::empty(),
            Opcode::Register,
            body,
            Option::None,
            Vec::new(),
        )
    }
}

} // verus!
