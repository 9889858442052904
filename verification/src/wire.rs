//! The registry wire format: every payload starts with a five-byte header,
//! a magic byte of zero followed by the schema id as four big-endian bytes,
//! and carries the schema-conformant binary body after it. A consumer reads
//! these five bytes first to select the decoding schema.

use vstd::prelude::*;

verus! {

/// The four big-endian bytes of a schema id.
pub open spec fn be_bytes(id: u32) -> Seq<u8> {
    seq![
        (id / 0x1000000) as u8,
        ((id / 0x10000) % 0x100) as u8,
        ((id / 0x100) % 0x100) as u8,
        (id % 0x100) as u8,
    ]
}

/// A whole payload: magic zero, big-endian schema id, body.
pub open spec fn wire_bytes(id: u32, body: Seq<u8>) -> Seq<u8> {
    seq![0u8] + be_bytes(id) + body
}

/// The id a consumer reads back from four big-endian bytes.
pub open spec fn be_value(b0: u8, b1: u8, b2: u8, b3: u8) -> int {
    (b0 as int) * 0x1000000 + (b1 as int) * 0x10000 + (b2 as int) * 0x100 + (b3 as int)
}

/// The header bytes carry the id faithfully.
pub proof fn lemma_be_roundtrip(id: u32)
    ensures
        be_value(be_bytes(id)[0], be_bytes(id)[1], be_bytes(id)[2], be_bytes(id)[3]) == id,
{
    let i = id as int;
    assert(i == (i / 0x1000000) * 0x1000000 + ((i / 0x10000) % 0x100) * 0x10000 + ((i / 0x100)
        % 0x100) * 0x100 + i % 0x100) by (nonlinear_arith)
        requires
            0 <= i < 0x100000000,
    ;
    assert(i / 0x1000000 < 0x100);
}

/// An encoded payload: the five-byte wire header and the binary body.
pub struct EncodedPayload {
    pub bytes: Vec<u8>,
}

impl View for EncodedPayload {
    type V = Seq<u8>;

    open spec fn view(&self) -> Seq<u8> {
        self.bytes@
    }
}

impl EncodedPayload {
    /// A payload is well formed when it is the wire form of some id and
    /// body: at least the header long, with the magic byte zero.
    pub open spec fn wf(self) -> bool {
        &&& self@.len() >= 5
        &&& self@[0] == 0
    }

    /// The schema id the header carries.
    pub open spec fn spec_schema_id(self) -> int {
        be_value(self@[1], self@[2], self@[3], self@[4])
    }

    /// The body after the header.
    pub open spec fn spec_body(self) -> Seq<u8> {
        self@.skip(5)
    }

    /// Read the schema id back out of the header, as a consumer does
    /// before selecting a decoding schema.
    pub fn schema_id(&self) -> (r: u32)
        requires
            self.wf(),
        ensures
            r == self.spec_schema_id(),
    {
        let b1 = self.bytes[1];
        let b2 = self.bytes[2];
        let b3 = self.bytes[3];
        let b4 = self.bytes[4];
        (b1 as u32) * 0x1000000 + (b2 as u32) * 0x10000 + (b3 as u32) * 0x100 + (b4 as u32)
    }

    /// The payload length: always at least the five header bytes.
    pub fn len(&self) -> (r: usize)
        ensures
            r == self@.len(),
    {
        self.bytes.len()
    }
}

/// Prefix a binary body with the wire header for schema_id. The first five
/// bytes of the result are exactly the magic zero and the big-endian id;
/// the body follows unchanged.
pub fn make_payload(schema_id: u32, body: Vec<u8>) -> (p: EncodedPayload)
    ensures
        p@ == wire_bytes(schema_id, body@),
        p.wf(),
        p@.len() == 5 + body@.len(),
        p@.subrange(1, 5) == be_bytes(schema_id),
        p.spec_schema_id() == schema_id,
        p.spec_body() == body@,
{
    let mut out: Vec<u8> = Vec::new();
    out.push(0);
    out.push((schema_id / 0x1000000) as u8);
    out.push(((schema_id / 0x10000) % 0x100) as u8);
    out.push(((schema_id / 0x100) % 0x100) as u8);
    out.push((schema_id % 0x100) as u8);
    let mut k: usize = 0;
    while k < body.len()
        invariant
            k <= body@.len(),
            out@ == (seq![0u8] + be_bytes(schema_id)) + body@.subrange(0, k as int),
        decreases body@.len() - k,
    {
        out.push(body[k]);
        k = k + 1;
        assert(out@ =~= (seq![0u8] + be_bytes(schema_id)) + body@.subrange(0, k as int));
    }
    proof {
        assert(body@.subrange(0, body@.len() as int) =~= body@);
        assert(out@ =~= wire_bytes(schema_id, body@));
        lemma_be_roundtrip(schema_id);
        assert(out@.subrange(1, 5) =~= be_bytes(schema_id));
        assert(out@.skip(5) =~= body@);
    }
    EncodedPayload { bytes: out }
}

/// Varying the schema id changes only the four id bytes of the header:
/// for a fixed body the payloads have the same length, the same magic
/// byte, and the same bytes from the header on.
pub proof fn lemma_id_changes_header_only(id1: u32, id2: u32, body: Seq<u8>)
    ensures
        wire_bytes(id1, body).len() == wire_bytes(id2, body).len(),
        wire_bytes(id1, body)[0] == 0 && wire_bytes(id2, body)[0] == 0,
        wire_bytes(id1, body).skip(5) =~= wire_bytes(id2, body).skip(5),
{
}

} // verus!
