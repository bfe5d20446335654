//! Framing convention for records published to the broker: each outbound
//! gateway payload is tagged with its shard id as a trailing little-endian
//! `u16`, so downstream consumers can demultiplex without any wrapping.
use vstd::prelude::*;

verus! {

/// The two little-endian bytes of a shard id.
pub open spec fn u16_le(id: u16) -> Seq<u8> {
    seq![(id % 256) as u8, (id / 256) as u8]
}

/// An outbound record: the payload followed by the two-byte shard id tag.
pub open spec fn record_of(payload: Seq<u8>, id: u16) -> Seq<u8> {
    payload + u16_le(id)
}

/// The payload part of a record: everything before the two-byte tag.
pub open spec fn record_payload(record: Seq<u8>) -> Seq<u8>
    recommends
        record.len() >= 2,
{
    record.take(record.len() - 2)
}

/// The shard id held in a record's trailing two little-endian bytes.
pub open spec fn record_tag(record: Seq<u8>) -> int
    recommends
        record.len() >= 2,
{
    record[record.len() - 1] * 256 + record[record.len() - 2]
}

/// Appends the shard id tag to an outbound payload.
pub fn encode_record(payload: Vec<u8>, id: u16) -> (r: Vec<u8>)
    ensures
        r@ == record_of(payload@, id),
{
    let ghost p = payload@;
    let mut r = payload;
    r.push((id % 256) as u8);
    r.push((id / 256) as u8);
    proof {
        assert(r@ =~= record_of(p, id));
    }
    r
}

/// Splits a record back into its payload and its shard id tag; refuses
/// records too short to carry the tag.
pub fn parse_record(record: &[u8]) -> (r: Option<(Vec<u8>, u16)>)
    ensures
        r is Some <==> record@.len() >= 2,
        r matches Some((p, id)) ==> {
            &&& p@ == record_payload(record@)
            &&& id == record_tag(record@)
            &&& record@ == record_of(p@, id)
        },
{
    let n = record.len();
    if n < 2 {
        return None;
    }
    let lo = record[n - 2];
    let hi = record[n - 1];
    let id: u16 = (lo as u16) + (hi as u16) * 256;
    let mut p: Vec<u8> = Vec::new();
    let mut i: usize = 0;
    while i < n - 2
        invariant
            i <= n - 2,
            n == record@.len(),
            n >= 2,
            p@ == record@.take(i as int),
        decreases n - 2 - i,
    {
        p.push(record[i]);
        proof {
            assert(p@ =~= record@.take(i + 1));
        }
        i += 1;
    }
    proof {
        vstd::arithmetic::div_mod::lemma_fundamental_div_mod_converse(
            id as int, 256, hi as int, lo as int);
        assert(record@ =~= record_of(p@, id));
    }
    Some((p, id))
}

/// Whether two byte strings hold the same bytes.
pub fn bytes_eq(a: &[u8], b: &[u8]) -> (r: bool)
    ensures
        r == (a@ == b@),
{
    if a.len() != b.len() {
        return false;
    }
    let mut i: usize = 0;
    while i < a.len()
        invariant
            0 <= i <= a@.len(),
            a@.len() == b@.len(),
            forall|j: int| 0 <= j < i ==> a@[j] == b@[j],
        decreases a@.len() - i,
    {
        if a[i] != b[i] {
            return false;
        }
        i += 1;
    }
    proof {
        assert(a@ =~= b@);
    }
    true
}

/// Round trip: tagging a payload and splitting the record again gives back
/// exactly the payload and the id, for every payload and every id.
pub proof fn lemma_record_round_trip(payload: Seq<u8>, id: u16)
    ensures
        record_of(payload, id).len() == payload.len() + 2,
        record_payload(record_of(payload, id)) == payload,
        record_tag(record_of(payload, id)) == id,
{
    let r = record_of(payload, id);
    assert(record_payload(r) =~= payload);
    vstd::arithmetic::div_mod::lemma_fundamental_div_mod(id as int, 256);
}

/// Every record framed for a shard id within the range owned by this
/// process is at least two bytes long and carries a tag within that range.
pub proof fn lemma_record_tag_in_range(payload: Seq<u8>, id: u16, start: u16, until: u16)
    requires
        start <= id <= until,
    ensures
        record_of(payload, id).len() >= 2,
        start <= record_tag(record_of(payload, id)) <= until,
{
    lemma_record_round_trip(payload, id);
}

}
