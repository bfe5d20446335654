//! The broker bridge: the list keys each side uses, and how a blocking-pop
//! reply is turned into the binary frame forwarded to the shard.
use crate::config::{decimal_value, is_decimal};
use crate::frame::{is_payload_frame, payload_of, Frame};
use vstd::prelude::*;

verus! {

/// The decimal digits of a number, most significant first, no sign and no
/// leading zero (a lone zero digit for zero).
pub open spec fn dec_bytes(n: nat) -> Seq<u8>
    decreases n,
{
    if n < 10 {
        seq![(48 + n) as u8]
    } else {
        dec_bytes(n / 10).push((48 + n % 10) as u8)
    }
}

/// Formatting a number gives a digit string that parses back to it.
pub proof fn lemma_dec_bytes_value(n: nat)
    ensures
        is_decimal(dec_bytes(n)),
        decimal_value(dec_bytes(n)) == n,
    decreases n,
{
    if n < 10 {
        assert(dec_bytes(n).drop_last() =~= Seq::<u8>::empty());
        assert(decimal_value(Seq::<u8>::empty()) == 0);
        assert((48 + n) as u8 == 48 + n);
        assert(decimal_value(dec_bytes(n)) == n);
    } else {
        lemma_dec_bytes_value(n / 10);
        assert(dec_bytes(n).drop_last() =~= dec_bytes(n / 10));
        assert(n % 10 < 10);
        assert((48 + n % 10) as u8 == 48 + n % 10);
        assert(dec_bytes(n).last() == (48 + n % 10) as u8);
        assert(decimal_value(dec_bytes(n)) == decimal_value(dec_bytes(n / 10)) * 10 + n % 10);
        vstd::arithmetic::div_mod::lemma_fundamental_div_mod(n as int, 10);
    }
}

/// The decimal digits of a shard id, as bytes.
pub fn decimal_digits(n: u16) -> (r: Vec<u8>)
    ensures
        r@ == dec_bytes(n as nat),
    decreases n,
{
    let mut r: Vec<u8> = if n >= 10 {
        decimal_digits(n / 10)
    } else {
        Vec::new()
    };
    r.push(48 + (n % 10) as u8);
    proof {
        if n < 10 {
            assert(r@ =~= dec_bytes(n as nat));
        }
    }
    r
}

/// The bytes of `"sharder:to:"`, the per-shard command list key prefix.
pub open spec fn to_key_prefix() -> Seq<u8> {
    seq![115u8, 104u8, 97u8, 114u8, 100u8, 101u8, 114u8, 58u8, 116u8, 111u8, 58u8]
}

/// The bytes of the command list key of one shard: `"sharder:to:"` followed
/// by the shard id in decimal.
pub open spec fn to_key_of(id: u16) -> Seq<u8> {
    to_key_prefix() + dec_bytes(id as nat)
}

/// The bytes of `"sharder:from"`, the shared event list key.
pub open spec fn from_key_bytes() -> Seq<u8> {
    seq![115u8, 104u8, 97u8, 114u8, 100u8, 101u8, 114u8, 58u8, 102u8, 114u8, 111u8, 109u8]
}

/// The command list key a shard's bridge blocks on.
pub fn to_key(id: u16) -> (r: Vec<u8>)
    ensures
        r@ == to_key_of(id),
{
    let mut r: Vec<u8> = Vec::new();
    r.push(115);
    r.push(104);
    r.push(97);
    r.push(114);
    r.push(100);
    r.push(101);
    r.push(114);
    r.push(58);
    r.push(116);
    r.push(111);
    r.push(58);
    proof {
        assert(r@ =~= to_key_prefix());
    }
    let mut digits = decimal_digits(id);
    r.append(&mut digits);
    r
}

/// The event list key every supervisor publishes to.
pub fn from_key() -> (r: Vec<u8>)
    ensures
        r@ == from_key_bytes(),
{
    let mut r: Vec<u8> = Vec::new();
    r.push(115);
    r.push(104);
    r.push(97);
    r.push(114);
    r.push(100);
    r.push(101);
    r.push(114);
    r.push(58);
    r.push(102);
    r.push(114);
    r.push(111);
    r.push(109);
    proof {
        assert(r@ =~= from_key_bytes());
    }
    r
}

/// A broker reply element as the bridge reads it: a byte payload, or a
/// value of any other shape.
pub enum BrokerValue {
    Bytes(Vec<u8>),
    Other,
}

/// A well-formed blocking-pop reply: the key echoed back, then the bytes
/// popped from the list.
pub open spec fn blpop_shape_ok(reply: Seq<BrokerValue>) -> bool {
    reply.len() == 2 && reply[1] is Bytes
}

/// The popped bytes of a well-formed blocking-pop reply.
pub open spec fn blpop_bytes(reply: Seq<BrokerValue>) -> Seq<u8>
    recommends
        blpop_shape_ok(reply),
{
    match reply[1] {
        BrokerValue::Bytes(b) => b@,
        BrokerValue::Other => Seq::empty(),
    }
}

/// Turns one blocking-pop reply into the frame forwarded to the shard: the
/// popped bytes as a binary frame, empty payloads included; a malformed
/// reply is dropped.
pub fn bridge_step(reply: Vec<BrokerValue>) -> (r: Option<Frame>)
    ensures
        r is Some <==> blpop_shape_ok(reply@),
        r matches Some(f) ==> is_payload_frame(f) && f is Binary && payload_of(f) == blpop_bytes(
            reply@,
        ),
{
    let mut reply = reply;
    if reply.len() != 2 {
        return None;
    }
    let v = reply.remove(1);
    match v {
        BrokerValue::Bytes(b) => Some(Frame::Binary(b)),
        BrokerValue::Other => None,
    }
}

}
