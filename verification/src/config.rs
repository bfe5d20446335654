//! Startup configuration: decimal parsing for the shard-range variables,
//! normalisation of the bot token, and validation of the shard range a
//! process owns.
use vstd::prelude::*;

verus! {

/// An ASCII decimal digit.
pub open spec fn is_digit(b: u8) -> bool {
    48 <= b <= 57
}

/// A non-empty, all-digit byte sequence.
pub open spec fn is_decimal(s: Seq<u8>) -> bool {
    s.len() > 0 && forall|i: int| 0 <= i < s.len() ==> is_digit(#[trigger] s[i])
}

/// The number a sequence of decimal digits denotes.
pub open spec fn decimal_value(s: Seq<u8>) -> int
    decreases s.len(),
{
    if s.len() == 0 {
        0
    } else {
        decimal_value(s.drop_last()) * 10 + (s.last() - 48)
    }
}

proof fn lemma_decimal_value_nonneg(s: Seq<u8>)
    requires
        forall|i: int| 0 <= i < s.len() ==> is_digit(#[trigger] s[i]),
    ensures
        decimal_value(s) >= 0,
    decreases s.len(),
{
    if s.len() > 0 {
        lemma_decimal_value_nonneg(s.drop_last());
    }
}

/// A digit string denotes at least what any of its prefixes denotes.
proof fn lemma_decimal_prefix_le(s: Seq<u8>, j: int)
    requires
        forall|i: int| 0 <= i < s.len() ==> is_digit(#[trigger] s[i]),
        0 <= j <= s.len(),
    ensures
        decimal_value(s.take(j)) <= decimal_value(s),
    decreases s.len() - j,
{
    if j == s.len() {
        assert(s.take(j) =~= s);
    } else {
        assert(s.take(j + 1).drop_last() =~= s.take(j));
        lemma_decimal_value_nonneg(s.take(j));
        lemma_decimal_prefix_le(s, j + 1);
    }
}

/// Parses a non-empty, all-digit byte string as a `u64`; anything else,
/// and any value that does not fit, is refused.
pub fn parse_u64(s: &[u8]) -> (r: Option<u64>)
    ensures
        r is Some <==> is_decimal(s@) && decimal_value(s@) <= u64::MAX,
        r matches Some(v) ==> v == decimal_value(s@),
{
    if s.len() == 0 {
        return None;
    }
    let mut acc: u64 = 0;
    let mut i: usize = 0;
    while i < s.len()
        invariant
            0 <= i <= s@.len(),
            forall|j: int| 0 <= j < i ==> is_digit(#[trigger] s@[j]),
            acc == decimal_value(s@.take(i as int)),
        decreases s@.len() - i,
    {
        let b = s[i];
        if b < 48 || b > 57 {
            return None;
        }
        let d = (b - 48) as u64;
        let limit = (u64::MAX - d) / 10;
        proof {
            assert(s@.take(i + 1).drop_last() =~= s@.take(i as int));
            vstd::arithmetic::div_mod::lemma_fundamental_div_mod((u64::MAX - d) as int, 10);
        }
        if acc > limit {
            proof {
                if is_decimal(s@) {
                    lemma_decimal_prefix_le(s@, i + 1);
                }
            }
            return None;
        }
        acc = acc * 10 + d;
        i += 1;
    }
    proof {
        assert(s@.take(i as int) =~= s@);
    }
    Some(acc)
}

/// Parses a non-empty, all-digit byte string as a `u16`.
pub fn parse_u16(s: &[u8]) -> (r: Option<u16>)
    ensures
        r is Some <==> is_decimal(s@) && decimal_value(s@) <= u16::MAX,
        r matches Some(v) ==> v == decimal_value(s@),
{
    match parse_u64(s) {
        Some(v) => {
            if v <= 65535 {
                Some(v as u16)
            } else {
                None
            }
        },
        None => None,
    }
}

/// The four bytes of the `"Bot "` prefix expected on the token.
pub open spec fn bot_prefix() -> Seq<u8> {
    seq![66u8, 111u8, 116u8, 32u8]
}

/// Whether a token already carries the `"Bot "` prefix.
pub open spec fn has_bot_prefix(s: Seq<u8>) -> bool {
    s.len() >= 4 && s.take(4) == bot_prefix()
}

/// Prepends `"Bot "` to a token that lacks it; a token already prefixed
/// is left unchanged.
pub fn normalize_token(token: Vec<u8>) -> (r: Vec<u8>)
    ensures
        has_bot_prefix(token@) ==> r@ == token@,
        !has_bot_prefix(token@) ==> r@ == bot_prefix() + token@,
{
    let prefixed = token.len() >= 4 && *token.get(0).unwrap() == 66 && *token.get(1).unwrap() == 111
        && *token.get(2).unwrap() == 116 && *token.get(3).unwrap() == 32;
    if prefixed {
        proof {
            assert(token@.take(4) =~= bot_prefix());
        }
        token
    } else {
        proof {
            if has_bot_prefix(token@) {
                assert(token@.take(4)[0] == token@[0]);
                assert(token@.take(4)[1] == token@[1]);
                assert(token@.take(4)[2] == token@[2]);
                assert(token@.take(4)[3] == token@[3]);
            }
        }
        let ghost t = token@;
        let mut r: Vec<u8> = Vec::new();
        r.push(66);
        r.push(111);
        r.push(116);
        r.push(32);
        let mut i: usize = 0;
        while i < token.len()
            invariant
                0 <= i <= token@.len(),
                token@ == t,
                r@ == bot_prefix() + t.take(i as int),
            decreases token@.len() - i,
        {
            r.push(*token.get(i).unwrap());
            proof {
                assert(bot_prefix() + t.take(i + 1) =~= (bot_prefix() + t.take(i as int)).push(t[i as int]));
            }
            i += 1;
        }
        proof {
            assert(r@ =~= bot_prefix() + t);
        }
        r
    }
}

/// The inclusive shard range a process owns, within the global shard count.
pub struct ShardRange {
    pub start: u16,
    pub until: u16,
    pub total: u64,
}

/// The constraints on a shard range: `start <= until < total <= 2^16`.
pub open spec fn range_valid(c: ShardRange) -> bool {
    &&& c.start <= c.until
    &&& (c.until as u64) < c.total
    &&& c.total <= 65536
}

/// A way the configured shard range can be rejected.
#[derive(Debug)]
pub enum ConfigError {
    /// The low end of the range lies above the high end.
    StartAboveUntil,
    /// The global shard count does not exceed the high end of the range.
    TotalNotAboveUntil,
    /// The global shard count does not fit the 16-bit shard id space.
    TotalTooLarge,
}

/// Accepts a shard range exactly when `start <= until < total <= 2^16`,
/// and says which constraint failed otherwise.
pub fn validate_shards(start: u16, until: u16, total: u64) -> (r: Result<ShardRange, ConfigError>)
    ensures
        r is Ok <==> start <= until && (until as u64) < total && total <= 65536,
        r matches Ok(c) ==> c == (ShardRange { start, until, total }) && range_valid(c),
        r == Result::<ShardRange, ConfigError>::Err(ConfigError::StartAboveUntil) <==> start > until,
        r == Result::<ShardRange, ConfigError>::Err(ConfigError::TotalNotAboveUntil) <==> start
            <= until && total <= until as u64,
        r == Result::<ShardRange, ConfigError>::Err(ConfigError::TotalTooLarge) <==> start <= until
            && total > until as u64 && total > 65536,
{
    if start > until {
        Err(ConfigError::StartAboveUntil)
    } else if total <= until as u64 {
        Err(ConfigError::TotalNotAboveUntil)
    } else if total > 65536 {
        Err(ConfigError::TotalTooLarge)
    } else {
        Ok(ShardRange { start, until, total })
    }
}

/// The shard ids a range owns, in ascending order.
pub open spec fn ids_of(c: ShardRange) -> Seq<u16> {
    Seq::new((c.until - c.start + 1) as nat, |i: int| (c.start + i) as u16)
}

/// Number of shards a range owns.
pub fn shard_count(c: &ShardRange) -> (n: u32)
    requires
        c.start <= c.until,
    ensures
        n == ids_of(*c).len(),
        n == c.until - c.start + 1,
{
    (c.until as u32) - (c.start as u32) + 1
}

/// Lists every shard id the range owns, lowest first.
pub fn shard_ids(c: &ShardRange) -> (r: Vec<u16>)
    requires
        c.start <= c.until,
    ensures
        r@ == ids_of(*c),
{
    let count: usize = (c.until as usize) - (c.start as usize) + 1;
    let mut r: Vec<u16> = Vec::new();
    let mut i: usize = 0;
    while i < count
        invariant
            0 <= i <= count,
            count == c.until - c.start + 1,
            c.start <= c.until,
            r@.len() == i,
            forall|j: int| 0 <= j < i ==> r@[j] == c.start + j,
        decreases count - i,
    {
        r.push(c.start + (i as u16));
        i += 1;
    }
    proof {
        assert(r@ =~= ids_of(*c));
    }
    r
}

/// A range whose ends coincide owns exactly one shard.
pub proof fn lemma_single_shard(c: ShardRange)
    requires
        c.start <= c.until,
    ensures
        (c.start == c.until) <==> ids_of(c).len() == 1,
        c.start == c.until ==> ids_of(c) == seq![c.start],
{
    if c.start == c.until {
        assert(ids_of(c) =~= seq![c.start]);
    }
}

}
