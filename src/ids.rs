//! Identifiers and timestamps.
//!
//! Every entity is identified by a ULID, held here as its 128-bit integer
//! value: the upper 48 bits are a millisecond timestamp, the lower 80 bits are
//! random. Timestamps are milliseconds since the Unix epoch.
use vstd::prelude::*;

verus! {

/// Number of distinct values of the random part of a ULID.
pub open spec fn rand_space() -> int {
    0x1_0000_0000_0000_0000_0000
}

/// Number of distinct values of the timestamp part of a ULID.
pub open spec fn time_space() -> int {
    0x1_0000_0000_0000
}

/// The ULID built from a timestamp and a random value, each truncated to its
/// width.
pub open spec fn ulid_of(timestamp_ms: u64, random: u128) -> u128 {
    ((timestamp_ms as int % time_space()) * rand_space() + random as int % rand_space()) as u128
}

/// The timestamp part of a ULID.
pub open spec fn ulid_timestamp(id: u128) -> u64 {
    (id as int / rand_space()) as u64
}

/// Relies on `ulid::Ulid::from_parts`: the timestamp is masked to 48 bits and
/// shifted above the random part, masked to 80 bits.
#[verifier::external_body]
fn ulid_from_parts(timestamp_ms: u64, random: u128) -> (r: u128)
    ensures
        r == ulid_of(timestamp_ms, random),
{
    ulid::Ulid::from_parts(timestamp_ms, random).0
}

/// Relies on `ulid::Ulid::timestamp_ms`: the bits above the 80 random bits.
#[verifier::external_body]
fn ulid_timestamp_ms(id: u128) -> (r: u64)
    ensures
        r == ulid_timestamp(id),
{
    ulid::Ulid(id).timestamp_ms()
}

/// The `k`-th identifier minted during one operation at `now` from the random
/// value `random`.
pub open spec fn spec_mint(now: u64, random: u128, k: u128) -> u128 {
    ulid_of(now, (random / 16 + k) as u128)
}

/// Mints the `k`-th identifier of an operation (`k < 16`); distinct `k` give
/// distinct random parts before truncation.
pub fn mint(now: u64, random: u128, k: u128) -> (r: u128)
    requires
        k < 16,
    ensures
        r == spec_mint(now, random, k),
{
    ulid_from_parts(now, random / 16 + k)
}

/// The creation time encoded in an identifier.
pub fn created_at_of(id: u128) -> (r: u64)
    ensures
        r == ulid_timestamp(id),
{
    ulid_timestamp_ms(id)
}

} // verus!
