use vstd::prelude::*;
use crate::state::{OpinionError, AI_MULTIPLIER, CONSENSUS_MULTIPLIER, PROTOCOL_FEE_BPS, WEIGHT_MULTIPLIER};

verus! {

/// The composite score in basis points: W×50 + C×30 + A×20.
pub open spec fn combined_bps_of(weight: int, consensus: int, ai: int) -> int {
    weight * 50 + consensus * 30 + ai * 20
}

/// The composite score on the 0 to 100 scale, rounded down.
pub open spec fn combined_score_of(weight: int, consensus: int, ai: int) -> int {
    combined_bps_of(weight, consensus, ai) / 100
}

/// The protocol's share of a pool: total × 1000 / 10000, rounded down.
pub open spec fn protocol_fee_of(total: int) -> int {
    total * 1000 / 10000
}

/// Whether computing the protocol fee of `total` stays within 64 bits.
pub open spec fn fee_fits(total: int) -> bool {
    total * 1000 <= u64::MAX
}

/// One opinion's share of the pool: score × pool / total score, rounded down.
pub open spec fn payout_of(score: int, pool: int, total_score: int) -> int {
    score * pool / total_score
}

/// The protocol fee and what is left for the participants.
#[derive(Clone, Copy, Debug, PartialEq, Eq, Structural)]
pub struct FeeSplit {
    pub protocol_fee: u64,
    pub pool: u64,
}

/// Combines the three layer scores into one composite score.
pub fn triple_check_score(weight: u8, consensus: u8, ai: u8) -> (r: u8)
    requires
        weight <= 100,
        consensus <= 100,
        ai <= 100,
    ensures
        r == combined_score_of(weight as int, consensus as int, ai as int),
        r <= 100,
{
    let bps: u64 = (weight as u64) * WEIGHT_MULTIPLIER + (consensus as u64) * CONSENSUS_MULTIPLIER
        + (ai as u64) * AI_MULTIPLIER;
    (bps / 100) as u8
}

/// Splits a pool into the protocol fee and the remainder, with checked arithmetic.
pub fn split_pool(total: u64) -> (r: Result<FeeSplit, OpinionError>)
    ensures
        r is Ok <==> fee_fits(total as int),
        r matches Ok(s) ==> s.protocol_fee == protocol_fee_of(total as int) && s.protocol_fee
            + s.pool == total,
        r matches Err(e) ==> e == OpinionError::Overflow,
{
    match total.checked_mul(PROTOCOL_FEE_BPS) {
        None => Err(OpinionError::Overflow),
        Some(scaled) => {
            let protocol_fee = scaled / 10_000;
            Ok(FeeSplit { protocol_fee, pool: total - protocol_fee })
        },
    }
}

/// One opinion's share of the pool, with checked arithmetic.
pub fn payout_share(score: u8, pool: u64, total_score: u64) -> (r: Result<u64, OpinionError>)
    requires
        total_score > 0,
    ensures
        r is Ok <==> score * pool <= u64::MAX,
        r matches Ok(p) ==> p == payout_of(score as int, pool as int, total_score as int),
        r matches Err(e) ==> e == OpinionError::Overflow,
{
    match (score as u64).checked_mul(pool) {
        None => Err(OpinionError::Overflow),
        Some(scaled) => Ok(scaled / total_score),
    }
}

} // verus!
