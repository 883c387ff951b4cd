use vstd::prelude::*;

verus! {

/// Fee for creating a market: $5.00 in micro-units (6 implied decimals).
pub const CREATE_FEE: u64 = 5_000_000;

/// Smallest stake accepted for an opinion or a reaction: $0.50.
pub const MIN_STAKE: u64 = 500_000;

/// Largest stake accepted for an opinion or a reaction: $10.00.
pub const MAX_STAKE: u64 = 10_000_000;

/// Protocol fee on the pool, in basis points (10%).
pub const PROTOCOL_FEE_BPS: u64 = 1_000;

/// Longest market statement, in characters.
pub const MAX_STATEMENT_LEN: usize = 280;

/// Longest opinion text locator, in characters.
pub const MAX_IPFS_CID_LEN: usize = 64;

/// Weight of the peer-backing layer in the composite score.
pub const WEIGHT_MULTIPLIER: u64 = 50;

/// Weight of the crowd-consensus layer in the composite score.
pub const CONSENSUS_MULTIPLIER: u64 = 30;

/// Weight of the oracle-quality layer in the composite score.
pub const AI_MULTIPLIER: u64 = 20;

/// Accepted market durations, in seconds.
pub const DURATION_24H: u64 = 86_400;
pub const DURATION_3D: u64 = 259_200;
pub const DURATION_7D: u64 = 604_800;
pub const DURATION_14D: u64 = 1_209_600;

/// Time after a market's close before its stakers may recover their stakes (14 days).
pub const RECOVERY_PERIOD: i64 = 1_209_600;

/// A 32-byte account identity.
#[derive(Clone, Copy, Debug)]
pub struct Pubkey {
    pub bytes: [u8; 32],
}

impl Pubkey {
    pub fn new_from_array(bytes: [u8; 32]) -> (r: Pubkey)
        ensures
            r.bytes == bytes,
    {
        Pubkey { bytes }
    }

    pub fn to_bytes(&self) -> (r: [u8; 32])
        ensures
            r == self.bytes,
    {
        self.bytes
    }

    /// Byte-wise comparison of two identities.
    pub fn same(&self, other: &Pubkey) -> (r: bool)
        ensures
            r == (*self == *other),
    {
        let mut i: usize = 0;
        while i < 32
            invariant
                0 <= i <= 32,
                forall|j: int| 0 <= j < i ==> self.bytes[j] == other.bytes[j],
            decreases 32 - i,
        {
            if self.bytes[i] != other.bytes[i] {
                return false;
            }
            i = i + 1;
        }
        proof {
            broadcast use vstd::array::group_array_axioms;
            assert(self.bytes =~= other.bytes);
        }
        true
    }
}

impl PartialEq for Pubkey {
    fn eq(&self, other: &Pubkey) -> (r: bool) {
        self.same(other)
    }
}

impl vstd::std_specs::cmp::PartialEqSpecImpl for Pubkey {
    open spec fn obeys_eq_spec() -> bool {
        true
    }

    open spec fn eq_spec(&self, other: &Pubkey) -> bool {
        *self == *other
    }
}

/// Every way an operation can be refused.
#[derive(Clone, Copy, Debug, PartialEq, Eq, Structural)]
pub enum OpinionError {
    StatementEmpty,
    StatementTooLong,
    InvalidDuration,
    StakeTooSmall,
    StakeTooLarge,
    CidTooLong,
    MarketNotActive,
    MarketExpired,
    MarketNotExpired,
    MarketNotClosed,
    MarketNotScored,
    InvalidScore,
    InvalidConfidence,
    InvalidPrediction,
    Unauthorized,
    MintMismatch,
    TreasuryMismatch,
    EmptyPrizePool,
    MarketNotAwaitingRandomness,
    RandomnessNotReady,
    CannotReactToOwnOpinion,
    MarketNotAwaitingSettlement,
    AlreadyPaid,
    ZeroTotalScore,
    Overflow,
    /// The configuration has already been set.
    AlreadyInitialized,
    /// The opinion's composite score has already been written.
    AlreadySettled,
    /// The supplied score total differs from the one the market accumulated.
    TotalScoreMismatch,
    /// The staker already holds an opinion on this market.
    AlreadyStaked,
    /// The reactor already reacted to this opinion.
    AlreadyReacted,
    /// No opinion with that identity exists on this market.
    OpinionNotFound,
    /// The escrow does not hold the amount to be paid out.
    InsufficientFunds,
}

/// Lifecycle of a market.
#[derive(Clone, Copy, Debug, PartialEq, Eq, Structural)]
pub enum MarketState {
    Active,
    Closed,
    /// Awaiting per-opinion settlement.
    Scored,
    /// Single-winner lottery mode, kept for older markets.
    AwaitingRandomness,
    Settled,
}

/// A peer's vote on an opinion.
#[derive(Clone, Copy, Debug, PartialEq, Eq, Structural)]
pub enum ReactionType {
    /// Agree: adds to the opinion's backing total.
    Back,
    /// Disagree: adds to the opinion's slashing total.
    Slash,
}

/// The authority registry: who the oracle is, where fees go, which asset is staked.
#[derive(Clone, Copy, Debug)]
pub struct ProgramConfig {
    pub oracle_authority: Pubkey,
    pub treasury: Pubkey,
    pub usdc_mint: Pubkey,
}

/// What the engine reads of a token account: the asset it holds and its owner.
#[derive(Clone, Copy, Debug)]
pub struct TokenAccount {
    pub mint: Pubkey,
    pub owner: Pubkey,
}

/// A single opinion market.
#[derive(Clone, Debug)]
pub struct Market {
    pub creator: Pubkey,
    pub uuid: [u8; 16],
    pub statement: String,
    pub created_at: i64,
    pub closes_at: i64,
    pub state: MarketState,
    pub staker_count: u32,
    /// Everything staked, opinions and reactions, in micro-units.
    pub total_stake: u64,
    /// What remains of the pool after the protocol fee; zero until finalization.
    pub distributable_pool: u64,
    /// Volume-weighted mean of all predictions, written at settlement.
    pub crowd_score: u8,
    /// Market-level sentiment, 0 to 100.
    pub sentiment_score: u8,
    /// 0 = low, 1 = medium, 2 = high.
    pub confidence: u8,
    pub summary_hash: [u8; 32],
    /// The first claimant, for display.
    pub winner: Option<Pubkey>,
    /// Sum of the composite scores of the opinions settled so far.
    pub total_combined_score: u64,
}

/// One staker's position on a market.
#[derive(Clone, Debug)]
pub struct Opinion {
    pub market: Pubkey,
    pub staker: Pubkey,
    pub stake_amount: u64,
    pub text_hash: [u8; 32],
    pub ipfs_cid: String,
    pub created_at: i64,
    /// The staker's 0 to 100 agreement prediction.
    pub prediction: u8,
    /// Own stake plus every Back reaction.
    pub backing_total: u64,
    /// Every Slash reaction.
    pub slashing_total: u64,
    pub weight_score: u8,
    pub consensus_score: u8,
    pub ai_score: u8,
    /// Composite of the three layers, 0 to 100.
    pub combined_score: u8,
    /// What a payout claim paid to the staker.
    pub payout_amount: u64,
    /// Set once funds for this opinion have left escrow, by a claim or a recovery.
    pub paid: bool,
    /// Set once the composite score has been written.
    pub settled: bool,
    /// Set when the staker took the stake back from an abandoned market.
    pub recovered: bool,
}

/// A Back or Slash vote by one reactor on one opinion.
#[derive(Clone, Copy, Debug)]
pub struct Reaction {
    pub opinion: Pubkey,
    pub reactor: Pubkey,
    pub reaction_type: ReactionType,
    pub stake_amount: u64,
}

/// The accepted market durations.
pub open spec fn valid_duration(d: u64) -> bool {
    d == DURATION_24H || d == DURATION_3D || d == DURATION_7D || d == DURATION_14D
}

} // verus!
