use vstd::prelude::*;
use vstd::string::StrSliceExecFns;
use crate::scoring::{
    combined_score_of, fee_fits, payout_of, payout_share, protocol_fee_of, split_pool,
    triple_check_score, FeeSplit,
};
use crate::state::{
    valid_duration, Market, MarketState, Opinion, OpinionError, ProgramConfig, Pubkey, Reaction,
    ReactionType, TokenAccount, DURATION_14D, DURATION_24H, DURATION_3D, DURATION_7D,
    MAX_IPFS_CID_LEN, MAX_STAKE, MAX_STATEMENT_LEN, MIN_STAKE, RECOVERY_PERIOD,
};

verus! {

// ── Account checks ───────────────────────────────────────────────────────────

/// A funding account must hold the configured asset and belong to `owner`.
pub open spec fn funding_error(config: ProgramConfig, account: TokenAccount, owner: Pubkey) -> Option<OpinionError> {
    if account.mint != config.usdc_mint {
        Some(OpinionError::MintMismatch)
    } else if account.owner != owner {
        Some(OpinionError::Unauthorized)
    } else {
        None
    }
}

/// The treasury account must hold the configured asset and belong to the configured treasury.
pub open spec fn treasury_error(config: ProgramConfig, account: TokenAccount) -> Option<OpinionError> {
    if account.mint != config.usdc_mint {
        Some(OpinionError::MintMismatch)
    } else if account.owner != config.treasury {
        Some(OpinionError::TreasuryMismatch)
    } else {
        None
    }
}

/// Oracle-gated operations accept only the configured oracle.
pub open spec fn oracle_error(config: ProgramConfig, caller: Pubkey) -> Option<OpinionError> {
    if caller != config.oracle_authority {
        Some(OpinionError::Unauthorized)
    } else {
        None
    }
}

fn check_funding(config: &ProgramConfig, account: &TokenAccount, owner: &Pubkey) -> (r: Option<
    OpinionError,
>)
    ensures
        r == funding_error(*config, *account, *owner),
{
    if !account.mint.same(&config.usdc_mint) {
        Some(OpinionError::MintMismatch)
    } else if !account.owner.same(owner) {
        Some(OpinionError::Unauthorized)
    } else {
        None
    }
}

fn check_treasury(config: &ProgramConfig, account: &TokenAccount) -> (r: Option<OpinionError>)
    ensures
        r == treasury_error(*config, *account),
{
    if !account.mint.same(&config.usdc_mint) {
        Some(OpinionError::MintMismatch)
    } else if !account.owner.same(&config.treasury) {
        Some(OpinionError::TreasuryMismatch)
    } else {
        None
    }
}

fn check_oracle(config: &ProgramConfig, caller: &Pubkey) -> (r: Option<OpinionError>)
    ensures
        r == oracle_error(*config, *caller),
{
    if !caller.same(&config.oracle_authority) {
        Some(OpinionError::Unauthorized)
    } else {
        None
    }
}

/// Whether a result is the refusal owed (`Some`) or a success (`None`).
pub open spec fn outcome_matches<T>(r: Result<T, OpinionError>, owed: Option<OpinionError>) -> bool {
    match owed {
        Some(e) => r == Err::<T, OpinionError>(e),
        None => r is Ok,
    }
}

// ── Configuration ────────────────────────────────────────────────────────────

/// Sets the authority registry once; a second call is refused.
pub fn initialize(
    config: &mut Option<ProgramConfig>,
    oracle_authority: Pubkey,
    treasury: Pubkey,
    usdc_mint: Pubkey,
) -> (r: Result<(), OpinionError>)
    ensures
        *old(config) is Some ==> r == Err::<(), OpinionError>(OpinionError::AlreadyInitialized)
            && *final(config) == *old(config),
        *old(config) is None ==> r is Ok && *final(config) == Some(
            (ProgramConfig { oracle_authority, treasury, usdc_mint }),
        ),
{
    if config.is_some() {
        return Err(OpinionError::AlreadyInitialized);
    }
    *config = Some(ProgramConfig { oracle_authority, treasury, usdc_mint });
    Ok(())
}

// ── Market creation ──────────────────────────────────────────────────────────

/// The refusal owed to a market creation, if any, in the order the checks run.
pub open spec fn create_error(
    config: ProgramConfig,
    creator: Pubkey,
    creator_usdc: TokenAccount,
    treasury_usdc: TokenAccount,
    statement: Seq<char>,
    duration_secs: u64,
    now: i64,
) -> Option<OpinionError> {
    if funding_error(config, creator_usdc, creator) is Some {
        funding_error(config, creator_usdc, creator)
    } else if treasury_error(config, treasury_usdc) is Some {
        treasury_error(config, treasury_usdc)
    } else if statement.len() == 0 {
        Some(OpinionError::StatementEmpty)
    } else if statement.len() > MAX_STATEMENT_LEN {
        Some(OpinionError::StatementTooLong)
    } else if !valid_duration(duration_secs) {
        Some(OpinionError::InvalidDuration)
    } else if now + duration_secs > i64::MAX {
        Some(OpinionError::Overflow)
    } else {
        None
    }
}

/// A market as it stands right after creation.
pub open spec fn fresh_market(
    m: Market,
    creator: Pubkey,
    statement: Seq<char>,
    duration_secs: u64,
    uuid: [u8; 16],
    now: i64,
) -> bool {
    &&& m.creator == creator
    &&& m.uuid == uuid
    &&& m.statement@ == statement
    &&& m.created_at == now
    &&& m.closes_at == now + duration_secs
    &&& m.state == MarketState::Active
    &&& m.staker_count == 0
    &&& m.total_stake == 0
    &&& m.distributable_pool == 0
    &&& m.crowd_score == 0
    &&& m.sentiment_score == 0
    &&& m.confidence == 0
    &&& forall|i: int| 0 <= i < 32 ==> m.summary_hash[i] == 0
    &&& m.winner is None
    &&& m.total_combined_score == 0
}

fn is_valid_duration(d: u64) -> (r: bool)
    ensures
        r == valid_duration(d),
{
    d == DURATION_24H || d == DURATION_3D || d == DURATION_7D || d == DURATION_14D
}

/// Creates a market in the Active state; the creator pays `CREATE_FEE` to the treasury.
pub fn create_market(
    config: &ProgramConfig,
    creator: Pubkey,
    creator_usdc: &TokenAccount,
    treasury_usdc: &TokenAccount,
    statement: String,
    duration_secs: u64,
    uuid: [u8; 16],
    now: i64,
) -> (r: Result<Market, OpinionError>)
    ensures
        outcome_matches(
            r,
            create_error(*config, creator, *creator_usdc, *treasury_usdc, statement@, duration_secs, now),
        ),
        r matches Ok(m) ==> fresh_market(m, creator, statement@, duration_secs, uuid, now),
{
    if let Some(e) = check_funding(config, creator_usdc, &creator) {
        return Err(e);
    }
    if let Some(e) = check_treasury(config, treasury_usdc) {
        return Err(e);
    }
    let len = statement.as_str().unicode_len();
    if len == 0 {
        return Err(OpinionError::StatementEmpty);
    }
    if len > MAX_STATEMENT_LEN {
        return Err(OpinionError::StatementTooLong);
    }
    if !is_valid_duration(duration_secs) {
        return Err(OpinionError::InvalidDuration);
    }
    let closes_at = match now.checked_add(duration_secs as i64) {
        Some(t) => t,
        None => {
            return Err(OpinionError::Overflow);
        },
    };
    let summary_hash = [0u8; 32];
    proof {
        broadcast use vstd::array::group_array_axioms;
    }
    Ok(
        Market {
            creator,
            uuid,
            statement,
            created_at: now,
            closes_at,
            state: MarketState::Active,
            staker_count: 0,
            total_stake: 0,
            distributable_pool: 0,
            crowd_score: 0,
            sentiment_score: 0,
            confidence: 0,
            summary_hash,
            winner: None,
            total_combined_score: 0,
        },
    )
}

// ── Staking and reactions ────────────────────────────────────────────────────

/// Whether a market still takes stakes at `now`.
pub open spec fn open_error(market: Market, now: i64) -> Option<OpinionError> {
    if market.state != MarketState::Active {
        Some(OpinionError::MarketNotActive)
    } else if now >= market.closes_at {
        Some(OpinionError::MarketExpired)
    } else {
        None
    }
}

/// Whether a stake lies within the accepted bounds.
pub open spec fn amount_error(amount: u64) -> Option<OpinionError> {
    if amount < MIN_STAKE {
        Some(OpinionError::StakeTooSmall)
    } else if amount > MAX_STAKE {
        Some(OpinionError::StakeTooLarge)
    } else {
        None
    }
}

/// The refusal owed to a stake, if any, in the order the checks run.
pub open spec fn stake_error(
    config: ProgramConfig,
    market: Market,
    staker: Pubkey,
    staker_usdc: TokenAccount,
    stake_amount: u64,
    ipfs_cid: Seq<char>,
    prediction: u8,
    escrow: u64,
    now: i64,
) -> Option<OpinionError> {
    if funding_error(config, staker_usdc, staker) is Some {
        funding_error(config, staker_usdc, staker)
    } else if amount_error(stake_amount) is Some {
        amount_error(stake_amount)
    } else if ipfs_cid.len() > MAX_IPFS_CID_LEN {
        Some(OpinionError::CidTooLong)
    } else if prediction > 100 {
        Some(OpinionError::InvalidPrediction)
    } else if open_error(market, now) is Some {
        open_error(market, now)
    } else if market.total_stake + stake_amount > u64::MAX || escrow + stake_amount > u64::MAX {
        Some(OpinionError::Overflow)
    } else {
        None
    }
}

/// An opinion as it stands right after staking.
pub open spec fn fresh_opinion(
    o: Opinion,
    market_key: Pubkey,
    staker: Pubkey,
    stake_amount: u64,
    text_hash: [u8; 32],
    ipfs_cid: Seq<char>,
    prediction: u8,
    now: i64,
) -> bool {
    &&& o.market == market_key
    &&& o.staker == staker
    &&& o.stake_amount == stake_amount
    &&& o.text_hash == text_hash
    &&& o.ipfs_cid@ == ipfs_cid
    &&& o.created_at == now
    &&& o.prediction == prediction
    &&& o.backing_total == stake_amount
    &&& o.slashing_total == 0
    &&& o.weight_score == 0
    &&& o.consensus_score == 0
    &&& o.ai_score == 0
    &&& o.combined_score == 0
    &&& o.payout_amount == 0
    &&& !o.paid
    &&& !o.settled
    &&& !o.recovered
}

fn check_open(market: &Market, now: i64) -> (r: Option<OpinionError>)
    ensures
        r == open_error(*market, now),
{
    if market.state != MarketState::Active {
        Some(OpinionError::MarketNotActive)
    } else if now >= market.closes_at {
        Some(OpinionError::MarketExpired)
    } else {
        None
    }
}

fn check_amount(amount: u64) -> (r: Option<OpinionError>)
    ensures
        r == amount_error(amount),
{
    if amount < MIN_STAKE {
        Some(OpinionError::StakeTooSmall)
    } else if amount > MAX_STAKE {
        Some(OpinionError::StakeTooLarge)
    } else {
        None
    }
}

/// Stakes an opinion on an Active market before it closes; the stake moves into escrow.
/// On success the market's total grows by the stake and its staker count by one
/// (saturating); on refusal the market is unchanged.
pub fn stake_opinion(
    config: &ProgramConfig,
    market: &mut Market,
    market_key: Pubkey,
    staker: Pubkey,
    staker_usdc: &TokenAccount,
    stake_amount: u64,
    text_hash: [u8; 32],
    ipfs_cid: String,
    prediction: u8,
    escrow: &mut u64,
    now: i64,
) -> (r: Result<Opinion, OpinionError>)
    ensures
        outcome_matches(
            r,
            stake_error(
                *config,
                *old(market),
                staker,
                *staker_usdc,
                stake_amount,
                ipfs_cid@,
                prediction,
                *old(escrow),
                now,
            ),
        ),
        r is Ok ==> *final(escrow) == *old(escrow) + stake_amount,
        r is Err ==> *final(escrow) == *old(escrow),
        r matches Ok(o) ==> fresh_opinion(
            o,
            market_key,
            staker,
            stake_amount,
            text_hash,
            ipfs_cid@,
            prediction,
            now,
        ),
        r is Ok ==> *final(market) == (Market {
            total_stake: (old(market).total_stake + stake_amount) as u64,
            staker_count: if old(market).staker_count == u32::MAX {
                u32::MAX
            } else {
                (old(market).staker_count + 1) as u32
            },
            ..*old(market)
        }),
        r is Err ==> *final(market) == *old(market),
{
    if let Some(e) = check_funding(config, staker_usdc, &staker) {
        return Err(e);
    }
    if let Some(e) = check_amount(stake_amount) {
        return Err(e);
    }
    if ipfs_cid.as_str().unicode_len() > MAX_IPFS_CID_LEN {
        return Err(OpinionError::CidTooLong);
    }
    if prediction > 100 {
        return Err(OpinionError::InvalidPrediction);
    }
    if let Some(e) = check_open(market, now) {
        return Err(e);
    }
    let total_stake = match market.total_stake.checked_add(stake_amount) {
        Some(t) => t,
        None => {
            return Err(OpinionError::Overflow);
        },
    };
    let held = match escrow.checked_add(stake_amount) {
        Some(t) => t,
        None => {
            return Err(OpinionError::Overflow);
        },
    };
    *escrow = held;
    market.total_stake = total_stake;
    market.staker_count = market.staker_count.saturating_add(1);
    Ok(
        Opinion {
            market: market_key,
            staker,
            stake_amount,
            text_hash,
            ipfs_cid,
            created_at: now,
            prediction,
            backing_total: stake_amount,
            slashing_total: 0,
            weight_score: 0,
            consensus_score: 0,
            ai_score: 0,
            combined_score: 0,
            payout_amount: 0,
            paid: false,
            settled: false,
            recovered: false,
        },
    )
}

/// The opinion total that a reaction of `kind` adds to.
pub open spec fn reaction_target(opinion: Opinion, kind: ReactionType) -> u64 {
    match kind {
        ReactionType::Back => opinion.backing_total,
        ReactionType::Slash => opinion.slashing_total,
    }
}

/// The refusal owed to a reaction, if any, in the order the checks run.
pub open spec fn react_error(
    config: ProgramConfig,
    market: Market,
    opinion: Opinion,
    reactor: Pubkey,
    reactor_usdc: TokenAccount,
    kind: ReactionType,
    stake_amount: u64,
    escrow: u64,
    now: i64,
) -> Option<OpinionError> {
    if funding_error(config, reactor_usdc, reactor) is Some {
        funding_error(config, reactor_usdc, reactor)
    } else if amount_error(stake_amount) is Some {
        amount_error(stake_amount)
    } else if open_error(market, now) is Some {
        open_error(market, now)
    } else if reactor == opinion.staker {
        Some(OpinionError::CannotReactToOwnOpinion)
    } else if reaction_target(opinion, kind) + stake_amount > u64::MAX {
        Some(OpinionError::Overflow)
    } else if market.total_stake + stake_amount > u64::MAX || escrow + stake_amount > u64::MAX {
        Some(OpinionError::Overflow)
    } else {
        None
    }
}

/// The opinion after a reaction of `kind` and `amount` was added to it.
pub open spec fn reacted(opinion: Opinion, kind: ReactionType, amount: u64) -> Opinion {
    match kind {
        ReactionType::Back => Opinion {
            backing_total: (opinion.backing_total + amount) as u64,
            ..opinion
        },
        ReactionType::Slash => Opinion {
            slashing_total: (opinion.slashing_total + amount) as u64,
            ..opinion
        },
    }
}

/// Backs or slashes another staker's opinion while the market is open; the stake moves
/// into escrow. On success the opinion's backing (or slashing) total and the market's
/// total grow by the stake; on refusal neither record changes.
pub fn react_to_opinion(
    config: &ProgramConfig,
    market: &mut Market,
    opinion: &mut Opinion,
    opinion_key: Pubkey,
    reactor: Pubkey,
    reactor_usdc: &TokenAccount,
    reaction_type: ReactionType,
    stake_amount: u64,
    escrow: &mut u64,
    now: i64,
) -> (r: Result<Reaction, OpinionError>)
    ensures
        outcome_matches(
            r,
            react_error(
                *config,
                *old(market),
                *old(opinion),
                reactor,
                *reactor_usdc,
                reaction_type,
                stake_amount,
                *old(escrow),
                now,
            ),
        ),
        r is Ok ==> *final(escrow) == *old(escrow) + stake_amount,
        r is Err ==> *final(escrow) == *old(escrow),
        r matches Ok(x) ==> x == (Reaction { opinion: opinion_key, reactor, reaction_type, stake_amount }),
        r is Ok ==> *final(opinion) == reacted(*old(opinion), reaction_type, stake_amount)
            && *final(market) == (Market {
                total_stake: (old(market).total_stake + stake_amount) as u64,
                ..*old(market)
            }),
        r is Err ==> *final(market) == *old(market) && *final(opinion) == *old(opinion),
{
    if let Some(e) = check_funding(config, reactor_usdc, &reactor) {
        return Err(e);
    }
    if let Some(e) = check_amount(stake_amount) {
        return Err(e);
    }
    if let Some(e) = check_open(market, now) {
        return Err(e);
    }
    if reactor.same(&opinion.staker) {
        return Err(OpinionError::CannotReactToOwnOpinion);
    }
    let current = match reaction_type {
        ReactionType::Back => opinion.backing_total,
        ReactionType::Slash => opinion.slashing_total,
    };
    let updated = match current.checked_add(stake_amount) {
        Some(t) => t,
        None => {
            return Err(OpinionError::Overflow);
        },
    };
    let total_stake = match market.total_stake.checked_add(stake_amount) {
        Some(t) => t,
        None => {
            return Err(OpinionError::Overflow);
        },
    };
    let held = match escrow.checked_add(stake_amount) {
        Some(t) => t,
        None => {
            return Err(OpinionError::Overflow);
        },
    };
    *escrow = held;
    match reaction_type {
        ReactionType::Back => {
            opinion.backing_total = updated;
        },
        ReactionType::Slash => {
            opinion.slashing_total = updated;
        },
    }
    market.total_stake = total_stake;
    Ok(Reaction { opinion: opinion_key, reactor, reaction_type, stake_amount })
}

// ── Lifecycle ────────────────────────────────────────────────────────────────

/// The refusal owed to closing a market, if any.
pub open spec fn close_error(market: Market, now: i64) -> Option<OpinionError> {
    if market.state != MarketState::Active {
        Some(OpinionError::MarketNotActive)
    } else if now < market.closes_at {
        Some(OpinionError::MarketNotExpired)
    } else {
        None
    }
}

/// Closes an Active market once its closing time has come. Anyone may call it.
pub fn close_market(market: &mut Market, now: i64) -> (r: Result<(), OpinionError>)
    ensures
        outcome_matches(r, close_error(*old(market), now)),
        r is Ok ==> *final(market) == (Market { state: MarketState::Closed, ..*old(market) }),
        r is Err ==> *final(market) == *old(market),
{
    if market.state != MarketState::Active {
        return Err(OpinionError::MarketNotActive);
    }
    if now < market.closes_at {
        return Err(OpinionError::MarketNotExpired);
    }
    market.state = MarketState::Closed;
    Ok(())
}

/// The refusal owed to recording the market's sentiment, if any.
pub open spec fn sentiment_error(
    config: ProgramConfig,
    caller: Pubkey,
    market: Market,
    score: u8,
    confidence: u8,
) -> Option<OpinionError> {
    if oracle_error(config, caller) is Some {
        oracle_error(config, caller)
    } else if score > 100 {
        Some(OpinionError::InvalidScore)
    } else if confidence > 2 {
        Some(OpinionError::InvalidConfidence)
    } else if market.state != MarketState::Closed {
        Some(OpinionError::MarketNotClosed)
    } else {
        None
    }
}

/// The oracle records a Closed market's sentiment, which moves it to Scored.
pub fn record_sentiment(
    config: &ProgramConfig,
    caller: Pubkey,
    market: &mut Market,
    score: u8,
    confidence: u8,
    summary_hash: [u8; 32],
) -> (r: Result<(), OpinionError>)
    ensures
        outcome_matches(r, sentiment_error(*config, caller, *old(market), score, confidence)),
        r is Ok ==> *final(market) == (Market {
            sentiment_score: score,
            confidence,
            summary_hash,
            state: MarketState::Scored,
            ..*old(market)
        }),
        r is Err ==> *final(market) == *old(market),
{
    if let Some(e) = check_oracle(config, &caller) {
        return Err(e);
    }
    if score > 100 {
        return Err(OpinionError::InvalidScore);
    }
    if confidence > 2 {
        return Err(OpinionError::InvalidConfidence);
    }
    if market.state != MarketState::Closed {
        return Err(OpinionError::MarketNotClosed);
    }
    market.sentiment_score = score;
    market.confidence = confidence;
    market.summary_hash = summary_hash;
    market.state = MarketState::Scored;
    Ok(())
}

/// The refusal owed to recording an opinion's quality score, if any.
pub open spec fn ai_score_error(config: ProgramConfig, caller: Pubkey, market: Market, ai_score: u8) -> Option<
    OpinionError,
> {
    if oracle_error(config, caller) is Some {
        oracle_error(config, caller)
    } else if ai_score > 100 {
        Some(OpinionError::InvalidScore)
    } else if market.state != MarketState::Scored {
        Some(OpinionError::MarketNotScored)
    } else {
        None
    }
}

/// The oracle records the quality score of one opinion of a Scored market.
pub fn record_ai_score(
    config: &ProgramConfig,
    caller: Pubkey,
    market: &Market,
    opinion: &mut Opinion,
    ai_score: u8,
) -> (r: Result<(), OpinionError>)
    ensures
        outcome_matches(r, ai_score_error(*config, caller, *market, ai_score)),
        r is Ok ==> *final(opinion) == (Opinion { ai_score, ..*old(opinion) }),
        r is Err ==> *final(opinion) == *old(opinion),
{
    if let Some(e) = check_oracle(config, &caller) {
        return Err(e);
    }
    if ai_score > 100 {
        return Err(OpinionError::InvalidScore);
    }
    if market.state != MarketState::Scored {
        return Err(OpinionError::MarketNotScored);
    }
    opinion.ai_score = ai_score;
    Ok(())
}

/// The refusal owed to settling an opinion, if any.
pub open spec fn settle_error(
    config: ProgramConfig,
    caller: Pubkey,
    market: Market,
    opinion: Opinion,
    crowd_score: u8,
    weight_score: u8,
    consensus_score: u8,
) -> Option<OpinionError> {
    if oracle_error(config, caller) is Some {
        oracle_error(config, caller)
    } else if crowd_score > 100 || weight_score > 100 || consensus_score > 100 {
        Some(OpinionError::InvalidScore)
    } else if market.state != MarketState::Scored {
        Some(OpinionError::MarketNotScored)
    } else if opinion.settled {
        Some(OpinionError::AlreadySettled)
    } else if opinion.ai_score > 100 {
        Some(OpinionError::InvalidScore)
    } else if market.total_combined_score + combined_score_of(
        weight_score as int,
        consensus_score as int,
        opinion.ai_score as int,
    ) > u64::MAX {
        Some(OpinionError::Overflow)
    } else {
        None
    }
}

/// The oracle settles one opinion of a Scored market: it stores the layer scores, writes
/// the composite score once, and adds it to the market's running score total.
pub fn settle_opinion(
    config: &ProgramConfig,
    caller: Pubkey,
    market: &mut Market,
    opinion: &mut Opinion,
    crowd_score: u8,
    weight_score: u8,
    consensus_score: u8,
) -> (r: Result<(), OpinionError>)
    ensures
        outcome_matches(
            r,
            settle_error(*config, caller, *old(market), *old(opinion), crowd_score, weight_score, consensus_score),
        ),
        r is Ok ==> {
            let combined = combined_score_of(
                weight_score as int,
                consensus_score as int,
                old(opinion).ai_score as int,
            );
            &&& *final(opinion) == (Opinion {
                weight_score,
                consensus_score,
                combined_score: combined as u8,
                settled: true,
                ..*old(opinion)
            })
            &&& *final(market) == (Market {
                crowd_score,
                total_combined_score: (old(market).total_combined_score + combined) as u64,
                ..*old(market)
            })
        },
        r is Err ==> *final(market) == *old(market) && *final(opinion) == *old(opinion),
{
    if let Some(e) = check_oracle(config, &caller) {
        return Err(e);
    }
    if crowd_score > 100 || weight_score > 100 || consensus_score > 100 {
        return Err(OpinionError::InvalidScore);
    }
    if market.state != MarketState::Scored {
        return Err(OpinionError::MarketNotScored);
    }
    if opinion.settled {
        return Err(OpinionError::AlreadySettled);
    }
    if opinion.ai_score > 100 {
        return Err(OpinionError::InvalidScore);
    }
    let combined = triple_check_score(weight_score, consensus_score, opinion.ai_score);
    let total = match market.total_combined_score.checked_add(combined as u64) {
        Some(t) => t,
        None => {
            return Err(OpinionError::Overflow);
        },
    };
    market.crowd_score = crowd_score;
    market.total_combined_score = total;
    opinion.weight_score = weight_score;
    opinion.consensus_score = consensus_score;
    opinion.combined_score = combined;
    opinion.settled = true;
    Ok(())
}

// ── Settlement ───────────────────────────────────────────────────────────────

/// The refusal owed to finalizing a market, if any.
pub open spec fn finalize_error(
    config: ProgramConfig,
    caller: Pubkey,
    market: Market,
    treasury_usdc: TokenAccount,
    escrow: u64,
) -> Option<OpinionError> {
    if oracle_error(config, caller) is Some {
        oracle_error(config, caller)
    } else if treasury_error(config, treasury_usdc) is Some {
        treasury_error(config, treasury_usdc)
    } else if market.state != MarketState::Scored {
        Some(OpinionError::MarketNotScored)
    } else if market.total_stake == 0 {
        Some(OpinionError::EmptyPrizePool)
    } else if !fee_fits(market.total_stake as int) {
        Some(OpinionError::Overflow)
    } else if escrow < protocol_fee_of(market.total_stake as int) {
        Some(OpinionError::InsufficientFunds)
    } else {
        None
    }
}

/// The market after finalization with fee `fee`.
pub open spec fn finalized(before: Market, after: Market, fee: u64) -> bool {
    &&& fee == protocol_fee_of(before.total_stake as int)
    &&& after == (Market {
        distributable_pool: (before.total_stake - fee) as u64,
        state: MarketState::Settled,
        ..before
    })
}

/// The oracle finalizes a Scored market with a nonzero pool: the protocol fee goes to the
/// treasury and the rest becomes the distributable pool; the market becomes Settled.
pub fn finalize_settlement(
    config: &ProgramConfig,
    caller: Pubkey,
    market: &mut Market,
    treasury_usdc: &TokenAccount,
    escrow: &mut u64,
) -> (r: Result<FeeSplit, OpinionError>)
    ensures
        outcome_matches(r, finalize_error(*config, caller, *old(market), *treasury_usdc, *old(escrow))),
        r matches Ok(s) ==> *final(escrow) == *old(escrow) - s.protocol_fee,
        r is Err ==> *final(escrow) == *old(escrow),
        r matches Ok(s) ==> finalized(*old(market), *final(market), s.protocol_fee) && s.pool
            == final(market).distributable_pool && s.protocol_fee + s.pool == old(market).total_stake,
        r is Err ==> *final(market) == *old(market),
{
    if let Some(e) = check_oracle(config, &caller) {
        return Err(e);
    }
    if let Some(e) = check_treasury(config, treasury_usdc) {
        return Err(e);
    }
    if market.state != MarketState::Scored {
        return Err(OpinionError::MarketNotScored);
    }
    if market.total_stake == 0 {
        return Err(OpinionError::EmptyPrizePool);
    }
    let split = split_pool(market.total_stake)?;
    if *escrow < split.protocol_fee {
        return Err(OpinionError::InsufficientFunds);
    }
    *escrow = *escrow - split.protocol_fee;
    market.distributable_pool = split.pool;
    market.state = MarketState::Settled;
    Ok(split)
}

/// The refusal owed to a payout claim, if any.
pub open spec fn claim_error(
    config: ProgramConfig,
    staker: Pubkey,
    market: Market,
    opinion: Opinion,
    staker_usdc: TokenAccount,
    total_combined_score: u64,
    escrow: u64,
) -> Option<OpinionError> {
    if opinion.staker != staker {
        Some(OpinionError::Unauthorized)
    } else if funding_error(config, staker_usdc, staker) is Some {
        funding_error(config, staker_usdc, staker)
    } else if market.state != MarketState::Settled {
        Some(OpinionError::MarketNotAwaitingSettlement)
    } else if opinion.paid {
        Some(OpinionError::AlreadyPaid)
    } else if total_combined_score == 0 {
        Some(OpinionError::ZeroTotalScore)
    } else if total_combined_score != market.total_combined_score {
        Some(OpinionError::TotalScoreMismatch)
    } else if opinion.combined_score * market.distributable_pool > u64::MAX {
        Some(OpinionError::Overflow)
    } else if escrow < payout_of(
        opinion.combined_score as int,
        market.distributable_pool as int,
        total_combined_score as int,
    ) {
        Some(OpinionError::InsufficientFunds)
    } else {
        None
    }
}

/// A staker claims their share of a Settled market's pool, once:
/// `combined_score × distributable_pool / total_combined_score`, rounded down. The total
/// must equal the sum the market accumulated at settlement. The first claimant becomes
/// the market's displayed winner.
pub fn claim_payout(
    config: &ProgramConfig,
    staker: Pubkey,
    market: &mut Market,
    opinion: &mut Opinion,
    staker_usdc: &TokenAccount,
    total_combined_score: u64,
    escrow: &mut u64,
) -> (r: Result<u64, OpinionError>)
    ensures
        outcome_matches(
            r,
            claim_error(
                *config,
                staker,
                *old(market),
                *old(opinion),
                *staker_usdc,
                total_combined_score,
                *old(escrow),
            ),
        ),
        r matches Ok(p) ==> *final(escrow) == *old(escrow) - p,
        r is Err ==> *final(escrow) == *old(escrow),
        r matches Ok(p) ==> {
            &&& p == payout_of(
                old(opinion).combined_score as int,
                old(market).distributable_pool as int,
                total_combined_score as int,
            )
            &&& *final(opinion) == (Opinion { payout_amount: p, paid: true, ..*old(opinion) })
            &&& *final(market) == (Market {
                winner: if old(market).winner is None {
                    Some(staker)
                } else {
                    old(market).winner
                },
                ..*old(market)
            })
        },
        r is Err ==> *final(market) == *old(market) && *final(opinion) == *old(opinion),
{
    if !opinion.staker.same(&staker) {
        return Err(OpinionError::Unauthorized);
    }
    if let Some(e) = check_funding(config, staker_usdc, &staker) {
        return Err(e);
    }
    if market.state != MarketState::Settled {
        return Err(OpinionError::MarketNotAwaitingSettlement);
    }
    if opinion.paid {
        return Err(OpinionError::AlreadyPaid);
    }
    if total_combined_score == 0 {
        return Err(OpinionError::ZeroTotalScore);
    }
    if total_combined_score != market.total_combined_score {
        return Err(OpinionError::TotalScoreMismatch);
    }
    let payout = payout_share(opinion.combined_score, market.distributable_pool, total_combined_score)?;
    if *escrow < payout {
        return Err(OpinionError::InsufficientFunds);
    }
    *escrow = *escrow - payout;
    opinion.payout_amount = payout;
    opinion.paid = true;
    if market.winner.is_none() {
        market.winner = Some(staker);
    }
    Ok(payout)
}

/// The refusal owed to the single-winner lottery, if any.
pub open spec fn lottery_error(
    config: ProgramConfig,
    caller: Pubkey,
    market: Market,
    winner_token_account: TokenAccount,
    treasury_usdc: TokenAccount,
    winner: Pubkey,
    escrow: u64,
) -> Option<OpinionError> {
    if oracle_error(config, caller) is Some {
        oracle_error(config, caller)
    } else if winner_token_account.mint != config.usdc_mint {
        Some(OpinionError::MintMismatch)
    } else if treasury_error(config, treasury_usdc) is Some {
        treasury_error(config, treasury_usdc)
    } else if winner_token_account.owner != winner {
        Some(OpinionError::Unauthorized)
    } else if market.state != MarketState::Scored {
        Some(OpinionError::MarketNotScored)
    } else if market.total_stake == 0 {
        Some(OpinionError::EmptyPrizePool)
    } else if !fee_fits(market.total_stake as int) {
        Some(OpinionError::Overflow)
    } else if escrow < market.total_stake {
        Some(OpinionError::InsufficientFunds)
    } else {
        None
    }
}

/// The older single-winner path: from Scored, the oracle names a winner chosen off-chain;
/// the protocol fee goes to the treasury and the whole remainder to the winner.
pub fn run_lottery(
    config: &ProgramConfig,
    caller: Pubkey,
    market: &mut Market,
    winner_token_account: &TokenAccount,
    treasury_usdc: &TokenAccount,
    winner_pubkey: Pubkey,
    escrow: &mut u64,
) -> (r: Result<FeeSplit, OpinionError>)
    ensures
        outcome_matches(
            r,
            lottery_error(
                *config,
                caller,
                *old(market),
                *winner_token_account,
                *treasury_usdc,
                winner_pubkey,
                *old(escrow),
            ),
        ),
        r is Ok ==> *final(escrow) == *old(escrow) - old(market).total_stake,
        r is Err ==> *final(escrow) == *old(escrow),
        r matches Ok(s) ==> s.protocol_fee == protocol_fee_of(old(market).total_stake as int)
            && s.protocol_fee + s.pool == old(market).total_stake && *final(market) == (Market {
            winner: Some(winner_pubkey),
            state: MarketState::Settled,
            ..*old(market)
        }),
        r is Err ==> *final(market) == *old(market),
{
    if let Some(e) = check_oracle(config, &caller) {
        return Err(e);
    }
    if !winner_token_account.mint.same(&config.usdc_mint) {
        return Err(OpinionError::MintMismatch);
    }
    if let Some(e) = check_treasury(config, treasury_usdc) {
        return Err(e);
    }
    if !winner_token_account.owner.same(&winner_pubkey) {
        return Err(OpinionError::Unauthorized);
    }
    if market.state != MarketState::Scored {
        return Err(OpinionError::MarketNotScored);
    }
    if market.total_stake == 0 {
        return Err(OpinionError::EmptyPrizePool);
    }
    let split = split_pool(market.total_stake)?;
    if *escrow < market.total_stake {
        return Err(OpinionError::InsufficientFunds);
    }
    *escrow = *escrow - market.total_stake;
    market.winner = Some(winner_pubkey);
    market.state = MarketState::Settled;
    Ok(split)
}

// ── Recovery ─────────────────────────────────────────────────────────────────

/// The instant from which an abandoned market's stakes may be recovered.
pub open spec fn recovery_deadline(market: Market) -> int {
    market.closes_at + RECOVERY_PERIOD
}

/// The refusal owed to a stake recovery, if any.
pub open spec fn recover_error(
    config: ProgramConfig,
    staker: Pubkey,
    market: Market,
    opinion: Opinion,
    staker_usdc: TokenAccount,
    escrow: u64,
    now: i64,
) -> Option<OpinionError> {
    if opinion.staker != staker {
        Some(OpinionError::Unauthorized)
    } else if funding_error(config, staker_usdc, staker) is Some {
        funding_error(config, staker_usdc, staker)
    } else if now < recovery_deadline(market) {
        Some(OpinionError::MarketNotExpired)
    } else if market.state == MarketState::Settled {
        Some(OpinionError::MarketNotActive)
    } else if opinion.paid {
        Some(OpinionError::AlreadyPaid)
    } else if escrow < opinion.stake_amount {
        Some(OpinionError::InsufficientFunds)
    } else {
        None
    }
}

/// A staker of an abandoned market takes back their own stake, once, from
/// `closes_at + RECOVERY_PERIOD` on and while the market is not Settled. The market is
/// unchanged; the opinion is marked paid and recovered so that its funds leave escrow
/// only once.
pub fn recover_stake(
    config: &ProgramConfig,
    staker: Pubkey,
    market: &Market,
    opinion: &mut Opinion,
    staker_usdc: &TokenAccount,
    escrow: &mut u64,
    now: i64,
) -> (r: Result<u64, OpinionError>)
    ensures
        outcome_matches(
            r,
            recover_error(*config, staker, *market, *old(opinion), *staker_usdc, *old(escrow), now),
        ),
        r matches Ok(amount) ==> amount == old(opinion).stake_amount && *final(opinion) == (Opinion {
            paid: true,
            recovered: true,
            ..*old(opinion)
        }) && *final(escrow) == *old(escrow) - amount,
        r is Err ==> *final(escrow) == *old(escrow),
        r is Err ==> *final(opinion) == *old(opinion),
{
    if !opinion.staker.same(&staker) {
        return Err(OpinionError::Unauthorized);
    }
    if let Some(e) = check_funding(config, staker_usdc, &staker) {
        return Err(e);
    }
    if market.closes_at > i64::MAX - RECOVERY_PERIOD || now < market.closes_at + RECOVERY_PERIOD {
        return Err(OpinionError::MarketNotExpired);
    }
    if market.state == MarketState::Settled {
        return Err(OpinionError::MarketNotActive);
    }
    if opinion.paid {
        return Err(OpinionError::AlreadyPaid);
    }
    if *escrow < opinion.stake_amount {
        return Err(OpinionError::InsufficientFunds);
    }
    *escrow = *escrow - opinion.stake_amount;
    opinion.paid = true;
    opinion.recovered = true;
    Ok(opinion.stake_amount)
}

} // verus!
