use vstd::prelude::*;
use vstd::arithmetic::div_mod::lemma_fundamental_div_mod;
use crate::book::{
    has_key, has_reaction, lemma_no_payouts_before_settlement, lemma_sum_le, lemma_sum_nonneg,
    lemma_sum_zero, opinion_ok, payouts, reaction_stakes, recoveries, remainders, scores, shares,
    stakes, sum_of, MarketBook,
};
use crate::program::{
    claim_error, finalize_error, finalized, funding_error, lottery_error, recover_error,
    recovery_deadline,
};
use crate::state::{
    Market, MarketState, Opinion, OpinionError, ProgramConfig, Pubkey, Reaction, ReactionType,
    TokenAccount,
};

verus! {

/// Before finalization, and while no stake has been recovered, the market's total stake
/// is the sum of every opinion stake and every reaction stake, and the escrow holds
/// exactly that total.
pub proof fn lemma_stake_conservation(book: MarketBook)
    requires
        book.wf(),
        book.market.state != MarketState::Settled,
        forall|i: int| 0 <= i < book.opinions@.len() ==> !(#[trigger] book.opinions@[i]).recovered,
    ensures
        book.market.total_stake == sum_of(stakes(book.opinions@)) + sum_of(
            reaction_stakes(book.reactions@),
        ),
        book.escrow == book.market.total_stake,
{
    let ops = book.opinions@;
    lemma_no_payouts_before_settlement(ops, book.market);
    assert forall|k: int| 0 <= k < recoveries(ops).len() implies recoveries(ops)[k] == 0 by {
        assert(!ops[k].recovered);
    }
    lemma_sum_zero(recoveries(ops));
}

/// A finalized market cannot be finalized again, nor settled by the lottery; the fee and
/// the distributable pool add up to the total stake, and the fee is a tenth of it,
/// rounded down.
pub proof fn lemma_finalize_once(
    before: Market,
    after: Market,
    fee: u64,
    config: ProgramConfig,
    caller: Pubkey,
    treasury_usdc: TokenAccount,
    winner_token_account: TokenAccount,
    winner: Pubkey,
    escrow: u64,
)
    requires
        finalized(before, after, fee),
    ensures
        finalize_error(config, caller, after, treasury_usdc, escrow) is Some,
        lottery_error(config, caller, after, winner_token_account, treasury_usdc, winner, escrow) is Some,
        fee + after.distributable_pool == before.total_stake,
        fee == before.total_stake / 10,
{
}

/// A claim on an opinion that has been paid is always refused.
pub proof fn lemma_no_double_claim(
    config: ProgramConfig,
    staker: Pubkey,
    market: Market,
    opinion: Opinion,
    staker_usdc: TokenAccount,
    total_combined_score: u64,
    escrow: u64,
)
    requires
        opinion.paid,
    ensures
        claim_error(config, staker, market, opinion, staker_usdc, total_combined_score, escrow) is Some,
{
}

/// For the owner of an unpaid opinion, with escrow enough to refund it, recovery is
/// refused before `closes_at + RECOVERY_PERIOD` and allowed from that instant on exactly
/// while the market is not Settled.
pub proof fn lemma_recovery_window(
    config: ProgramConfig,
    staker: Pubkey,
    market: Market,
    opinion: Opinion,
    staker_usdc: TokenAccount,
    escrow: u64,
    now: i64,
)
    requires
        opinion.staker == staker,
        funding_error(config, staker_usdc, staker) is None,
        !opinion.paid,
        escrow >= opinion.stake_amount,
    ensures
        now < recovery_deadline(market) ==> recover_error(config, staker, market, opinion, staker_usdc, escrow, now)
            == Some(OpinionError::MarketNotExpired),
        recover_error(config, staker, market, opinion, staker_usdc, escrow, now) is None <==> (now
            >= recovery_deadline(market) && market.state != MarketState::Settled),
{
}

/// Once a reactor has reacted to an opinion, every further reaction by that reactor to
/// that opinion is refused for uniqueness.
pub proof fn lemma_react_once(
    book: MarketBook,
    reactor: Pubkey,
    reactor_usdc: TokenAccount,
    opinion_key: Pubkey,
    reaction_type: ReactionType,
    stake_amount: u64,
    now: i64,
)
    requires
        book.wf(),
        has_reaction(book.reactions@, opinion_key, reactor),
    ensures
        book.react_refusal(reactor, reactor_usdc, opinion_key, reaction_type, stake_amount, now)
            == Some(OpinionError::AlreadyReacted),
{
    let j = choose|j: int|
        0 <= j < book.reactions@.len() && book.reactions@[j].opinion == opinion_key
            && book.reactions@[j].reactor == reactor;
    let r: Reaction = book.reactions@[j];
    assert(has_key(book.opinion_keys@, r.opinion));
}

/// Rounded-down shares and what rounding drops add up to the exact proportional split.
proof fn lemma_share_identity(ops: Seq<Opinion>, pool: int, total: int)
    requires
        total > 0,
        pool >= 0,
    ensures
        sum_of(shares(ops, pool, total)) * total + sum_of(remainders(ops, pool, total)) == sum_of(
            scores(ops),
        ) * pool,
        forall|i: int| 0 <= i < ops.len() ==> #[trigger] remainders(ops, pool, total)[i] >= 0,
        forall|i: int| 0 <= i < ops.len() ==> #[trigger] shares(ops, pool, total)[i] >= 0,
    decreases ops.len(),
{
    assert forall|i: int| 0 <= i < ops.len() implies #[trigger] remainders(ops, pool, total)[i]
        >= 0 && shares(ops, pool, total)[i] >= 0 by {
        let c = ops[i].combined_score as int;
        assert((c * pool) % total >= 0 && (c * pool) / total >= 0) by (nonlinear_arith)
            requires
                c >= 0,
                pool >= 0,
                total > 0,
        ;
    }
    assert forall|i: int| 0 <= i < ops.len() implies #[trigger] shares(ops, pool, total)[i]
        >= 0 by {
        assert(remainders(ops, pool, total)[i] >= 0 && shares(ops, pool, total)[i] >= 0);
    }
    if ops.len() > 0 {
        let rest = ops.drop_last();
        lemma_share_identity(rest, pool, total);
        assert(shares(ops, pool, total).drop_last() =~= shares(rest, pool, total));
        assert(remainders(ops, pool, total).drop_last() =~= remainders(rest, pool, total));
        assert(scores(ops).drop_last() =~= scores(rest));
        let c = ops.last().combined_score as int;
        let s = sum_of(shares(rest, pool, total));
        let rm = sum_of(remainders(rest, pool, total));
        let sc = sum_of(scores(rest));
        let f = (c * pool) / total;
        let r = (c * pool) % total;
        lemma_fundamental_div_mod(c * pool, total);
        assert((s + f) * total + (rm + r) == (sc + c) * pool) by (nonlinear_arith)
            requires
                s * total + rm == sc * pool,
                c * pool == total * f + r,
        ;
    }
}

/// Every payout is at most the distributable pool in sum. When every opinion has been
/// paid by a claim, the payouts use the whole pool exactly when the score total divides
/// each `combined_score × distributable_pool`.
pub proof fn lemma_payouts_within_pool(book: MarketBook)
    requires
        book.wf(),
        book.market.state == MarketState::Settled,
    ensures
        sum_of(payouts(book.opinions@)) <= book.market.distributable_pool,
        book.market.total_combined_score > 0 && (forall|i: int|
            0 <= i < book.opinions@.len() ==> (#[trigger] book.opinions@[i]).paid
                && !book.opinions@[i].recovered) ==> (sum_of(payouts(book.opinions@))
            == book.market.distributable_pool <==> forall|i: int|
            0 <= i < book.opinions@.len() ==> (#[trigger] book.opinions@[i].combined_score
                * book.market.distributable_pool) % (book.market.total_combined_score as int) == 0),
{
    let ops = book.opinions@;
    let m = book.market;
    let pool = m.distributable_pool as int;
    let total = m.total_combined_score as int;
    if total == 0 {
        assert forall|k: int| 0 <= k < payouts(ops).len() implies payouts(ops)[k] == 0 by {
            assert(opinion_ok(ops[k], m));
        }
        lemma_sum_zero(payouts(ops));
    } else {
        lemma_share_identity(ops, pool, total);
        let sh = shares(ops, pool, total);
        let rem = remainders(ops, pool, total);
        assert forall|k: int| 0 <= k < payouts(ops).len() implies payouts(ops)[k] <= sh[k] by {
            assert(opinion_ok(ops[k], m));
            assert(sh[k] >= 0);
        }
        lemma_sum_le(payouts(ops), sh);
        lemma_sum_nonneg(rem);
        let s = sum_of(sh);
        let rm = sum_of(rem);
        assert(s <= pool) by (nonlinear_arith)
            requires
                s * total + rm == total * pool,
                rm >= 0,
                total > 0,
        ;
        if forall|i: int| 0 <= i < ops.len() ==> (#[trigger] ops[i]).paid && !ops[i].recovered {
            assert forall|k: int| 0 <= k < payouts(ops).len() implies payouts(ops)[k] == sh[k] by {
                assert(opinion_ok(ops[k], m));
                assert(ops[k].paid && !ops[k].recovered);
            }
            assert(payouts(ops) =~= sh);
            assert(s == pool <==> rm == 0) by (nonlinear_arith)
                requires
                    s * total + rm == total * pool,
                    rm >= 0,
                    total > 0,
            ;
            if rm == 0 {
                assert forall|i: int| 0 <= i < ops.len() implies (#[trigger] ops[i].combined_score
                    * m.distributable_pool) % total == 0 by {
                    assert(rem[i] == 0);
                }
            }
            if forall|i: int|
                0 <= i < ops.len() ==> (#[trigger] ops[i].combined_score * m.distributable_pool)
                    % total == 0 {
                assert forall|k: int| 0 <= k < rem.len() implies rem[k] == 0 by {
                    assert((ops[k].combined_score * m.distributable_pool) % total == 0);
                }
                lemma_sum_zero(rem);
            }
        }
    }
}

} // verus!
