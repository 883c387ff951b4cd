use vstd::prelude::*;
use crate::program::{
    ai_score_error, claim_error, claim_payout, close_error, close_market, create_error, create_market,
    finalize_error, finalize_settlement, finalized, fresh_market, fresh_opinion, lottery_error,
    outcome_matches, react_error, react_to_opinion, reacted, record_ai_score, record_sentiment,
    recover_error, recover_stake, run_lottery, sentiment_error, settle_error, settle_opinion,
    stake_error, stake_opinion,
};
use crate::scoring::{combined_score_of, payout_of, protocol_fee_of, FeeSplit};
use crate::state::ReactionType;
use crate::state::{Market, MarketState, Opinion, OpinionError, ProgramConfig, Pubkey, Reaction, TokenAccount};

verus! {

// ── Sums over records ────────────────────────────────────────────────────────

/// Sum of a sequence of integers.
pub open spec fn sum_of(s: Seq<int>) -> int
    decreases s.len(),
{
    if s.len() == 0 {
        0
    } else {
        sum_of(s.drop_last()) + s.last()
    }
}

/// Each opinion's stake.
pub open spec fn stakes(ops: Seq<Opinion>) -> Seq<int> {
    ops.map_values(|o: Opinion| o.stake_amount as int)
}

/// Each opinion's claimed payout.
pub open spec fn payouts(ops: Seq<Opinion>) -> Seq<int> {
    ops.map_values(|o: Opinion| o.payout_amount as int)
}

/// Each opinion's stake if it was recovered, else zero.
pub open spec fn recoveries(ops: Seq<Opinion>) -> Seq<int> {
    ops.map_values(|o: Opinion| if o.recovered { o.stake_amount as int } else { 0 })
}

/// Each opinion's composite score.
pub open spec fn scores(ops: Seq<Opinion>) -> Seq<int> {
    ops.map_values(|o: Opinion| o.combined_score as int)
}

/// Each reaction's stake.
pub open spec fn reaction_stakes(rs: Seq<Reaction>) -> Seq<int> {
    rs.map_values(|r: Reaction| r.stake_amount as int)
}

/// Each opinion's proportional share of `pool` among scores totalling `total`.
pub open spec fn shares(ops: Seq<Opinion>, pool: int, total: int) -> Seq<int> {
    ops.map_values(|o: Opinion| payout_of(o.combined_score as int, pool, total))
}

/// What each opinion's share loses to rounding down.
pub open spec fn remainders(ops: Seq<Opinion>, pool: int, total: int) -> Seq<int> {
    ops.map_values(|o: Opinion| (o.combined_score * pool) % total)
}

proof fn lemma_sum_push(s: Seq<int>, x: int)
    ensures
        sum_of(s.push(x)) == sum_of(s) + x,
{
    assert(s.push(x).drop_last() =~= s);
}

proof fn lemma_sum_update(s: Seq<int>, i: int, x: int)
    requires
        0 <= i < s.len(),
    ensures
        sum_of(s.update(i, x)) == sum_of(s) - s[i] + x,
    decreases s.len(),
{
    if i == s.len() - 1 {
        assert(s.update(i, x).drop_last() =~= s.drop_last());
    } else {
        lemma_sum_update(s.drop_last(), i, x);
        assert(s.update(i, x).drop_last() =~= s.drop_last().update(i, x));
    }
}

pub(crate) proof fn lemma_sum_zero(s: Seq<int>)
    requires
        forall|i: int| 0 <= i < s.len() ==> s[i] == 0,
    ensures
        sum_of(s) == 0,
    decreases s.len(),
{
    if s.len() > 0 {
        lemma_sum_zero(s.drop_last());
    }
}

pub(crate) proof fn lemma_sum_le(a: Seq<int>, b: Seq<int>)
    requires
        a.len() == b.len(),
        forall|i: int| 0 <= i < a.len() ==> a[i] <= b[i],
    ensures
        sum_of(a) <= sum_of(b),
    decreases a.len(),
{
    if a.len() > 0 {
        lemma_sum_le(a.drop_last(), b.drop_last());
    }
}

pub(crate) proof fn lemma_sum_nonneg(s: Seq<int>)
    requires
        forall|i: int| 0 <= i < s.len() ==> s[i] >= 0,
    ensures
        sum_of(s) >= 0,
        sum_of(s) == 0 ==> forall|i: int| 0 <= i < s.len() ==> s[i] == 0,
    decreases s.len(),
{
    if s.len() > 0 {
        lemma_sum_nonneg(s.drop_last());
        assert forall|i: int| 0 <= i < s.len() && sum_of(s) == 0 implies s[i] == 0 by {
            if i < s.len() - 1 {
                assert(s.drop_last()[i] == s[i]);
            }
        }
    }
}

/// Replacing one opinion changes every per-opinion sequence at that place only.
proof fn lemma_opinion_update(ops: Seq<Opinion>, i: int, o: Opinion)
    requires
        0 <= i < ops.len(),
    ensures
        sum_of(stakes(ops.update(i, o))) == sum_of(stakes(ops)) - ops[i].stake_amount + o.stake_amount,
        sum_of(payouts(ops.update(i, o))) == sum_of(payouts(ops)) - ops[i].payout_amount + o.payout_amount,
        sum_of(recoveries(ops.update(i, o))) == sum_of(recoveries(ops)) - recoveries(ops)[i]
            + recoveries(ops.update(i, o))[i],
        sum_of(scores(ops.update(i, o))) == sum_of(scores(ops)) - ops[i].combined_score
            + o.combined_score,
{
    assert(stakes(ops.update(i, o)) =~= stakes(ops).update(i, o.stake_amount as int));
    assert(payouts(ops.update(i, o)) =~= payouts(ops).update(i, o.payout_amount as int));
    assert(recoveries(ops.update(i, o)) =~= recoveries(ops).update(i, recoveries(ops.update(i, o))[i]));
    assert(scores(ops.update(i, o)) =~= scores(ops).update(i, o.combined_score as int));
    lemma_sum_update(stakes(ops), i, o.stake_amount as int);
    lemma_sum_update(payouts(ops), i, o.payout_amount as int);
    lemma_sum_update(recoveries(ops), i, recoveries(ops.update(i, o))[i]);
    lemma_sum_update(scores(ops), i, o.combined_score as int);
}

/// Appending an opinion adds its values to every per-opinion sum.
proof fn lemma_opinion_push(ops: Seq<Opinion>, o: Opinion)
    ensures
        sum_of(stakes(ops.push(o))) == sum_of(stakes(ops)) + o.stake_amount,
        sum_of(payouts(ops.push(o))) == sum_of(payouts(ops)) + o.payout_amount,
        sum_of(recoveries(ops.push(o))) == sum_of(recoveries(ops)) + (if o.recovered {
            o.stake_amount as int
        } else {
            0
        }),
        sum_of(scores(ops.push(o))) == sum_of(scores(ops)) + o.combined_score,
{
    assert(stakes(ops.push(o)) =~= stakes(ops).push(o.stake_amount as int));
    assert(payouts(ops.push(o)) =~= payouts(ops).push(o.payout_amount as int));
    assert(recoveries(ops.push(o)) =~= recoveries(ops).push(
        if o.recovered {
            o.stake_amount as int
        } else {
            0
        },
    ));
    assert(scores(ops.push(o)) =~= scores(ops).push(o.combined_score as int));
    lemma_sum_push(stakes(ops), o.stake_amount as int);
    lemma_sum_push(payouts(ops), o.payout_amount as int);
    lemma_sum_push(
        recoveries(ops),
        if o.recovered {
            o.stake_amount as int
        } else {
            0
        },
    );
    lemma_sum_push(scores(ops), o.combined_score as int);
}

// ── The book of one market ───────────────────────────────────────────────────

/// One market with every record that refers to it and its escrow balance.
pub struct MarketBook {
    pub config: ProgramConfig,
    pub market_key: Pubkey,
    pub market: Market,
    /// The address of each opinion, in the order of `opinions`.
    pub opinion_keys: Vec<Pubkey>,
    pub opinions: Vec<Opinion>,
    pub reactions: Vec<Reaction>,
    /// What the market's escrow holds.
    pub escrow: u64,
    /// Protocol fees sent from escrow to the treasury.
    pub fees_paid: u64,
    /// The lottery prize sent from escrow to a single winner.
    pub prize_paid: u64,
}

/// Whether `reactor` has reacted to the opinion at `key`.
pub open spec fn has_reaction(rs: Seq<Reaction>, key: Pubkey, reactor: Pubkey) -> bool {
    exists|j: int| 0 <= j < rs.len() && rs[j].opinion == key && rs[j].reactor == reactor
}

/// Whether some opinion of the book was staked by `staker`.
pub open spec fn has_staker(ops: Seq<Opinion>, staker: Pubkey) -> bool {
    exists|i: int| 0 <= i < ops.len() && ops[i].staker == staker
}

/// Whether some opinion of the book lives at `key`.
pub open spec fn has_key(keys: Seq<Pubkey>, key: Pubkey) -> bool {
    exists|i: int| 0 <= i < keys.len() && keys[i] == key
}

/// What each opinion of a well-formed book satisfies: a composite score only once
/// settled; a payout only once paid, and then either a recovery or the opinion's share.
pub open spec fn opinion_ok(o: Opinion, m: Market) -> bool {
    &&& !o.settled ==> o.combined_score == 0
    &&& o.combined_score <= 100
    &&& !o.paid ==> o.payout_amount == 0 && !o.recovered
    &&& o.recovered ==> o.paid && o.payout_amount == 0
    &&& o.paid && !o.recovered ==> m.state == MarketState::Settled && m.total_combined_score > 0
        && o.payout_amount == payout_of(
        o.combined_score as int,
        m.distributable_pool as int,
        m.total_combined_score as int,
    )
}

/// Opinions have distinct stakers and distinct addresses, and all belong to the market.
pub open spec fn ids_ok(ops: Seq<Opinion>, keys: Seq<Pubkey>, market_key: Pubkey) -> bool {
    &&& forall|i: int, j: int|
        #![trigger ops[i], ops[j]]
        0 <= i < j < ops.len() ==> ops[i].staker != ops[j].staker && keys[i] != keys[j]
    &&& forall|i: int| 0 <= i < ops.len() ==> (#[trigger] ops[i]).market == market_key
}

/// Each reactor reacted at most once to each opinion, and only to opinions of the book.
pub open spec fn reactions_ok(rs: Seq<Reaction>, keys: Seq<Pubkey>) -> bool {
    &&& forall|i: int, j: int|
        0 <= i < j < rs.len() ==> !(#[trigger] rs[i].opinion == #[trigger] rs[j].opinion
            && rs[i].reactor == rs[j].reactor)
    &&& forall|j: int| 0 <= j < rs.len() ==> has_key(keys, (#[trigger] rs[j]).opinion)
}

proof fn lemma_ids_update(ops: Seq<Opinion>, keys: Seq<Pubkey>, market_key: Pubkey, i: int, o: Opinion)
    requires
        ids_ok(ops, keys, market_key),
        ops.len() == keys.len(),
        0 <= i < ops.len(),
        o.staker == ops[i].staker,
        o.market == ops[i].market,
    ensures
        ids_ok(ops.update(i, o), keys, market_key),
{
    let u = ops.update(i, o);
    assert forall|a: int, b: int|
        #![trigger u[a], u[b]]
        0 <= a < b < u.len() implies u[a].staker != u[b].staker && keys[a] != keys[b] by {
        let (x, y) = (ops[a], ops[b]);
        assert(x.staker != y.staker && keys[a] != keys[b]);
    }
    assert forall|a: int| 0 <= a < u.len() implies (#[trigger] u[a]).market == market_key by {
        assert(ops[a].market == market_key);
    }
}

proof fn lemma_key_index(ops: Seq<Opinion>, keys: Seq<Pubkey>, market_key: Pubkey, i: int)
    requires
        ids_ok(ops, keys, market_key),
        ops.len() == keys.len(),
        0 <= i < keys.len(),
    ensures
        key_index(keys, keys[i]) == i,
{
    let j = key_index(keys, keys[i]);
    assert(0 <= j < keys.len() && keys[j] == keys[i]);
    if j < i {
        let (x, y) = (ops[j], ops[i]);
        assert(x.staker != y.staker && keys[j] != keys[i]);
    } else if j > i {
        let (x, y) = (ops[i], ops[j]);
        assert(x.staker != y.staker && keys[i] != keys[j]);
    }
}

proof fn lemma_staker_index(ops: Seq<Opinion>, keys: Seq<Pubkey>, market_key: Pubkey, i: int)
    requires
        ids_ok(ops, keys, market_key),
        ops.len() == keys.len(),
        0 <= i < ops.len(),
    ensures
        staker_index(ops, ops[i].staker) == i,
{
    let j = staker_index(ops, ops[i].staker);
    assert(0 <= j < ops.len() && ops[j].staker == ops[i].staker);
    if j < i {
        let (x, y) = (ops[j], ops[i]);
        assert(x.staker != y.staker);
    } else if j > i {
        let (x, y) = (ops[i], ops[j]);
        assert(x.staker != y.staker);
    }
}

/// The market fields that the per-opinion invariant reads.
pub open spec fn same_payout_terms(a: Market, b: Market) -> bool {
    &&& a.state == b.state
    &&& a.total_combined_score == b.total_combined_score
    &&& a.distributable_pool == b.distributable_pool
}

/// The index of the opinion at `key` (meaningful where `has_key(keys, key)`).
pub open spec fn key_index(keys: Seq<Pubkey>, key: Pubkey) -> int {
    choose|i: int| 0 <= i < keys.len() && keys[i] == key
}

/// The index of the opinion staked by `staker` (meaningful where `has_staker(ops, staker)`).
pub open spec fn staker_index(ops: Seq<Opinion>, staker: Pubkey) -> int {
    choose|i: int| 0 <= i < ops.len() && ops[i].staker == staker
}

/// Two books hold the same records and balances.
pub open spec fn same_book(a: MarketBook, b: MarketBook) -> bool {
    &&& a.config == b.config
    &&& a.market_key == b.market_key
    &&& a.market == b.market
    &&& a.opinion_keys@ == b.opinion_keys@
    &&& a.opinions@ == b.opinions@
    &&& a.reactions@ == b.reactions@
    &&& a.escrow == b.escrow
    &&& a.fees_paid == b.fees_paid
    &&& a.prize_paid == b.prize_paid
}

/// The per-opinion invariant survives a market change that keeps the payout terms, or
/// any market change before settlement (when no opinion holds a claimed payout).
proof fn lemma_ok_same(ops: Seq<Opinion>, before: Market, after: Market)
    requires
        forall|k: int| 0 <= k < ops.len() ==> opinion_ok(#[trigger] ops[k], before),
        before.state != MarketState::Settled || same_payout_terms(before, after),
    ensures
        forall|k: int| 0 <= k < ops.len() ==> opinion_ok(#[trigger] ops[k], after),
{
    assert forall|k: int| 0 <= k < ops.len() implies opinion_ok(#[trigger] ops[k], after) by {
        assert(opinion_ok(ops[k], before));
    }
}

/// As `lemma_ok_same`, with one opinion replaced by one that satisfies the invariant.
proof fn lemma_ok_update(ops: Seq<Opinion>, before: Market, after: Market, i: int, o: Opinion)
    requires
        forall|k: int| 0 <= k < ops.len() ==> opinion_ok(#[trigger] ops[k], before),
        before.state != MarketState::Settled || same_payout_terms(before, after),
        0 <= i < ops.len(),
        opinion_ok(o, after),
    ensures
        forall|k: int| 0 <= k < ops.len() ==> opinion_ok(#[trigger] ops.update(i, o)[k], after),
{
    lemma_ok_same(ops, before, after);
    assert forall|k: int| 0 <= k < ops.len() implies opinion_ok(
        #[trigger] ops.update(i, o)[k],
        after,
    ) by {
        if k != i {
            assert(opinion_ok(ops[k], after));
        }
    }
}

/// Before settlement no opinion holds a claimed payout.
pub(crate) proof fn lemma_no_payouts_before_settlement(ops: Seq<Opinion>, m: Market)
    requires
        forall|k: int| 0 <= k < ops.len() ==> opinion_ok(#[trigger] ops[k], m),
        m.state != MarketState::Settled,
    ensures
        sum_of(payouts(ops)) == 0,
{
    assert forall|k: int| 0 <= k < payouts(ops).len() implies payouts(ops)[k] == 0 by {
        assert(opinion_ok(ops[k], m));
    }
    lemma_sum_zero(payouts(ops));
}

impl MarketBook {
    /// The book's accounting invariant.
    pub open spec fn wf(&self) -> bool {
        let ops = self.opinions@;
        let keys = self.opinion_keys@;
        let rs = self.reactions@;
        let m = self.market;
        &&& ops.len() == keys.len()
        &&& ids_ok(ops, keys, self.market_key)
        &&& reactions_ok(rs, keys)
        &&& m.total_stake == sum_of(stakes(ops)) + sum_of(reaction_stakes(rs))
        &&& self.escrow + sum_of(payouts(ops)) + sum_of(recoveries(ops)) + self.fees_paid
            + self.prize_paid == m.total_stake
        &&& m.total_combined_score == sum_of(scores(ops))
        &&& forall|i: int| 0 <= i < ops.len() ==> opinion_ok(#[trigger] ops[i], m)
        &&& m.state != MarketState::Settled ==> self.fees_paid == 0 && self.prize_paid == 0
            && m.distributable_pool == 0
        &&& m.state == MarketState::Settled ==> {
            ||| self.fees_paid == protocol_fee_of(m.total_stake as int) && self.prize_paid == 0
                && m.distributable_pool == m.total_stake - self.fees_paid
            ||| self.fees_paid + self.prize_paid == m.total_stake && m.distributable_pool == 0
        }
    }

    /// Creates a market and an empty book for it.
    pub fn open(
        config: ProgramConfig,
        market_key: Pubkey,
        creator: Pubkey,
        creator_usdc: &TokenAccount,
        treasury_usdc: &TokenAccount,
        statement: String,
        duration_secs: u64,
        uuid: [u8; 16],
        now: i64,
    ) -> (r: Result<MarketBook, OpinionError>)
        ensures
            outcome_matches(
                r,
                create_error(config, creator, *creator_usdc, *treasury_usdc, statement@, duration_secs, now),
            ),
            r matches Ok(b) ==> {
                &&& b.wf()
                &&& b.config == config
                &&& b.market_key == market_key
                &&& fresh_market(b.market, creator, statement@, duration_secs, uuid, now)
                &&& b.opinions@.len() == 0
                &&& b.reactions@.len() == 0
                &&& b.escrow == 0
            },
    {
        let market = create_market(
            &config,
            creator,
            creator_usdc,
            treasury_usdc,
            statement,
            duration_secs,
            uuid,
            now,
        )?;
        let book = MarketBook {
            config,
            market_key,
            market,
            opinion_keys: Vec::new(),
            opinions: Vec::new(),
            reactions: Vec::new(),
            escrow: 0,
            fees_paid: 0,
            prize_paid: 0,
        };
        proof {
            assert(stakes(book.opinions@) =~= Seq::<int>::empty());
            assert(payouts(book.opinions@) =~= Seq::<int>::empty());
            assert(recoveries(book.opinions@) =~= Seq::<int>::empty());
            assert(scores(book.opinions@) =~= Seq::<int>::empty());
            assert(reaction_stakes(book.reactions@) =~= Seq::<int>::empty());
        }
        Ok(book)
    }

    /// The index of the opinion staked by `staker`, if any.
    pub fn find_staker(&self, staker: &Pubkey) -> (r: Option<usize>)
        ensures
            r matches Some(i) ==> i < self.opinions@.len() && self.opinions@[i as int].staker
                == *staker,
            r is None ==> !has_staker(self.opinions@, *staker),
    {
        let mut i: usize = 0;
        while i < self.opinions.len()
            invariant
                0 <= i <= self.opinions@.len(),
                forall|j: int| 0 <= j < i ==> self.opinions@[j].staker != *staker,
            decreases self.opinions@.len() - i,
        {
            if self.opinions[i].staker.same(staker) {
                return Some(i);
            }
            i = i + 1;
        }
        None
    }

    /// The index of the opinion that lives at `key`, if any.
    pub fn find_key(&self, key: &Pubkey) -> (r: Option<usize>)
        ensures
            r matches Some(i) ==> i < self.opinion_keys@.len() && self.opinion_keys@[i as int]
                == *key,
            r is None ==> !has_key(self.opinion_keys@, *key),
    {
        let mut i: usize = 0;
        while i < self.opinion_keys.len()
            invariant
                0 <= i <= self.opinion_keys@.len(),
                forall|j: int| 0 <= j < i ==> self.opinion_keys@[j] != *key,
            decreases self.opinion_keys@.len() - i,
        {
            if self.opinion_keys[i].same(key) {
                return Some(i);
            }
            i = i + 1;
        }
        None
    }

    /// Whether `reactor` has already reacted to the opinion at `key`.
    pub fn reacted_before(&self, key: &Pubkey, reactor: &Pubkey) -> (r: bool)
        ensures
            r == has_reaction(self.reactions@, *key, *reactor),
    {
        let mut j: usize = 0;
        while j < self.reactions.len()
            invariant
                0 <= j <= self.reactions@.len(),
                forall|k: int|
                    0 <= k < j ==> !(self.reactions@[k].opinion == *key
                        && self.reactions@[k].reactor == *reactor),
            decreases self.reactions@.len() - j,
        {
            if self.reactions[j].opinion.same(key) && self.reactions[j].reactor.same(reactor) {
                return true;
            }
            j = j + 1;
        }
        false
    }

    /// Stakes a new opinion, living at `opinion_key`. A staker holds at most one opinion
    /// per market, and an address holds at most one opinion.
    pub fn stake(
        &mut self,
        opinion_key: Pubkey,
        staker: Pubkey,
        staker_usdc: &TokenAccount,
        stake_amount: u64,
        text_hash: [u8; 32],
        ipfs_cid: String,
        prediction: u8,
        now: i64,
    ) -> (r: Result<(), OpinionError>)
        requires
            old(self).wf(),
        ensures
            final(self).wf(),
            outcome_matches(
                r,
                if has_staker(old(self).opinions@, staker) || has_key(old(self).opinion_keys@, opinion_key) {
                    Some(OpinionError::AlreadyStaked)
                } else {
                    stake_error(
                        old(self).config,
                        old(self).market,
                        staker,
                        *staker_usdc,
                        stake_amount,
                        ipfs_cid@,
                        prediction,
                        old(self).escrow,
                        now,
                    )
                },
            ),
            r is Ok ==> {
                &&& final(self).opinions@.len() == old(self).opinions@.len() + 1
                &&& final(self).opinions@.drop_last() == old(self).opinions@
                &&& fresh_opinion(
                    final(self).opinions@.last(),
                    old(self).market_key,
                    staker,
                    stake_amount,
                    text_hash,
                    ipfs_cid@,
                    prediction,
                    now,
                )
                &&& final(self).opinion_keys@ == old(self).opinion_keys@.push(opinion_key)
                &&& final(self).market.total_stake == old(self).market.total_stake + stake_amount
                &&& final(self).escrow == old(self).escrow + stake_amount
                &&& final(self).reactions@ == old(self).reactions@
            },
            r is Err ==> *final(self) == *old(self),
    {
        if self.find_staker(&staker).is_some() || self.find_key(&opinion_key).is_some() {
            return Err(OpinionError::AlreadyStaked);
        }
        let ghost before = *self;
        let opinion = stake_opinion(
            &self.config,
            &mut self.market,
            self.market_key,
            staker,
            staker_usdc,
            stake_amount,
            text_hash,
            ipfs_cid,
            prediction,
            &mut self.escrow,
            now,
        )?;
        proof {
            lemma_opinion_push(before.opinions@, opinion);
        }
        self.opinions.push(opinion);
        self.opinion_keys.push(opinion_key);
        proof {
            let ops = self.opinions@;
            let keys = self.opinion_keys@;
            assert(ops.drop_last() =~= before.opinions@);
            assert forall|j: int| 0 <= j < self.reactions@.len() implies has_key(
                keys,
                (#[trigger] self.reactions@[j]).opinion,
            ) by {
                let k = choose|k: int|
                    0 <= k < before.opinion_keys@.len() && before.opinion_keys@[k]
                        == self.reactions@[j].opinion;
                assert(keys[k] == before.opinion_keys@[k]);
            }
            assert forall|i: int, j: int|
                #![trigger ops[i], ops[j]]
                0 <= i < j < ops.len() implies ops[i].staker != ops[j].staker && keys[i]
                    != keys[j] by {
                if j == ops.len() - 1 {
                    assert(ops[i] == before.opinions@[i]);
                    assert(keys[i] == before.opinion_keys@[i]);
                } else {
                    assert(ops[i] == before.opinions@[i]);
                    assert(ops[j] == before.opinions@[j]);
                }
            }
            assert forall|i: int| 0 <= i < ops.len() implies (#[trigger] ops[i]).market
                == self.market_key by {
                if i < ops.len() - 1 {
                    assert(ops[i] == before.opinions@[i]);
                }
            }
            assert forall|i: int| 0 <= i < ops.len() implies opinion_ok(
                #[trigger] ops[i],
                self.market,
            ) by {
                if i < ops.len() - 1 {
                    assert(ops[i] == before.opinions@[i]);
                    assert(opinion_ok(before.opinions@[i], before.market));
                }
            }
        }
        Ok(())
    }

    /// The refusal owed to a reaction on the opinion at `opinion_key`, if any.
    pub open spec fn react_refusal(
        &self,
        reactor: Pubkey,
        reactor_usdc: TokenAccount,
        opinion_key: Pubkey,
        reaction_type: ReactionType,
        stake_amount: u64,
        now: i64,
    ) -> Option<OpinionError> {
        if !has_key(self.opinion_keys@, opinion_key) {
            Some(OpinionError::OpinionNotFound)
        } else if has_reaction(self.reactions@, opinion_key, reactor) {
            Some(OpinionError::AlreadyReacted)
        } else {
            react_error(
                self.config,
                self.market,
                self.opinions@[key_index(self.opinion_keys@, opinion_key)],
                reactor,
                reactor_usdc,
                reaction_type,
                stake_amount,
                self.escrow,
                now,
            )
        }
    }

    /// Backs or slashes the opinion at `opinion_key`. Each reactor reacts at most once to
    /// each opinion.
    pub fn react(
        &mut self,
        reactor: Pubkey,
        reactor_usdc: &TokenAccount,
        opinion_key: Pubkey,
        reaction_type: ReactionType,
        stake_amount: u64,
        now: i64,
    ) -> (r: Result<(), OpinionError>)
        requires
            old(self).wf(),
        ensures
            final(self).wf(),
            outcome_matches(
                r,
                old(self).react_refusal(reactor, *reactor_usdc, opinion_key, reaction_type, stake_amount, now),
            ),
            r is Ok ==> {
                let i = key_index(old(self).opinion_keys@, opinion_key);
                &&& final(self).reactions@ == old(self).reactions@.push(
                    (Reaction { opinion: opinion_key, reactor, reaction_type, stake_amount }),
                )
                &&& final(self).opinions@ == old(self).opinions@.update(
                    i,
                    reacted(old(self).opinions@[i], reaction_type, stake_amount),
                )
                &&& final(self).market.total_stake == old(self).market.total_stake + stake_amount
                &&& final(self).escrow == old(self).escrow + stake_amount
                &&& final(self).opinion_keys@ == old(self).opinion_keys@
            },
            r is Err ==> same_book(*final(self), *old(self)),
    {
        let i = match self.find_key(&opinion_key) {
            Some(i) => i,
            None => {
                return Err(OpinionError::OpinionNotFound);
            },
        };
        if self.reacted_before(&opinion_key, &reactor) {
            return Err(OpinionError::AlreadyReacted);
        }
        let ghost before = *self;
        proof {
            lemma_key_index(before.opinions@, before.opinion_keys@, before.market_key, i as int);
        }
        let res = react_to_opinion(
            &self.config,
            &mut self.market,
            &mut self.opinions[i],
            opinion_key,
            reactor,
            reactor_usdc,
            reaction_type,
            stake_amount,
            &mut self.escrow,
            now,
        );
        let reaction = match res {
            Ok(x) => x,
            Err(e) => {
                proof {
                    assert(self.opinions@ =~= before.opinions@);
                }
                return Err(e);
            },
        };
        self.reactions.push(reaction);
        proof {
            let ops = before.opinions@;
            let o = self.opinions@[i as int];
            assert(self.opinions@ =~= ops.update(i as int, o));
            lemma_opinion_update(ops, i as int, o);
            lemma_ids_update(ops, before.opinion_keys@, before.market_key, i as int, o);
            assert(opinion_ok(ops[i as int], before.market));
            lemma_ok_update(ops, before.market, self.market, i as int, o);
            let rs = self.reactions@;
            assert(reaction_stakes(rs) =~= reaction_stakes(before.reactions@).push(
                stake_amount as int,
            ));
            lemma_sum_push(reaction_stakes(before.reactions@), stake_amount as int);
            assert forall|a: int, b: int| 0 <= a < b < rs.len() implies !(
            #[trigger] rs[a].opinion == #[trigger] rs[b].opinion && rs[a].reactor == rs[b].reactor) by {
                if b == rs.len() - 1 {
                    assert(rs[a] == before.reactions@[a]);
                } else {
                    assert(rs[a] == before.reactions@[a] && rs[b] == before.reactions@[b]);
                }
            }
            assert forall|j: int| 0 <= j < rs.len() implies has_key(
                self.opinion_keys@,
                (#[trigger] rs[j]).opinion,
            ) by {
                if j == rs.len() - 1 {
                    assert(self.opinion_keys@[i as int] == opinion_key);
                } else {
                    assert(rs[j] == before.reactions@[j]);
                }
            }
        }
        Ok(())
    }

    /// Closes the market once its closing time has come.
    pub fn close(&mut self, now: i64) -> (r: Result<(), OpinionError>)
        requires
            old(self).wf(),
        ensures
            final(self).wf(),
            outcome_matches(r, close_error(old(self).market, now)),
            r is Ok ==> same_book(
                *final(self),
                (MarketBook { market: (Market { state: MarketState::Closed, ..old(self).market }), ..*old(self) }),
            ),
            r is Err ==> same_book(*final(self), *old(self)),
    {
        let ghost before = *self;
        let r = close_market(&mut self.market, now);
        proof {
            lemma_ok_same(before.opinions@, before.market, self.market);
        }
        r
    }

    /// The oracle records the market's sentiment.
    pub fn record_sentiment(
        &mut self,
        caller: Pubkey,
        score: u8,
        confidence: u8,
        summary_hash: [u8; 32],
    ) -> (r: Result<(), OpinionError>)
        requires
            old(self).wf(),
        ensures
            final(self).wf(),
            outcome_matches(r, sentiment_error(old(self).config, caller, old(self).market, score, confidence)),
            r is Ok ==> same_book(
                *final(self),
                (MarketBook {
                    market: (Market {
                        sentiment_score: score,
                        confidence,
                        summary_hash,
                        state: MarketState::Scored,
                        ..old(self).market
                    }),
                    ..*old(self)
                }),
            ),
            r is Err ==> same_book(*final(self), *old(self)),
    {
        let ghost before = *self;
        let r = record_sentiment(&self.config, caller, &mut self.market, score, confidence, summary_hash);
        proof {
            lemma_ok_same(before.opinions@, before.market, self.market);
        }
        r
    }

    /// The oracle records the quality score of the opinion at `opinion_key`.
    pub fn record_ai_score(&mut self, caller: Pubkey, opinion_key: Pubkey, ai_score: u8) -> (r: Result<
        (),
        OpinionError,
    >)
        requires
            old(self).wf(),
        ensures
            final(self).wf(),
            outcome_matches(
                r,
                if !has_key(old(self).opinion_keys@, opinion_key) {
                    Some(OpinionError::OpinionNotFound)
                } else {
                    ai_score_error(old(self).config, caller, old(self).market, ai_score)
                },
            ),
            r is Ok ==> {
                let i = key_index(old(self).opinion_keys@, opinion_key);
                same_book(
                    *final(self),
                    (MarketBook {
                        opinions: final(self).opinions,
                        ..*old(self)
                    }),
                ) && final(self).opinions@ == old(self).opinions@.update(
                    i,
                    (Opinion { ai_score, ..old(self).opinions@[i] }),
                )
            },
            r is Err ==> same_book(*final(self), *old(self)),
    {
        let i = match self.find_key(&opinion_key) {
            Some(i) => i,
            None => {
                return Err(OpinionError::OpinionNotFound);
            },
        };
        let ghost before = *self;
        proof {
            lemma_key_index(before.opinions@, before.opinion_keys@, before.market_key, i as int);
        }
        let r = record_ai_score(&self.config, caller, &self.market, &mut self.opinions[i], ai_score);
        proof {
            let ops = before.opinions@;
            let o = self.opinions@[i as int];
            assert(self.opinions@ =~= ops.update(i as int, o));
            if r is Err {
                assert(self.opinions@ =~= ops);
            }
            lemma_opinion_update(ops, i as int, o);
            lemma_ids_update(ops, before.opinion_keys@, before.market_key, i as int, o);
            assert(opinion_ok(ops[i as int], before.market));
            lemma_ok_update(ops, before.market, self.market, i as int, o);
        }
        r
    }

    /// The oracle settles the opinion at `opinion_key`, once.
    pub fn settle(
        &mut self,
        caller: Pubkey,
        opinion_key: Pubkey,
        crowd_score: u8,
        weight_score: u8,
        consensus_score: u8,
    ) -> (r: Result<(), OpinionError>)
        requires
            old(self).wf(),
        ensures
            final(self).wf(),
            outcome_matches(
                r,
                if !has_key(old(self).opinion_keys@, opinion_key) {
                    Some(OpinionError::OpinionNotFound)
                } else {
                    settle_error(
                        old(self).config,
                        caller,
                        old(self).market,
                        old(self).opinions@[key_index(old(self).opinion_keys@, opinion_key)],
                        crowd_score,
                        weight_score,
                        consensus_score,
                    )
                },
            ),
            r is Ok ==> {
                let i = key_index(old(self).opinion_keys@, opinion_key);
                let o = old(self).opinions@[i];
                let combined = combined_score_of(
                    weight_score as int,
                    consensus_score as int,
                    o.ai_score as int,
                );
                &&& final(self).opinions@ == old(self).opinions@.update(
                    i,
                    (Opinion {
                        weight_score,
                        consensus_score,
                        combined_score: combined as u8,
                        settled: true,
                        ..o
                    }),
                )
                &&& final(self).market == (Market {
                    crowd_score,
                    total_combined_score: (old(self).market.total_combined_score + combined) as u64,
                    ..old(self).market
                })
                &&& final(self).escrow == old(self).escrow
            },
            r is Err ==> same_book(*final(self), *old(self)),
    {
        let i = match self.find_key(&opinion_key) {
            Some(i) => i,
            None => {
                return Err(OpinionError::OpinionNotFound);
            },
        };
        let ghost before = *self;
        proof {
            lemma_key_index(before.opinions@, before.opinion_keys@, before.market_key, i as int);
        }
        let r = settle_opinion(
            &self.config,
            caller,
            &mut self.market,
            &mut self.opinions[i],
            crowd_score,
            weight_score,
            consensus_score,
        );
        proof {
            let ops = before.opinions@;
            let o = self.opinions@[i as int];
            assert(self.opinions@ =~= ops.update(i as int, o));
            if r is Err {
                assert(self.opinions@ =~= ops);
            }
            lemma_opinion_update(ops, i as int, o);
            lemma_ids_update(ops, before.opinion_keys@, before.market_key, i as int, o);
            assert(opinion_ok(ops[i as int], before.market));
            lemma_ok_update(ops, before.market, self.market, i as int, o);
        }
        r
    }

    /// The oracle finalizes the market: the protocol fee leaves escrow for the treasury.
    pub fn finalize(&mut self, caller: Pubkey, treasury_usdc: &TokenAccount) -> (r: Result<
        FeeSplit,
        OpinionError,
    >)
        requires
            old(self).wf(),
        ensures
            final(self).wf(),
            outcome_matches(r, finalize_error(old(self).config, caller, old(self).market, *treasury_usdc, old(self).escrow)),
            r matches Ok(s) ==> {
                &&& finalized(old(self).market, final(self).market, s.protocol_fee)
                &&& final(self).escrow == old(self).escrow - s.protocol_fee
                &&& final(self).fees_paid == s.protocol_fee
                &&& final(self).opinions@ == old(self).opinions@
                &&& final(self).reactions@ == old(self).reactions@
            },
            r is Err ==> same_book(*final(self), *old(self)),
    {
        let ghost before = *self;
        let split = finalize_settlement(
            &self.config,
            caller,
            &mut self.market,
            treasury_usdc,
            &mut self.escrow,
        )?;
        self.fees_paid = split.protocol_fee;
        proof {
            lemma_ok_same(before.opinions@, before.market, self.market);
            lemma_no_payouts_before_settlement(before.opinions@, before.market);
        }
        Ok(split)
    }

    /// The refusal owed to a claim by `staker`, if any.
    pub open spec fn claim_refusal(&self, staker: Pubkey, staker_usdc: TokenAccount, total_combined_score: u64) -> Option<
        OpinionError,
    > {
        if !has_staker(self.opinions@, staker) {
            Some(OpinionError::OpinionNotFound)
        } else {
            claim_error(
                self.config,
                staker,
                self.market,
                self.opinions@[staker_index(self.opinions@, staker)],
                staker_usdc,
                total_combined_score,
                self.escrow,
            )
        }
    }

    /// A staker claims their share of the pool, once.
    pub fn claim(&mut self, staker: Pubkey, staker_usdc: &TokenAccount, total_combined_score: u64) -> (r: Result<
        u64,
        OpinionError,
    >)
        requires
            old(self).wf(),
        ensures
            final(self).wf(),
            outcome_matches(r, old(self).claim_refusal(staker, *staker_usdc, total_combined_score)),
            r matches Ok(p) ==> {
                let i = staker_index(old(self).opinions@, staker);
                let o = old(self).opinions@[i];
                &&& p == payout_of(
                    o.combined_score as int,
                    old(self).market.distributable_pool as int,
                    total_combined_score as int,
                )
                &&& final(self).opinions@ == old(self).opinions@.update(
                    i,
                    (Opinion { payout_amount: p, paid: true, ..o }),
                )
                &&& final(self).escrow == old(self).escrow - p
                &&& final(self).market.winner == if old(self).market.winner is None {
                    Some(staker)
                } else {
                    old(self).market.winner
                }
            },
            r is Err ==> same_book(*final(self), *old(self)),
    {
        let i = match self.find_staker(&staker) {
            Some(i) => i,
            None => {
                return Err(OpinionError::OpinionNotFound);
            },
        };
        let ghost before = *self;
        proof {
            lemma_staker_index(before.opinions@, before.opinion_keys@, before.market_key, i as int);
        }
        let r = claim_payout(
            &self.config,
            staker,
            &mut self.market,
            &mut self.opinions[i],
            staker_usdc,
            total_combined_score,
            &mut self.escrow,
        );
        proof {
            let ops = before.opinions@;
            let o = self.opinions@[i as int];
            assert(self.opinions@ =~= ops.update(i as int, o));
            if r is Err {
                assert(self.opinions@ =~= ops);
            }
            lemma_opinion_update(ops, i as int, o);
            lemma_ids_update(ops, before.opinion_keys@, before.market_key, i as int, o);
            assert(opinion_ok(ops[i as int], before.market));
            lemma_ok_update(ops, before.market, self.market, i as int, o);
        }
        r
    }

    /// The older single-winner path: fee and prize leave escrow.
    pub fn run_lottery(
        &mut self,
        caller: Pubkey,
        winner_token_account: &TokenAccount,
        treasury_usdc: &TokenAccount,
        winner_pubkey: Pubkey,
    ) -> (r: Result<FeeSplit, OpinionError>)
        requires
            old(self).wf(),
        ensures
            final(self).wf(),
            outcome_matches(
                r,
                lottery_error(
                    old(self).config,
                    caller,
                    old(self).market,
                    *winner_token_account,
                    *treasury_usdc,
                    winner_pubkey,
                    old(self).escrow,
                ),
            ),
            r matches Ok(s) ==> {
                &&& s.protocol_fee == protocol_fee_of(old(self).market.total_stake as int)
                &&& s.protocol_fee + s.pool == old(self).market.total_stake
                &&& final(self).market == (Market {
                    winner: Some(winner_pubkey),
                    state: MarketState::Settled,
                    ..old(self).market
                })
                &&& final(self).escrow == 0
                &&& final(self).fees_paid == s.protocol_fee
                &&& final(self).prize_paid == s.pool
            },
            r is Err ==> same_book(*final(self), *old(self)),
    {
        let ghost before = *self;
        proof {
            if before.market.state != MarketState::Settled {
                lemma_no_payouts_before_settlement(before.opinions@, before.market);
            }
            lemma_sum_nonneg(recoveries(before.opinions@));
        }
        let split = run_lottery(
            &self.config,
            caller,
            &mut self.market,
            winner_token_account,
            treasury_usdc,
            winner_pubkey,
            &mut self.escrow,
        )?;
        self.fees_paid = split.protocol_fee;
        self.prize_paid = split.pool;
        proof {
            lemma_ok_same(before.opinions@, before.market, self.market);
        }
        Ok(split)
    }

    /// The refusal owed to a recovery by `staker`, if any.
    pub open spec fn recover_refusal(&self, staker: Pubkey, staker_usdc: TokenAccount, now: i64) -> Option<
        OpinionError,
    > {
        if !has_staker(self.opinions@, staker) {
            Some(OpinionError::OpinionNotFound)
        } else {
            recover_error(
                self.config,
                staker,
                self.market,
                self.opinions@[staker_index(self.opinions@, staker)],
                staker_usdc,
                self.escrow,
                now,
            )
        }
    }

    /// A staker of an abandoned market takes back their own stake, once.
    pub fn recover(&mut self, staker: Pubkey, staker_usdc: &TokenAccount, now: i64) -> (r: Result<
        u64,
        OpinionError,
    >)
        requires
            old(self).wf(),
        ensures
            final(self).wf(),
            outcome_matches(r, old(self).recover_refusal(staker, *staker_usdc, now)),
            r matches Ok(amount) ==> {
                let i = staker_index(old(self).opinions@, staker);
                let o = old(self).opinions@[i];
                &&& amount == o.stake_amount
                &&& final(self).opinions@ == old(self).opinions@.update(
                    i,
                    (Opinion { paid: true, recovered: true, ..o }),
                )
                &&& final(self).escrow == old(self).escrow - amount
                &&& final(self).market == old(self).market
            },
            r is Err ==> same_book(*final(self), *old(self)),
    {
        let i = match self.find_staker(&staker) {
            Some(i) => i,
            None => {
                return Err(OpinionError::OpinionNotFound);
            },
        };
        let ghost before = *self;
        proof {
            lemma_staker_index(before.opinions@, before.opinion_keys@, before.market_key, i as int);
        }
        let r = recover_stake(&self.config, staker, &self.market, &mut self.opinions[i], staker_usdc, &mut self.escrow, now);
        proof {
            let ops = before.opinions@;
            let o = self.opinions@[i as int];
            assert(self.opinions@ =~= ops.update(i as int, o));
            if r is Err {
                assert(self.opinions@ =~= ops);
            }
            lemma_opinion_update(ops, i as int, o);
            lemma_ids_update(ops, before.opinion_keys@, before.market_key, i as int, o);
            assert(opinion_ok(ops[i as int], before.market));
            lemma_ok_update(ops, before.market, self.market, i as int, o);
        }
        r
    }
}

} // verus!
