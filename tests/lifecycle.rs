use opinion_market::book::MarketBook;
use opinion_market::program::{
    claim_payout, close_market, create_market, finalize_settlement, initialize, react_to_opinion,
    record_ai_score, record_sentiment, recover_stake, run_lottery, settle_opinion, stake_opinion,
};
use opinion_market::scoring::{payout_share, split_pool, triple_check_score};
use opinion_market::state::{
    Market, MarketState, Opinion, OpinionError, ProgramConfig, Pubkey, ReactionType,
    TokenAccount, DURATION_24H, MAX_STAKE, MIN_STAKE, RECOVERY_PERIOD,
};

const NOW: i64 = 1_000;
const CLOSES: i64 = NOW + DURATION_24H as i64;

fn key(n: u8) -> Pubkey {
    Pubkey::new_from_array([n; 32])
}

fn oracle() -> Pubkey {
    key(1)
}

fn config() -> ProgramConfig {
    ProgramConfig { oracle_authority: key(1), treasury: key(2), usdc_mint: key(3) }
}

fn usdc(owner: Pubkey) -> TokenAccount {
    TokenAccount { mint: key(3), owner }
}

fn treasury() -> TokenAccount {
    usdc(key(2))
}

fn new_market(statement: &str) -> Result<Market, OpinionError> {
    create_market(&config(), key(9), &usdc(key(9)), &treasury(), statement.to_string(), DURATION_24H, [7; 16], NOW)
}

fn new_book() -> MarketBook {
    MarketBook::open(config(), key(50), key(9), &usdc(key(9)), &treasury(), "Rust is fun".to_string(), DURATION_24H, [7; 16], NOW)
        .unwrap()
}

fn stake(book: &mut MarketBook, who: u8, amount: u64) -> Result<(), OpinionError> {
    book.stake(key(100 + who), key(who), &usdc(key(who)), amount, [0; 32], "cid".to_string(), 60, NOW + 10)
}

/// Two stakers, one reaction, closed and scored, opinions settled with composite 77 and 58.
fn scored_book() -> MarketBook {
    let mut book = new_book();
    stake(&mut book, 10, 1_000_000).unwrap();
    stake(&mut book, 11, 2_000_000).unwrap();
    book.react(key(12), &usdc(key(12)), key(110), ReactionType::Back, 500_000, NOW + 20).unwrap();
    book.close(CLOSES).unwrap();
    book.record_sentiment(oracle(), 70, 1, [5; 32]).unwrap();
    book.record_ai_score(oracle(), key(110), 50).unwrap();
    book.record_ai_score(oracle(), key(111), 100).unwrap();
    book.settle(oracle(), key(110), 55, 80, 90).unwrap();
    book.settle(oracle(), key(111), 55, 40, 60).unwrap();
    book
}

#[test]
fn composite_score_example() {
    assert_eq!(triple_check_score(80, 90, 50), 77);
    assert_eq!(triple_check_score(100, 100, 100), 100);
    assert_eq!(triple_check_score(0, 0, 0), 0);
    assert_eq!(triple_check_score(1, 1, 1), 1);
    assert_eq!(triple_check_score(0, 0, 4), 0);
}

#[test]
fn settle_writes_composite_score() {
    let book = scored_book();
    assert_eq!(book.opinions[0].combined_score, 77);
    assert_eq!(book.opinions[0].weight_score, 80);
    assert_eq!(book.opinions[0].consensus_score, 90);
    assert!(book.opinions[0].settled);
    assert_eq!(book.opinions[1].combined_score, 58);
    assert_eq!(book.market.total_combined_score, 135);
    assert_eq!(book.market.crowd_score, 55);
}

#[test]
fn statement_length_limit() {
    let long: String = "a".repeat(281);
    assert_eq!(new_market(&long).unwrap_err(), OpinionError::StatementTooLong);
    let exact: String = "a".repeat(280);
    let m = new_market(&exact).unwrap();
    assert_eq!(m.statement.chars().count(), 280);
    assert_eq!(m.state, MarketState::Active);
    assert_eq!(m.closes_at, CLOSES);
    assert_eq!(new_market("").unwrap_err(), OpinionError::StatementEmpty);
    let wide: String = "é".repeat(280);
    assert!(new_market(&wide).is_ok());
}

#[test]
fn invalid_duration_is_refused() {
    let r = create_market(&config(), key(9), &usdc(key(9)), &treasury(), "x".to_string(), 3600, [7; 16], NOW);
    assert_eq!(r.unwrap_err(), OpinionError::InvalidDuration);
    let r = create_market(&config(), key(9), &usdc(key(9)), &treasury(), "x".to_string(), DURATION_24H, [7; 16], i64::MAX - 5);
    assert_eq!(r.unwrap_err(), OpinionError::Overflow);
}

#[test]
fn creation_checks_accounts() {
    let wrong_mint = TokenAccount { mint: key(4), owner: key(9) };
    let r = create_market(&config(), key(9), &wrong_mint, &treasury(), "x".to_string(), DURATION_24H, [7; 16], NOW);
    assert_eq!(r.unwrap_err(), OpinionError::MintMismatch);
    let r = create_market(&config(), key(9), &usdc(key(9)), &usdc(key(8)), "x".to_string(), DURATION_24H, [7; 16], NOW);
    assert_eq!(r.unwrap_err(), OpinionError::TreasuryMismatch);
    let r = create_market(&config(), key(9), &usdc(key(8)), &treasury(), "x".to_string(), DURATION_24H, [7; 16], NOW);
    assert_eq!(r.unwrap_err(), OpinionError::Unauthorized);
}

#[test]
fn stake_bounds() {
    let mut book = new_book();
    assert_eq!(stake(&mut book, 10, 499_999), Err(OpinionError::StakeTooSmall));
    assert_eq!(stake(&mut book, 10, 10_000_001), Err(OpinionError::StakeTooLarge));
    assert_eq!(book.market.total_stake, 0);
    assert_eq!(stake(&mut book, 10, MIN_STAKE), Ok(()));
    assert_eq!(stake(&mut book, 11, MAX_STAKE), Ok(()));
    assert_eq!(book.market.total_stake, MIN_STAKE + MAX_STAKE);
    assert_eq!(book.market.staker_count, 2);
    assert_eq!(book.opinions[0].backing_total, MIN_STAKE);
}

#[test]
fn stake_checks_inputs_and_state() {
    let mut m = new_market("x").unwrap();
    let mut escrow: u64 = 0;
    let long_cid: String = "c".repeat(65);
    let r = stake_opinion(&config(), &mut m, key(50), key(10), &usdc(key(10)), MIN_STAKE, [0; 32], long_cid, 50, &mut escrow, NOW);
    assert_eq!(r.unwrap_err(), OpinionError::CidTooLong);
    let r = stake_opinion(&config(), &mut m, key(50), key(10), &usdc(key(10)), MIN_STAKE, [0; 32], "c".repeat(64), 101, &mut escrow, NOW);
    assert_eq!(r.unwrap_err(), OpinionError::InvalidPrediction);
    let r = stake_opinion(&config(), &mut m, key(50), key(10), &usdc(key(10)), MIN_STAKE, [0; 32], "c".to_string(), 50, &mut escrow, CLOSES);
    assert_eq!(r.unwrap_err(), OpinionError::MarketExpired);
    let r = stake_opinion(&config(), &mut m, key(50), key(10), &usdc(key(10)), MIN_STAKE, [1; 32], "c".to_string(), 100, &mut escrow, CLOSES - 1);
    let o: Opinion = r.unwrap();
    assert_eq!(o.market, key(50));
    assert_eq!(o.staker, key(10));
    assert_eq!(o.prediction, 100);
    assert_eq!(o.created_at, CLOSES - 1);
    assert!(!o.paid);
    assert_eq!(escrow, MIN_STAKE);
    close_market(&mut m, CLOSES).unwrap();
    let r = stake_opinion(&config(), &mut m, key(50), key(11), &usdc(key(11)), MIN_STAKE, [0; 32], "c".to_string(), 50, &mut escrow, NOW);
    assert_eq!(r.unwrap_err(), OpinionError::MarketNotActive);
    let mut full = new_market("x").unwrap();
    full.total_stake = u64::MAX - 1;
    let r = stake_opinion(&config(), &mut full, key(50), key(10), &usdc(key(10)), MIN_STAKE, [0; 32], "c".to_string(), 50, &mut escrow, NOW);
    assert_eq!(r.unwrap_err(), OpinionError::Overflow);
    assert_eq!(full.total_stake, u64::MAX - 1);
}

#[test]
fn one_opinion_per_staker() {
    let mut book = new_book();
    stake(&mut book, 10, MIN_STAKE).unwrap();
    assert_eq!(stake(&mut book, 10, MIN_STAKE), Err(OpinionError::AlreadyStaked));
    assert_eq!(book.opinions.len(), 1);
}

#[test]
fn reaction_rules() {
    let mut book = new_book();
    stake(&mut book, 10, 1_000_000).unwrap();
    let own = book.react(key(10), &usdc(key(10)), key(110), ReactionType::Back, MIN_STAKE, NOW + 20);
    assert_eq!(own, Err(OpinionError::CannotReactToOwnOpinion));
    book.react(key(12), &usdc(key(12)), key(110), ReactionType::Slash, 600_000, NOW + 20).unwrap();
    let again = book.react(key(12), &usdc(key(12)), key(110), ReactionType::Back, MIN_STAKE, NOW + 21);
    assert_eq!(again, Err(OpinionError::AlreadyReacted));
    let missing = book.react(key(12), &usdc(key(12)), key(99), ReactionType::Back, MIN_STAKE, NOW + 21);
    assert_eq!(missing, Err(OpinionError::OpinionNotFound));
    assert_eq!(book.opinions[0].slashing_total, 600_000);
    assert_eq!(book.opinions[0].backing_total, 1_000_000);
    assert_eq!(book.reactions.len(), 1);
    assert_eq!(book.market.total_stake, 1_600_000);
    assert_eq!(book.escrow, 1_600_000);
}

#[test]
fn reaction_overflow_is_refused() {
    let mut m = new_market("x").unwrap();
    let mut escrow: u64 = 0;
    let mut o = stake_opinion(&config(), &mut m, key(50), key(10), &usdc(key(10)), MIN_STAKE, [0; 32], "c".to_string(), 50, &mut escrow, NOW).unwrap();
    o.backing_total = u64::MAX;
    let r = react_to_opinion(&config(), &mut m, &mut o, key(110), key(12), &usdc(key(12)), ReactionType::Back, MIN_STAKE, &mut escrow, NOW);
    assert_eq!(r.unwrap_err(), OpinionError::Overflow);
    assert_eq!(o.backing_total, u64::MAX);
    let r = react_to_opinion(&config(), &mut m, &mut o, key(110), key(12), &usdc(key(12)), ReactionType::Slash, MIN_STAKE, &mut escrow, NOW).unwrap();
    assert_eq!(r.reactor, key(12));
    assert_eq!(r.opinion, key(110));
    assert_eq!(o.slashing_total, MIN_STAKE);
}

#[test]
fn stakes_and_escrow_agree_before_finalization() {
    let book = scored_book();
    let opinion_sum: u64 = book.opinions.iter().map(|o| o.stake_amount).sum();
    let reaction_sum: u64 = book.reactions.iter().map(|r| r.stake_amount).sum();
    assert_eq!(book.market.total_stake, opinion_sum + reaction_sum);
    assert_eq!(book.market.total_stake, 3_500_000);
    assert_eq!(book.escrow, book.market.total_stake);
}

#[test]
fn close_rules() {
    let mut m = new_market("x").unwrap();
    assert_eq!(close_market(&mut m, CLOSES - 1), Err(OpinionError::MarketNotExpired));
    assert_eq!(close_market(&mut m, CLOSES), Ok(()));
    assert_eq!(m.state, MarketState::Closed);
    assert_eq!(close_market(&mut m, CLOSES), Err(OpinionError::MarketNotActive));
}

#[test]
fn sentiment_rules() {
    let mut m = new_market("x").unwrap();
    assert_eq!(record_sentiment(&config(), oracle(), &mut m, 50, 1, [0; 32]), Err(OpinionError::MarketNotClosed));
    close_market(&mut m, CLOSES).unwrap();
    assert_eq!(record_sentiment(&config(), key(9), &mut m, 50, 1, [0; 32]), Err(OpinionError::Unauthorized));
    assert_eq!(record_sentiment(&config(), oracle(), &mut m, 101, 1, [0; 32]), Err(OpinionError::InvalidScore));
    assert_eq!(record_sentiment(&config(), oracle(), &mut m, 50, 3, [0; 32]), Err(OpinionError::InvalidConfidence));
    assert_eq!(record_sentiment(&config(), oracle(), &mut m, 100, 2, [4; 32]), Ok(()));
    assert_eq!(m.state, MarketState::Scored);
    assert_eq!(m.sentiment_score, 100);
    assert_eq!(m.confidence, 2);
    assert_eq!(m.summary_hash, [4; 32]);
}

#[test]
fn scoring_rules() {
    let mut m = new_market("x").unwrap();
    let mut escrow: u64 = 0;
    let mut o = stake_opinion(&config(), &mut m, key(50), key(10), &usdc(key(10)), MIN_STAKE, [0; 32], "c".to_string(), 50, &mut escrow, NOW).unwrap();
    assert_eq!(record_ai_score(&config(), oracle(), &m, &mut o, 50), Err(OpinionError::MarketNotScored));
    assert_eq!(settle_opinion(&config(), oracle(), &mut m, &mut o, 50, 50, 50), Err(OpinionError::MarketNotScored));
    close_market(&mut m, CLOSES).unwrap();
    record_sentiment(&config(), oracle(), &mut m, 50, 1, [0; 32]).unwrap();
    assert_eq!(record_ai_score(&config(), oracle(), &m, &mut o, 101), Err(OpinionError::InvalidScore));
    assert_eq!(record_ai_score(&config(), key(10), &m, &mut o, 50), Err(OpinionError::Unauthorized));
    assert_eq!(record_ai_score(&config(), oracle(), &m, &mut o, 50), Ok(()));
    assert_eq!(settle_opinion(&config(), oracle(), &mut m, &mut o, 101, 50, 50), Err(OpinionError::InvalidScore));
    assert_eq!(settle_opinion(&config(), oracle(), &mut m, &mut o, 50, 50, 50), Ok(()));
    assert_eq!(o.combined_score, 50);
    assert_eq!(settle_opinion(&config(), oracle(), &mut m, &mut o, 50, 100, 100), Err(OpinionError::AlreadySettled));
    assert_eq!(o.combined_score, 50);
    assert_eq!(m.total_combined_score, 50);
}

#[test]
fn finalize_only_once() {
    let mut book = scored_book();
    let split = book.finalize(oracle(), &treasury()).unwrap();
    assert_eq!(split.protocol_fee, 350_000);
    assert_eq!(split.pool, 3_150_000);
    assert_eq!(split.protocol_fee + book.market.distributable_pool, book.market.total_stake);
    assert_eq!(book.market.state, MarketState::Settled);
    assert_eq!(book.escrow, 3_150_000);
    assert_eq!(book.finalize(oracle(), &treasury()), Err(OpinionError::MarketNotScored));
    let lottery = book.run_lottery(oracle(), &usdc(key(10)), &treasury(), key(10));
    assert_eq!(lottery, Err(OpinionError::MarketNotScored));
    assert_eq!(book.escrow, 3_150_000);
}

#[test]
fn finalize_rules() {
    let mut m = new_market("x").unwrap();
    let mut escrow: u64 = 0;
    close_market(&mut m, CLOSES).unwrap();
    record_sentiment(&config(), oracle(), &mut m, 50, 1, [0; 32]).unwrap();
    assert_eq!(finalize_settlement(&config(), key(9), &mut m, &treasury(), &mut escrow), Err(OpinionError::Unauthorized));
    assert_eq!(finalize_settlement(&config(), oracle(), &mut m, &usdc(key(8)), &mut escrow), Err(OpinionError::TreasuryMismatch));
    assert_eq!(finalize_settlement(&config(), oracle(), &mut m, &treasury(), &mut escrow), Err(OpinionError::EmptyPrizePool));
    m.total_stake = 1_000_000;
    assert_eq!(finalize_settlement(&config(), oracle(), &mut m, &treasury(), &mut escrow), Err(OpinionError::InsufficientFunds));
    m.total_stake = u64::MAX;
    assert_eq!(finalize_settlement(&config(), oracle(), &mut m, &treasury(), &mut escrow), Err(OpinionError::Overflow));
    assert_eq!(m.state, MarketState::Scored);
}

#[test]
fn fee_split_values() {
    let s = split_pool(3_500_000).unwrap();
    assert_eq!((s.protocol_fee, s.pool), (350_000, 3_150_000));
    let s = split_pool(1_234_567).unwrap();
    assert_eq!((s.protocol_fee, s.pool), (123_456, 1_111_111));
    let s = split_pool(9).unwrap();
    assert_eq!((s.protocol_fee, s.pool), (0, 9));
    assert_eq!(split_pool(u64::MAX), Err(OpinionError::Overflow));
    assert_eq!(payout_share(77, 3_150_000, 135), Ok(1_796_666));
    assert_eq!(payout_share(100, u64::MAX, 100), Err(OpinionError::Overflow));
}

#[test]
fn payouts_stay_within_pool() {
    let mut book = scored_book();
    book.finalize(oracle(), &treasury()).unwrap();
    let a = book.claim(key(10), &usdc(key(10)), 135).unwrap();
    let b = book.claim(key(11), &usdc(key(11)), 135).unwrap();
    assert_eq!(a, 1_796_666);
    assert_eq!(b, 1_353_333);
    assert!(a + b <= book.market.distributable_pool);
    assert_eq!(book.market.distributable_pool - (a + b), 1);
    assert_eq!(book.escrow, 1);
    assert_eq!(book.market.winner, Some(key(10)));
    assert_eq!(book.opinions[0].payout_amount, a);
}

#[test]
fn payouts_use_whole_pool_when_divisible() {
    let mut book = new_book();
    stake(&mut book, 10, 1_000_000).unwrap();
    stake(&mut book, 11, 1_000_000).unwrap();
    book.close(CLOSES).unwrap();
    book.record_sentiment(oracle(), 50, 0, [0; 32]).unwrap();
    for k in [110u8, 111u8] {
        book.record_ai_score(oracle(), key(k), 50).unwrap();
        book.settle(oracle(), key(k), 50, 50, 50).unwrap();
    }
    book.finalize(oracle(), &treasury()).unwrap();
    let a = book.claim(key(10), &usdc(key(10)), 100).unwrap();
    let b = book.claim(key(11), &usdc(key(11)), 100).unwrap();
    assert_eq!((a, b), (900_000, 900_000));
    assert_eq!(a + b, book.market.distributable_pool);
    assert_eq!(book.escrow, 0);
}

#[test]
fn claim_only_once() {
    let mut book = scored_book();
    book.finalize(oracle(), &treasury()).unwrap();
    book.claim(key(10), &usdc(key(10)), 135).unwrap();
    let escrow = book.escrow;
    assert_eq!(book.claim(key(10), &usdc(key(10)), 135), Err(OpinionError::AlreadyPaid));
    assert_eq!(book.escrow, escrow);
    assert_eq!(book.opinions[0].payout_amount, 1_796_666);
}

#[test]
fn claim_rules() {
    let mut book = scored_book();
    assert_eq!(book.claim(key(10), &usdc(key(10)), 135), Err(OpinionError::MarketNotAwaitingSettlement));
    book.finalize(oracle(), &treasury()).unwrap();
    assert_eq!(book.claim(key(10), &usdc(key(10)), 0), Err(OpinionError::ZeroTotalScore));
    assert_eq!(book.claim(key(10), &usdc(key(10)), 1), Err(OpinionError::TotalScoreMismatch));
    assert_eq!(book.claim(key(13), &usdc(key(13)), 135), Err(OpinionError::OpinionNotFound));
    let wrong_mint = TokenAccount { mint: key(4), owner: key(10) };
    assert_eq!(book.claim(key(10), &wrong_mint, 135), Err(OpinionError::MintMismatch));
    assert!(!book.opinions[0].paid);
}

#[test]
fn claim_payout_on_records() {
    let mut book = scored_book();
    book.finalize(oracle(), &treasury()).unwrap();
    let mut market = book.market.clone();
    let mut opinion = book.opinions[0].clone();
    let mut escrow: u64 = 1_000;
    let r = claim_payout(&config(), key(11), &mut market, &mut opinion, &usdc(key(11)), 135, &mut escrow);
    assert_eq!(r, Err(OpinionError::Unauthorized));
    let r = claim_payout(&config(), key(10), &mut market, &mut opinion, &usdc(key(10)), 135, &mut escrow);
    assert_eq!(r, Err(OpinionError::InsufficientFunds));
    assert!(!opinion.paid);
    escrow = 2_000_000;
    let r = claim_payout(&config(), key(10), &mut market, &mut opinion, &usdc(key(10)), 135, &mut escrow);
    assert_eq!(r, Ok(1_796_666));
    assert_eq!(escrow, 2_000_000 - 1_796_666);
    assert!(opinion.paid);
}

#[test]
fn recovery_window() {
    let mut book = new_book();
    stake(&mut book, 10, 1_000_000).unwrap();
    stake(&mut book, 11, 2_000_000).unwrap();
    let deadline = CLOSES + RECOVERY_PERIOD;
    assert_eq!(book.recover(key(10), &usdc(key(10)), deadline - 1), Err(OpinionError::MarketNotExpired));
    assert_eq!(book.recover(key(10), &usdc(key(10)), deadline), Ok(1_000_000));
    assert_eq!(book.escrow, 2_000_000);
    assert_eq!(book.recover(key(10), &usdc(key(10)), deadline + 5), Err(OpinionError::AlreadyPaid));
    assert_eq!(book.recover(key(11), &usdc(key(11)), deadline + 5), Ok(2_000_000));
    assert_eq!(book.recover(key(12), &usdc(key(12)), deadline + 5), Err(OpinionError::OpinionNotFound));
    assert_eq!(book.escrow, 0);
    assert_eq!(book.market.state, MarketState::Active);
    assert_eq!(book.market.total_stake, 3_000_000);
}

#[test]
fn no_recovery_once_settled() {
    let mut book = scored_book();
    book.finalize(oracle(), &treasury()).unwrap();
    let r = book.recover(key(10), &usdc(key(10)), CLOSES + RECOVERY_PERIOD);
    assert_eq!(r, Err(OpinionError::MarketNotActive));
}

#[test]
fn recover_on_records() {
    let mut m = new_market("x").unwrap();
    let mut escrow: u64 = 0;
    let mut o = stake_opinion(&config(), &mut m, key(50), key(10), &usdc(key(10)), MIN_STAKE, [0; 32], "c".to_string(), 50, &mut escrow, NOW).unwrap();
    let at = CLOSES + RECOVERY_PERIOD;
    assert_eq!(recover_stake(&config(), key(11), &m, &mut o, &usdc(key(11)), &mut escrow, at), Err(OpinionError::Unauthorized));
    let mut short: u64 = 1;
    assert_eq!(recover_stake(&config(), key(10), &m, &mut o, &usdc(key(10)), &mut short, at), Err(OpinionError::InsufficientFunds));
    assert_eq!(recover_stake(&config(), key(10), &m, &mut o, &usdc(key(10)), &mut escrow, at), Ok(MIN_STAKE));
    assert!(o.recovered && o.paid);
    assert_eq!(escrow, 0);
    let mut late = new_market("x").unwrap();
    late.closes_at = i64::MAX - 1;
    let mut o2 = stake_opinion(&config(), &mut new_market("y").unwrap(), key(50), key(10), &usdc(key(10)), MIN_STAKE, [0; 32], "c".to_string(), 50, &mut escrow, NOW).unwrap();
    assert_eq!(recover_stake(&config(), key(10), &late, &mut o2, &usdc(key(10)), &mut escrow, i64::MAX), Err(OpinionError::MarketNotExpired));
}

#[test]
fn lottery_path() {
    let mut book = new_book();
    stake(&mut book, 10, 1_000_000).unwrap();
    stake(&mut book, 11, 1_000_000).unwrap();
    book.close(CLOSES).unwrap();
    book.record_sentiment(oracle(), 50, 0, [0; 32]).unwrap();
    let not_owner = book.run_lottery(oracle(), &usdc(key(10)), &treasury(), key(11));
    assert_eq!(not_owner, Err(OpinionError::Unauthorized));
    let wrong_mint = TokenAccount { mint: key(4), owner: key(11) };
    assert_eq!(book.run_lottery(oracle(), &wrong_mint, &treasury(), key(11)), Err(OpinionError::MintMismatch));
    assert_eq!(book.run_lottery(key(11), &usdc(key(11)), &treasury(), key(11)), Err(OpinionError::Unauthorized));
    let split = book.run_lottery(oracle(), &usdc(key(11)), &treasury(), key(11)).unwrap();
    assert_eq!((split.protocol_fee, split.pool), (200_000, 1_800_000));
    assert_eq!(book.market.winner, Some(key(11)));
    assert_eq!(book.market.state, MarketState::Settled);
    assert_eq!(book.escrow, 0);
    assert_eq!(book.finalize(oracle(), &treasury()), Err(OpinionError::MarketNotScored));
}

#[test]
fn lottery_on_records() {
    let mut m = new_market("x").unwrap();
    let mut escrow: u64 = 0;
    close_market(&mut m, CLOSES).unwrap();
    record_sentiment(&config(), oracle(), &mut m, 50, 1, [0; 32]).unwrap();
    assert_eq!(run_lottery(&config(), oracle(), &mut m, &usdc(key(10)), &treasury(), key(10), &mut escrow), Err(OpinionError::EmptyPrizePool));
    m.total_stake = 100;
    assert_eq!(run_lottery(&config(), oracle(), &mut m, &usdc(key(10)), &treasury(), key(10), &mut escrow), Err(OpinionError::InsufficientFunds));
    escrow = 100;
    let s = run_lottery(&config(), oracle(), &mut m, &usdc(key(10)), &treasury(), key(10), &mut escrow).unwrap();
    assert_eq!((s.protocol_fee, s.pool), (10, 90));
    assert_eq!(escrow, 0);
}

#[test]
fn configuration_is_set_once() {
    let mut slot: Option<ProgramConfig> = None;
    assert_eq!(initialize(&mut slot, key(1), key(2), key(3)), Ok(()));
    let set = slot.unwrap();
    assert!(set.oracle_authority == key(1) && set.treasury == key(2) && set.usdc_mint == key(3));
    assert_eq!(initialize(&mut slot, key(5), key(5), key(5)), Err(OpinionError::AlreadyInitialized));
    assert!(slot.unwrap().oracle_authority == key(1));
}

#[test]
fn identities_compare_by_bytes() {
    let mut bytes = [3u8; 32];
    assert!(key(3).same(&Pubkey::new_from_array(bytes)));
    bytes[31] = 4;
    assert!(!key(3).same(&Pubkey::new_from_array(bytes)));
    assert!(key(3) != Pubkey::new_from_array(bytes));
    assert_eq!(Pubkey::new_from_array(bytes).to_bytes(), bytes);
}
