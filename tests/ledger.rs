use proposal_investment::distribution::{
    distribute_rewards, investor_share, pay_pair, AccountRecord, DistributeRewards, InvestorPair,
};
use proposal_investment::errors::{ErrorCode, ErrorKind};
use proposal_investment::escrow::{invest, Invest};
use proposal_investment::identity::Pubkey;
use proposal_investment::lifecycle::{
    accept_proposal, create_proposal, initialize, reject_proposal, CreateProposal, Initialize,
    UpdateProposalStatus,
};
use proposal_investment::records::{
    read_u64_le, Config, Investment, Proposal, ProposalStatus, INVESTMENT_RECORD_LEN,
};

fn key(n: u8) -> Pubkey {
    Pubkey::new_from_array([n; 32])
}

fn program() -> Pubkey {
    key(200)
}

fn proposal_with(status: ProposalStatus, total: u64) -> Proposal {
    Proposal {
        creator: key(1),
        description: String::from("solar farm"),
        status,
        total_invested: total,
        rewards_distributed: false,
    }
}

fn record_pair(proposal: u8, investor: u8, amount: u64) -> InvestorPair {
    let inv = Investment { proposal: key(proposal), investor: key(investor), amount };
    InvestorPair {
        investment: AccountRecord { key: key(100 + investor), owner: program(), data: inv.to_record_data() },
        investor: key(investor),
    }
}

fn distribution(status: ProposalStatus, total: u64, vault: u64, pairs: Vec<InvestorPair>) -> DistributeRewards {
    DistributeRewards {
        proposal: proposal_with(status, total),
        proposal_key: key(50),
        config: Config { owner: key(9) },
        owner: key(9),
        program_id: program(),
        reward_vault: key(60),
        vault_balance: vault,
        remaining_accounts: pairs,
    }
}

fn amounts(pays: &[proposal_investment::distribution::Payout]) -> Vec<u64> {
    pays.iter().map(|p| p.amount).collect()
}

#[test]
fn initialize_sets_owner() {
    let mut ctx = Initialize { config: Config { owner: key(0) }, payer: key(3) };
    assert_eq!(initialize(&mut ctx, key(9)), Ok(()));
    assert!(ctx.config.owner.same(&key(9)));
    assert!(ctx.payer.same(&key(3)));
}

#[test]
fn create_proposal_starts_pending() {
    let mut ctx = CreateProposal { proposal: proposal_with(ProposalStatus::Accepted, 77), creator: key(4) };
    assert_eq!(create_proposal(&mut ctx, String::from("wind")), Ok(()));
    assert_eq!(ctx.proposal.status, ProposalStatus::Pending);
    assert_eq!(ctx.proposal.total_invested, 0);
    assert!(!ctx.proposal.rewards_distributed);
    assert_eq!(ctx.proposal.description, "wind");
    assert!(ctx.proposal.creator.same(&key(4)));
}

#[test]
fn create_proposal_description_limit() {
    let mut ctx = CreateProposal { proposal: proposal_with(ProposalStatus::Pending, 0), creator: key(4) };
    assert_eq!(create_proposal(&mut ctx, "a".repeat(200)), Ok(()));
    assert_eq!(ctx.proposal.description.len(), 200);
    let mut ctx2 = CreateProposal { proposal: proposal_with(ProposalStatus::Pending, 5), creator: key(4) };
    assert_eq!(create_proposal(&mut ctx2, "a".repeat(201)), Err(ErrorCode::DescriptionTooLong));
    assert_eq!(ctx2.proposal.total_invested, 5);
    // 100 two-byte characters are 200 bytes; one more is over the limit.
    let mut ctx3 = CreateProposal { proposal: proposal_with(ProposalStatus::Pending, 0), creator: key(4) };
    assert_eq!(create_proposal(&mut ctx3, "é".repeat(100)), Ok(()));
    assert_eq!(create_proposal(&mut ctx3, "é".repeat(101)), Err(ErrorCode::DescriptionTooLong));
}

fn invest_ctx(total: u64) -> Invest {
    Invest {
        proposal: proposal_with(ProposalStatus::Pending, total),
        proposal_key: key(50),
        investment: Investment { proposal: key(0), investor: key(0), amount: 0 },
        investor: key(7),
    }
}

#[test]
fn invest_records_and_escrows() {
    let mut ctx = invest_ctx(10);
    let t = invest(&mut ctx, 25).unwrap();
    assert_eq!(ctx.proposal.total_invested, 35);
    assert_eq!(ctx.investment.amount, 25);
    assert!(ctx.investment.proposal.same(&key(50)));
    assert!(ctx.investment.investor.same(&key(7)));
    assert!(t.from.same(&key(7)));
    assert!(t.to.same(&key(50)));
    assert_eq!(t.amount, 25);
}

#[test]
fn invest_sequence_sums_exactly() {
    let mut ctx = invest_ctx(0);
    let mut sum: u64 = 0;
    for a in [1u64, 60, 40, 999, 123_456_789] {
        invest(&mut ctx, a).unwrap();
        sum += a;
        assert_eq!(ctx.proposal.total_invested, sum);
    }
}

#[test]
fn invest_overflow_is_reported() {
    let mut ctx = invest_ctx(u64::MAX - 5);
    assert!(invest(&mut ctx, 5).is_ok());
    assert_eq!(ctx.proposal.total_invested, u64::MAX);
    let mut ctx2 = invest_ctx(u64::MAX - 5);
    assert_eq!(invest(&mut ctx2, 6).unwrap_err(), ErrorCode::Overflow);
    assert_eq!(ctx2.proposal.total_invested, u64::MAX - 5);
    assert_eq!(ctx2.investment.amount, 0);
    assert_eq!(ErrorCode::Overflow.kind(), ErrorKind::Arithmetic);
}

#[test]
fn invest_zero_is_refused() {
    let mut ctx = invest_ctx(3);
    assert_eq!(invest(&mut ctx, 0).unwrap_err(), ErrorCode::ZeroAmount);
    assert_eq!(ctx.proposal.total_invested, 3);
}

fn decision(status: ProposalStatus, signer: u8) -> UpdateProposalStatus {
    UpdateProposalStatus {
        proposal: proposal_with(status, 0),
        config: Config { owner: key(9) },
        owner: key(signer),
    }
}

#[test]
fn owner_accepts_and_rejects() {
    let mut a = decision(ProposalStatus::Pending, 9);
    assert_eq!(accept_proposal(&mut a), Ok(()));
    assert_eq!(a.proposal.status, ProposalStatus::Accepted);
    let mut r = decision(ProposalStatus::Pending, 9);
    assert_eq!(reject_proposal(&mut r), Ok(()));
    assert_eq!(r.proposal.status, ProposalStatus::Rejected);
}

#[test]
fn non_owner_cannot_decide() {
    let mut a = decision(ProposalStatus::Pending, 8);
    assert_eq!(accept_proposal(&mut a), Err(ErrorCode::Unauthorized));
    assert_eq!(a.proposal.status, ProposalStatus::Pending);
    let mut r = decision(ProposalStatus::Pending, 8);
    assert_eq!(reject_proposal(&mut r), Err(ErrorCode::Unauthorized));
    assert_eq!(r.proposal.status, ProposalStatus::Pending);
    assert_eq!(ErrorCode::Unauthorized.kind(), ErrorKind::Authorization);
}

#[test]
fn decided_proposal_cannot_be_decided_again() {
    let mut a = decision(ProposalStatus::Accepted, 9);
    assert_eq!(reject_proposal(&mut a), Err(ErrorCode::InvalidProposalStatus));
    assert_eq!(a.proposal.status, ProposalStatus::Accepted);
    let mut r = decision(ProposalStatus::Rejected, 9);
    assert_eq!(accept_proposal(&mut r), Err(ErrorCode::InvalidProposalStatus));
    assert_eq!(r.proposal.status, ProposalStatus::Rejected);
}

#[test]
fn distribution_sixty_forty_of_one_hundred_one() {
    let mut ctx = distribution(
        ProposalStatus::Accepted,
        100,
        101,
        vec![record_pair(50, 11, 60), record_pair(50, 12, 40)],
    );
    let pays = distribute_rewards(&mut ctx, 101).unwrap();
    assert_eq!(amounts(&pays), vec![60, 40]);
    assert!(pays[0].investor.same(&key(11)));
    assert!(pays[1].investor.same(&key(12)));
    assert_eq!(ctx.vault_balance, 1);
    assert!(ctx.proposal.rewards_distributed);
}

#[test]
fn distribution_rounding_loss_below_count() {
    let mut ctx = distribution(
        ProposalStatus::Accepted,
        3,
        2,
        vec![record_pair(50, 11, 1), record_pair(50, 12, 1), record_pair(50, 13, 1)],
    );
    let pays = distribute_rewards(&mut ctx, 2).unwrap();
    assert_eq!(amounts(&pays), vec![0, 0, 0]);
    assert_eq!(ctx.vault_balance, 2);
}

#[test]
fn distribution_uses_wide_product() {
    assert_eq!(investor_share(u64::MAX, u64::MAX, u64::MAX), u64::MAX as u128);
    let mut ctx = distribution(
        ProposalStatus::Accepted,
        u64::MAX,
        u64::MAX,
        vec![record_pair(50, 11, u64::MAX - 1), record_pair(50, 12, 1)],
    );
    let pays = distribute_rewards(&mut ctx, u64::MAX).unwrap();
    assert_eq!(amounts(&pays), vec![u64::MAX - 1, 1]);
    assert_eq!(ctx.vault_balance, 0);
}

#[test]
fn distribution_happens_once() {
    let mut ctx = distribution(
        ProposalStatus::Accepted,
        100,
        500,
        vec![record_pair(50, 11, 60), record_pair(50, 12, 40)],
    );
    assert!(distribute_rewards(&mut ctx, 200).is_ok());
    assert_eq!(ctx.vault_balance, 300);
    let again = distribute_rewards(&mut ctx, 200);
    assert_eq!(again.unwrap_err(), ErrorCode::RewardsAlreadyDistributed);
    assert_eq!(ctx.vault_balance, 300);
    assert_eq!(ErrorCode::RewardsAlreadyDistributed.kind(), ErrorKind::State);
}

#[test]
fn distribution_needs_acceptance() {
    for status in [ProposalStatus::Pending, ProposalStatus::Rejected] {
        let mut ctx = distribution(status, 100, 500, vec![record_pair(50, 11, 100)]);
        assert_eq!(distribute_rewards(&mut ctx, 10).unwrap_err(), ErrorCode::InvalidProposalStatus);
        assert_eq!(ctx.vault_balance, 500);
        assert!(!ctx.proposal.rewards_distributed);
    }
}

#[test]
fn distribution_needs_authority() {
    let mut ctx = distribution(ProposalStatus::Accepted, 100, 500, vec![record_pair(50, 11, 100)]);
    ctx.owner = key(8);
    assert_eq!(distribute_rewards(&mut ctx, 10).unwrap_err(), ErrorCode::Unauthorized);
    assert!(!ctx.proposal.rewards_distributed);
}

#[test]
fn distribution_needs_vault_funds() {
    let mut ctx = distribution(ProposalStatus::Accepted, 100, 99, vec![record_pair(50, 11, 100)]);
    assert_eq!(distribute_rewards(&mut ctx, 100).unwrap_err(), ErrorCode::InsufficientVaultBalance);
    assert_eq!(ctx.vault_balance, 99);
    assert_eq!(ErrorCode::InsufficientVaultBalance.kind(), ErrorKind::InsufficientFunds);
}

#[test]
fn distribution_overpaying_records_are_refused() {
    // The same record twice asks for more than the vault holds.
    let mut ctx = distribution(
        ProposalStatus::Accepted,
        100,
        150,
        vec![record_pair(50, 11, 100), record_pair(50, 11, 100)],
    );
    assert_eq!(distribute_rewards(&mut ctx, 100).unwrap_err(), ErrorCode::InsufficientVaultBalance);
    assert_eq!(ctx.vault_balance, 150);
    assert!(!ctx.proposal.rewards_distributed);
}

#[test]
fn distribution_skips_foreign_investments() {
    let mut with = distribution(
        ProposalStatus::Accepted,
        100,
        101,
        vec![record_pair(50, 11, 60), record_pair(51, 13, 500), record_pair(50, 12, 40)],
    );
    let pays = distribute_rewards(&mut with, 101).unwrap();
    assert_eq!(amounts(&pays), vec![60, 40]);
    assert!(pays[1].investor.same(&key(12)));
    assert_eq!(with.vault_balance, 1);
}

#[test]
fn distribution_refuses_foreign_owner() {
    let mut bad = record_pair(50, 12, 40);
    bad.investment.owner = key(201);
    let mut ctx = distribution(ProposalStatus::Accepted, 100, 101, vec![record_pair(50, 11, 60), bad]);
    assert_eq!(distribute_rewards(&mut ctx, 101).unwrap_err(), ErrorCode::InvalidOwner);
    assert_eq!(ctx.vault_balance, 101);
    assert!(!ctx.proposal.rewards_distributed);
    assert_eq!(ErrorCode::InvalidOwner.kind(), ErrorKind::InvalidReference);
}

#[test]
fn distribution_refuses_malformed_record() {
    let mut bad = record_pair(50, 12, 40);
    bad.investment.data[0] ^= 1;
    let mut ctx = distribution(ProposalStatus::Accepted, 100, 101, vec![record_pair(50, 11, 60), bad]);
    assert_eq!(distribute_rewards(&mut ctx, 101).unwrap_err(), ErrorCode::InvalidInvestmentData);
    assert_eq!(ctx.vault_balance, 101);
    let mut short = record_pair(50, 12, 40);
    short.investment.data.pop();
    let mut ctx2 = distribution(ProposalStatus::Accepted, 100, 101, vec![short]);
    assert_eq!(distribute_rewards(&mut ctx2, 101).unwrap_err(), ErrorCode::InvalidInvestmentData);
    assert_eq!(ErrorCode::InvalidInvestmentData.kind(), ErrorKind::InvalidReference);
}

#[test]
fn distribution_with_nothing_invested_is_refused() {
    let mut ctx = distribution(ProposalStatus::Accepted, 0, 10, vec![record_pair(50, 11, 5)]);
    assert_eq!(distribute_rewards(&mut ctx, 10).unwrap_err(), ErrorCode::Overflow);
    // With no matching pair nothing is divided.
    let mut empty = distribution(ProposalStatus::Accepted, 0, 10, vec![record_pair(52, 11, 5)]);
    assert_eq!(distribute_rewards(&mut empty, 10).unwrap().len(), 0);
    assert!(empty.proposal.rewards_distributed);
}

#[test]
fn pay_pair_skips_and_pays() {
    let foreign = record_pair(51, 11, 60);
    assert_eq!(pay_pair(&foreign, &program(), &key(50), 100, 101, 101).unwrap().is_none(), true);
    let own = record_pair(50, 11, 60);
    let p = pay_pair(&own, &program(), &key(50), 100, 101, 101).unwrap().unwrap();
    assert_eq!(p.amount, 60);
}

#[test]
fn record_round_trip() {
    let inv = Investment { proposal: key(5), investor: key(6), amount: 0x0102_0304_0506_0708 };
    let data = inv.to_record_data();
    assert_eq!(data.len(), INVESTMENT_RECORD_LEN);
    assert_eq!(&data[72..80], &[8, 7, 6, 5, 4, 3, 2, 1]);
    assert_eq!(read_u64_le(&data, 72), 0x0102_0304_0506_0708);
    let back = Investment::try_deserialize(&data).unwrap();
    assert!(back.proposal.same(&key(5)));
    assert!(back.investor.same(&key(6)));
    assert_eq!(back.amount, 0x0102_0304_0506_0708);
    assert!(Investment::try_deserialize(&data[..79]).is_none());
}

#[test]
fn keys_compare_by_bytes() {
    let mut b = [3u8; 32];
    assert!(Pubkey::new_from_array(b).same(&key(3)));
    b[31] = 4;
    assert!(!Pubkey::new_from_array(b).same(&key(3)));
    let k = Pubkey::from_slice_at(&[9u8; 40], 8);
    assert!(k.same(&key(9)));
}
