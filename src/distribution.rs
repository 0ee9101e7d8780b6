use vstd::prelude::*;

use crate::errors::ErrorCode;
use crate::identity::Pubkey;
use crate::lifecycle::is_authority;
use crate::records::{decode_investment, Config, Investment, Proposal, ProposalStatus};

verus! {

/// A stored record as the host ledger hands it over: its address, the program
/// that owns it, and its bytes.
#[derive(Debug)]
pub struct AccountRecord {
    pub key: Pubkey,
    pub owner: Pubkey,
    pub data: Vec<u8>,
}

/// One candidate payout: an investment record and the identity to pay.
#[derive(Debug)]
pub struct InvestorPair {
    pub investment: AccountRecord,
    pub investor: Pubkey,
}

/// A payment from the reward vault to an investor.
#[derive(Clone, Copy, Debug)]
pub struct Payout {
    pub investor: Pubkey,
    pub amount: u64,
}

/// The records touched by a distribution of revenue.
#[derive(Debug)]
pub struct DistributeRewards {
    pub proposal: Proposal,
    /// Address of the proposal record.
    pub proposal_key: Pubkey,
    pub config: Config,
    /// The verified identity that signed the operation.
    pub owner: Pubkey,
    /// The program whose records count as genuine.
    pub program_id: Pubkey,
    pub reward_vault: Pubkey,
    /// Funds that the reward vault holds.
    pub vault_balance: u64,
    /// The candidate payouts, walked in order.
    pub remaining_accounts: Vec<InvestorPair>,
}

/// An investor's part of `revenue`: `amount / total` of it, rounded down.
#[verifier::opaque]
pub open spec fn share_of(amount: u64, revenue: u64, total: u64) -> int {
    (amount * revenue) as int / total as int
}

/// The sum of the amounts of `s`.
pub open spec fn total_paid(s: Seq<Payout>) -> int
    decreases s.len(),
{
    if s.len() == 0 {
        0
    } else {
        s[0].amount + total_paid(s.drop_first())
    }
}

/// `acc` followed by what `r` pays, or the error of `r`.
pub open spec fn after_prefix(acc: Seq<Payout>, r: Result<Seq<Payout>, ErrorCode>) -> Result<
    Seq<Payout>,
    ErrorCode,
> {
    match r {
        Ok(s) => Ok(acc + s),
        Err(e) => Err(e),
    }
}

/// Whether a pair's record is a genuine investment record of `program_id`.
pub open spec fn is_genuine(p: InvestorPair, program_id: Pubkey) -> bool {
    p.investment.owner@ == program_id@ && decode_investment(p.investment.data@).is_some()
}

/// What handling one pair with `vault` funds left yields: the payout it
/// gets, `None` when its investment belongs to another proposal than `key`,
/// or why the pair cannot be handled.
pub open spec fn pair_step(
    p: InvestorPair,
    program_id: Pubkey,
    key: Pubkey,
    total: u64,
    revenue: u64,
    vault: int,
) -> Result<Option<Payout>, ErrorCode> {
    if p.investment.owner@ != program_id@ {
        Err(ErrorCode::InvalidOwner)
    } else {
        match decode_investment(p.investment.data@) {
            None => Err(ErrorCode::InvalidInvestmentData),
            Some(inv) => if inv.proposal != key@ {
                Ok(None)
            } else if total == 0 {
                Err(ErrorCode::Overflow)
            } else if share_of(inv.amount, revenue, total) > vault {
                Err(ErrorCode::InsufficientVaultBalance)
            } else {
                Ok(
                    Some(
                        Payout {
                            investor: p.investor,
                            amount: share_of(inv.amount, revenue, total) as u64,
                        },
                    ),
                )
            },
        }
    }
}

/// Walks `pairs` in order with `vault` funds left: pays each pair whose
/// investment belongs to `key` its share, skips the others, and stops at the
/// first pair that cannot be handled.
pub open spec fn walk(
    pairs: Seq<InvestorPair>,
    program_id: Pubkey,
    key: Pubkey,
    total: u64,
    revenue: u64,
    vault: int,
) -> Result<Seq<Payout>, ErrorCode>
    decreases pairs.len(),
{
    if pairs.len() == 0 {
        Ok(Seq::empty())
    } else {
        let rest = pairs.drop_first();
        match pair_step(pairs[0], program_id, key, total, revenue, vault) {
            Err(e) => Err(e),
            Ok(None) => walk(rest, program_id, key, total, revenue, vault),
            Ok(Some(q)) => after_prefix(
                seq![q],
                walk(rest, program_id, key, total, revenue, vault - q.amount),
            ),
        }
    }
}

/// What a distribution of `revenue` yields: the payouts in order, or why it
/// is refused.
pub open spec fn distribute_outcome(ctx: DistributeRewards, revenue: u64) -> Result<
    Seq<Payout>,
    ErrorCode,
> {
    if !is_authority(ctx.config, ctx.owner) {
        Err(ErrorCode::Unauthorized)
    } else if ctx.proposal.status != ProposalStatus::Accepted {
        Err(ErrorCode::InvalidProposalStatus)
    } else if ctx.proposal.rewards_distributed {
        Err(ErrorCode::RewardsAlreadyDistributed)
    } else if ctx.vault_balance < revenue {
        Err(ErrorCode::InsufficientVaultBalance)
    } else {
        walk(
            ctx.remaining_accounts@,
            ctx.program_id,
            ctx.proposal_key,
            ctx.proposal.total_invested,
            revenue,
            ctx.vault_balance as int,
        )
    }
}

/// The records after a distribution that paid `paid` in all.
pub open spec fn after_distribution(ctx: DistributeRewards, paid: int) -> DistributeRewards {
    DistributeRewards {
        proposal: Proposal { rewards_distributed: true, ..ctx.proposal },
        vault_balance: (ctx.vault_balance - paid) as u64,
        ..ctx
    }
}

proof fn lemma_after_prefix_concat(a: Seq<Payout>, b: Seq<Payout>, r: Result<Seq<Payout>, ErrorCode>)
    ensures
        after_prefix(a, after_prefix(b, r)) == after_prefix(a + b, r),
{
    if let Ok(s) = r {
        assert(a + (b + s) =~= (a + b) + s);
    }
}

proof fn lemma_total_paid_push(s: Seq<Payout>, p: Payout)
    ensures
        total_paid(s.push(p)) == total_paid(s) + p.amount,
    decreases s.len(),
{
    assert(s.push(p)[0] == if s.len() == 0 { p } else { s[0] });
    if s.len() == 0 {
        assert(s.push(p).drop_first() =~= Seq::<Payout>::empty());
        assert(total_paid(Seq::<Payout>::empty()) == 0);
    } else {
        assert(s.push(p).drop_first() =~= s.drop_first().push(p));
        lemma_total_paid_push(s.drop_first(), p);
    }
}

/// The reward for `amount` out of `total`, rounded down; the product is
/// formed at double width.
pub fn investor_share(amount: u64, revenue: u64, total: u64) -> (r: u128)
    requires
        total > 0,
    ensures
        r == share_of(amount, revenue, total),
{
    let a = amount as u128;
    let v = revenue as u128;
    assert(a * v <= u64::MAX * u64::MAX) by (nonlinear_arith)
        requires
            a <= u64::MAX,
            v <= u64::MAX,
    ;
    proof {
        reveal(share_of);
    }
    a * v / (total as u128)
}

/// Handles one pair: checks that its record is a genuine investment record,
/// skips it when the investment belongs to another proposal, and otherwise
/// computes its payout out of the `left` funds of the vault.
pub fn pay_pair(
    pair: &InvestorPair,
    program_id: &Pubkey,
    key: &Pubkey,
    total: u64,
    revenue: u64,
    left: u64,
) -> (r: Result<Option<Payout>, ErrorCode>)
    ensures
        r == pair_step(*pair, *program_id, *key, total, revenue, left as int),
        r matches Ok(Some(q)) ==> q.amount <= left,
{
    if !pair.investment.owner.same(program_id) {
        return Err(ErrorCode::InvalidOwner);
    }
    let investment = match Investment::try_deserialize(pair.investment.data.as_slice()) {
        Some(inv) => inv,
        None => return Err(ErrorCode::InvalidInvestmentData),
    };
    if !investment.proposal.same(key) {
        return Ok(None);
    }
    if total == 0 {
        return Err(ErrorCode::Overflow);
    }
    let share = investor_share(investment.amount, revenue, total);
    if share > left as u128 {
        return Err(ErrorCode::InsufficientVaultBalance);
    }
    Ok(Some(Payout { investor: pair.investor, amount: share as u64 }))
}

/// Walks `pairs` in order, out of a vault that holds `vault`: returns the
/// payouts and what the vault holds after them, or the first refusal.
pub fn pay_all(
    pairs: &Vec<InvestorPair>,
    program_id: &Pubkey,
    key: &Pubkey,
    total: u64,
    revenue: u64,
    vault: u64,
) -> (r: Result<(Vec<Payout>, u64), ErrorCode>)
    ensures
        match r {
            Ok((pays, left)) => walk(pairs@, *program_id, *key, total, revenue, vault as int)
                == Ok::<Seq<Payout>, ErrorCode>(pays@) && left == vault - total_paid(pays@),
            Err(e) => walk(pairs@, *program_id, *key, total, revenue, vault as int) == Err::<
                Seq<Payout>,
                ErrorCode,
            >(e),
        },
{
    let n = pairs.len();
    let mut payouts: Vec<Payout> = Vec::new();
    let mut left: u64 = vault;
    let mut i: usize = 0;
    proof {
        assert(pairs@.subrange(0, n as int) =~= pairs@);
        let w = walk(pairs@, *program_id, *key, total, revenue, vault as int);
        if let Ok(s) = w {
            assert(Seq::<Payout>::empty() + s =~= s);
        }
        assert(total_paid(payouts@) == 0);
    }
    while i < n
        invariant
            n == pairs@.len(),
            i <= n,
            left == vault - total_paid(payouts@),
            walk(pairs@, *program_id, *key, total, revenue, vault as int) == after_prefix(
                payouts@,
                walk(pairs@.subrange(i as int, n as int), *program_id, *key, total, revenue, left as int),
            ),
        decreases n - i,
    {
        let ghost rest = pairs@.subrange(i as int, n as int);
        assert(rest[0] == pairs@[i as int]);
        assert(rest.drop_first() =~= pairs@.subrange(i + 1, n as int));
        match pay_pair(&pairs[i], program_id, key, total, revenue, left) {
            Err(e) => {
                return Err(e);
            },
            Ok(None) => {},
            Ok(Some(payout)) => {
                proof {
                    lemma_after_prefix_concat(
                        payouts@,
                        seq![payout],
                        walk(
                            pairs@.subrange(i + 1, n as int),
                            *program_id,
                            *key,
                            total,
                            revenue,
                            left - payout.amount,
                        ),
                    );
                    assert(payouts@ + seq![payout] =~= payouts@.push(payout));
                    lemma_total_paid_push(payouts@, payout);
                }
                payouts.push(payout);
                left = left - payout.amount;
            },
        }
        i = i + 1;
    }
    proof {
        let done = pairs@.subrange(n as int, n as int);
        assert(done =~= Seq::<InvestorPair>::empty());
        assert(walk(done, *program_id, *key, total, revenue, left as int) == Ok::<
            Seq<Payout>,
            ErrorCode,
        >(Seq::empty()));
        assert(payouts@ + Seq::<Payout>::empty() =~= payouts@);
    }
    Ok((payouts, left))
}

/// Pays each investor of an accepted proposal their share of
/// `revenue_amount`, once. Walks the pairs in order: a genuine record of
/// another proposal is skipped, a record that is not genuine refuses the whole
/// operation. On success the proposal is marked as paid out, the vault is
/// debited by the sum of the payouts, and the payouts are returned for the
/// host ledger to credit. Nothing changes when it is refused.
pub fn distribute_rewards(ctx: &mut DistributeRewards, revenue_amount: u64) -> (r: Result<
    Vec<Payout>,
    ErrorCode,
>)
    ensures
        match r {
            Ok(pays) => distribute_outcome(*old(ctx), revenue_amount) == Ok::<
                Seq<Payout>,
                ErrorCode,
            >(pays@) && *final(ctx) == after_distribution(*old(ctx), total_paid(pays@)),
            Err(e) => distribute_outcome(*old(ctx), revenue_amount) == Err::<
                Seq<Payout>,
                ErrorCode,
            >(e) && *final(ctx) == *old(ctx),
        },
{
    if !ctx.config.owner.same(&ctx.owner) {
        return Err(ErrorCode::Unauthorized);
    }
    if ctx.proposal.status != ProposalStatus::Accepted {
        return Err(ErrorCode::InvalidProposalStatus);
    }
    if ctx.proposal.rewards_distributed {
        return Err(ErrorCode::RewardsAlreadyDistributed);
    }
    if ctx.vault_balance < revenue_amount {
        return Err(ErrorCode::InsufficientVaultBalance);
    }
    let (payouts, left) = pay_all(
        &ctx.remaining_accounts,
        &ctx.program_id,
        &ctx.proposal_key,
        ctx.proposal.total_invested,
        revenue_amount,
        ctx.vault_balance,
    )?;
    ctx.proposal.rewards_distributed = true;
    ctx.vault_balance = left;
    Ok(payouts)
}

} // verus!
