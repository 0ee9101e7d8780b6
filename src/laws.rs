use vstd::prelude::*;

use crate::distribution::{
    after_distribution, after_prefix, distribute_outcome, is_genuine, pair_step, share_of,
    total_paid, walk, DistributeRewards, InvestorPair, Payout,
};
use crate::errors::ErrorCode;
use crate::escrow::escrow_add;
use crate::identity::Pubkey;
use crate::lifecycle::is_authority;
use crate::records::{decode_investment, ProposalStatus};

verus! {

/// The escrow total after investments of `amounts`, in order, into a proposal
/// that holds `total`, up to the first refusal.
pub open spec fn escrow_run(total: u64, amounts: Seq<u64>) -> Result<u64, ErrorCode>
    decreases amounts.len(),
{
    if amounts.len() == 0 {
        Ok(total)
    } else {
        match escrow_run(total, amounts.drop_last()) {
            Ok(t) => escrow_add(t, amounts.last()),
            Err(e) => Err(e),
        }
    }
}

/// The sum of `amounts`.
pub open spec fn sum_of(amounts: Seq<u64>) -> int
    decreases amounts.len(),
{
    if amounts.len() == 0 {
        0
    } else {
        sum_of(amounts.drop_last()) + amounts.last()
    }
}

/// Investing any run of positive amounts raises the escrow total by exactly
/// their sum while that sum fits in 64 bits, and is refused with an overflow
/// as soon as it would not.
pub proof fn lemma_escrow_total_is_sum(total: u64, amounts: Seq<u64>)
    requires
        forall|i: int| 0 <= i < amounts.len() ==> amounts[i] > 0,
    ensures
        sum_of(amounts) >= 0,
        total + sum_of(amounts) <= u64::MAX ==> escrow_run(total, amounts) == Ok::<
            u64,
            ErrorCode,
        >((total + sum_of(amounts)) as u64),
        total + sum_of(amounts) > u64::MAX ==> escrow_run(total, amounts) == Err::<
            u64,
            ErrorCode,
        >(ErrorCode::Overflow),
    decreases amounts.len(),
{
    if amounts.len() > 0 {
        let init = amounts.drop_last();
        assert forall|i: int| 0 <= i < init.len() implies init[i] > 0 by {
            assert(init[i] == amounts[i]);
        }
        lemma_escrow_total_is_sum(total, init);
        assert(amounts.last() > 0);
        assert(sum_of(amounts) == sum_of(init) + amounts.last());
        if total + sum_of(amounts) <= u64::MAX {
            let t = (total + sum_of(init)) as u64;
            assert(escrow_run(total, init) == Ok::<u64, ErrorCode>(t));
            assert(escrow_add(t, amounts.last()) == Ok::<u64, ErrorCode>(
                (total + sum_of(amounts)) as u64,
            ));
        }
    } else {
        assert(sum_of(amounts) == 0);
    }
}

/// Once a distribution has succeeded, no later distribution on the same
/// proposal succeeds: the authority is told the rewards are already paid.
pub proof fn lemma_distribution_happens_once(
    first: DistributeRewards,
    revenue: u64,
    pays: Seq<Payout>,
    second: DistributeRewards,
    second_revenue: u64,
)
    requires
        distribute_outcome(first, revenue) == Ok::<Seq<Payout>, ErrorCode>(pays),
        second.proposal == after_distribution(first, total_paid(pays)).proposal,
    ensures
        distribute_outcome(second, second_revenue).is_err(),
        is_authority(second.config, second.owner) ==> distribute_outcome(second, second_revenue)
            == Err::<Seq<Payout>, ErrorCode>(ErrorCode::RewardsAlreadyDistributed),
{
}

/// Only an accepted proposal pays out: a pending or rejected one is refused.
pub proof fn lemma_distribution_needs_acceptance(ctx: DistributeRewards, revenue: u64)
    requires
        is_authority(ctx.config, ctx.owner),
        ctx.proposal.status != ProposalStatus::Accepted,
    ensures
        distribute_outcome(ctx, revenue) == Err::<Seq<Payout>, ErrorCode>(
            ErrorCode::InvalidProposalStatus,
        ),
{
}

/// A genuine investment record of another proposal is skipped: the walk
/// over the other pairs comes out as if it were not there.
pub proof fn lemma_foreign_pair_skipped(
    before: Seq<InvestorPair>,
    p: InvestorPair,
    after: Seq<InvestorPair>,
    program_id: Pubkey,
    key: Pubkey,
    total: u64,
    revenue: u64,
    vault: int,
)
    requires
        is_genuine(p, program_id),
        decode_investment(p.investment.data@)->Some_0.proposal != key@,
    ensures
        walk(before + seq![p] + after, program_id, key, total, revenue, vault) == walk(
            before + after,
            program_id,
            key,
            total,
            revenue,
            vault,
        ),
    decreases before.len(),
{
    let with = before + seq![p] + after;
    let without = before + after;
    if before.len() == 0 {
        assert(with[0] == p);
        assert(with.drop_first() =~= after);
        assert(without =~= after);
    } else {
        assert(with[0] == before[0]);
        assert(without[0] == before[0]);
        assert(with.drop_first() =~= before.drop_first() + seq![p] + after);
        assert(without.drop_first() =~= before.drop_first() + after);
        match pair_step(before[0], program_id, key, total, revenue, vault) {
            Err(_) => {},
            Ok(None) => {
                lemma_foreign_pair_skipped(
                    before.drop_first(),
                    p,
                    after,
                    program_id,
                    key,
                    total,
                    revenue,
                    vault,
                );
            },
            Ok(Some(q)) => {
                lemma_foreign_pair_skipped(
                    before.drop_first(),
                    p,
                    after,
                    program_id,
                    key,
                    total,
                    revenue,
                    vault - q.amount,
                );
            },
        }
    }
}

proof fn lemma_walk_refuses_forged(
    pairs: Seq<InvestorPair>,
    j: int,
    program_id: Pubkey,
    key: Pubkey,
    total: u64,
    revenue: u64,
    vault: int,
)
    requires
        0 <= j < pairs.len(),
        !is_genuine(pairs[j], program_id),
    ensures
        walk(pairs, program_id, key, total, revenue, vault).is_err(),
    decreases pairs.len(),
{
    if j > 0 {
        let rest = pairs.drop_first();
        assert(rest[j - 1] == pairs[j]);
        match pair_step(pairs[0], program_id, key, total, revenue, vault) {
            Err(_) => {},
            Ok(None) => {
                lemma_walk_refuses_forged(rest, j - 1, program_id, key, total, revenue, vault);
            },
            Ok(Some(q)) => {
                lemma_walk_refuses_forged(
                    rest,
                    j - 1,
                    program_id,
                    key,
                    total,
                    revenue,
                    vault - q.amount,
                );
            },
        }
    }
}

/// A pair whose record is not a genuine investment record of this program
/// refuses the whole distribution, wherever it stands in the list.
pub proof fn lemma_forged_record_refused(ctx: DistributeRewards, revenue: u64, j: int)
    requires
        0 <= j < ctx.remaining_accounts@.len(),
        !is_genuine(ctx.remaining_accounts@[j], ctx.program_id),
    ensures
        distribute_outcome(ctx, revenue).is_err(),
{
    lemma_walk_refuses_forged(
        ctx.remaining_accounts@,
        j,
        ctx.program_id,
        ctx.proposal_key,
        ctx.proposal.total_invested,
        revenue,
        ctx.vault_balance as int,
    );
}

/// Whether every pair holds a genuine investment record of `program_id` that
/// belongs to the proposal `key`.
pub open spec fn all_for_proposal(pairs: Seq<InvestorPair>, program_id: Pubkey, key: Pubkey) -> bool {
    forall|i: int|
        0 <= i < pairs.len() ==> #[trigger] is_genuine(pairs[i], program_id) && decode_investment(
            pairs[i].investment.data@,
        )->Some_0.proposal == key@
}

/// The amount that the record of a pair states.
pub open spec fn amount_of(p: InvestorPair) -> u64 {
    decode_investment(p.investment.data@)->Some_0.amount
}

/// The sum of the amounts that the records of `pairs` state.
pub open spec fn invested_sum(pairs: Seq<InvestorPair>) -> int
    decreases pairs.len(),
{
    if pairs.len() == 0 {
        0
    } else {
        amount_of(pairs[0]) + invested_sum(pairs.drop_first())
    }
}

/// The sum of the shares of `revenue` of the records of `pairs`.
pub open spec fn shares_sum(pairs: Seq<InvestorPair>, revenue: u64, total: u64) -> int
    decreases pairs.len(),
{
    if pairs.len() == 0 {
        0
    } else {
        share_of(amount_of(pairs[0]), revenue, total) + shares_sum(pairs.drop_first(), revenue, total)
    }
}

/// One payout per pair, of that pair's share.
pub open spec fn proportional_payouts(pairs: Seq<InvestorPair>, revenue: u64, total: u64) -> Seq<
    Payout,
> {
    Seq::new(
        pairs.len(),
        |i: int|
            Payout {
                investor: pairs[i].investor,
                amount: share_of(amount_of(pairs[i]), revenue, total) as u64,
            },
    )
}

proof fn lemma_share_bounds(amount: u64, revenue: u64, total: u64)
    requires
        total > 0,
    ensures
        share_of(amount, revenue, total) >= 0,
        total * share_of(amount, revenue, total) <= amount * revenue,
        amount * revenue - total * share_of(amount, revenue, total) < total,
{
    reveal(share_of);
    let p = amount * revenue;
    let t = total as int;
    assert(p >= 0) by (nonlinear_arith)
        requires
            amount >= 0,
            revenue >= 0,
            p == amount * revenue,
    ;
    let q = p / t;
    let r = p % t;
    assert(p == t * q + r && 0 <= r < t) by {
        vstd::arithmetic::div_mod::lemma_fundamental_div_mod(p, t);
    }
    assert(q >= 0) by (nonlinear_arith)
        requires
            p >= 0,
            t > 0,
            p == t * q + r,
            r < t,
    ;
}

proof fn lemma_shares_rounding(pairs: Seq<InvestorPair>, revenue: u64, total: u64)
    requires
        total > 0,
    ensures
        shares_sum(pairs, revenue, total) >= 0,
        total * shares_sum(pairs, revenue, total) <= revenue * invested_sum(pairs),
        revenue * invested_sum(pairs) - total * shares_sum(pairs, revenue, total) <= pairs.len()
            * (total - 1),
    decreases pairs.len(),
{
    if pairs.len() > 0 {
        let rest = pairs.drop_first();
        lemma_shares_rounding(rest, revenue, total);
        let a = amount_of(pairs[0]);
        lemma_share_bounds(a, revenue, total);
        let sh = share_of(a, revenue, total);
        let s1 = shares_sum(rest, revenue, total);
        let i1 = invested_sum(rest);
        let n1 = rest.len() as int;
        let t = total as int;
        let r = revenue as int;
        assert(t * (sh + s1) <= r * (a + i1) && r * (a + i1) - t * (sh + s1) <= (n1 + 1) * (t - 1))
            by (nonlinear_arith)
            requires
                t * sh <= a * r,
                a * r - t * sh < t,
                t * s1 <= r * i1,
                r * i1 - t * s1 <= n1 * (t - 1),
        ;
    }
}

proof fn lemma_walk_pays_all(
    pairs: Seq<InvestorPair>,
    program_id: Pubkey,
    key: Pubkey,
    total: u64,
    revenue: u64,
    vault: int,
)
    requires
        all_for_proposal(pairs, program_id, key),
        total > 0,
        shares_sum(pairs, revenue, total) <= vault <= u64::MAX,
    ensures
        walk(pairs, program_id, key, total, revenue, vault) == Ok::<Seq<Payout>, ErrorCode>(
            proportional_payouts(pairs, revenue, total),
        ),
        total_paid(proportional_payouts(pairs, revenue, total)) == shares_sum(
            pairs,
            revenue,
            total,
        ),
        forall|i: int|
            0 <= i < pairs.len() ==> share_of(amount_of(#[trigger] pairs[i]), revenue, total)
                <= vault,
    decreases pairs.len(),
{
    let pays = proportional_payouts(pairs, revenue, total);
    if pairs.len() == 0 {
        assert(pays =~= Seq::<Payout>::empty());
    } else {
        let rest = pairs.drop_first();
        assert(is_genuine(pairs[0], program_id));
        assert forall|i: int| 0 <= i < rest.len() implies #[trigger] is_genuine(rest[i], program_id)
            && decode_investment(rest[i].investment.data@)->Some_0.proposal == key@ by {
            assert(rest[i] == pairs[i + 1]);
            assert(is_genuine(pairs[i + 1], program_id));
        }
        let a = amount_of(pairs[0]);
        let sh = share_of(a, revenue, total);
        lemma_share_bounds(a, revenue, total);
        lemma_shares_rounding(rest, revenue, total);
        lemma_walk_pays_all(rest, program_id, key, total, revenue, vault - sh);
        let q = Payout { investor: pairs[0].investor, amount: sh as u64 };
        let rest_pays = proportional_payouts(rest, revenue, total);
        assert(pays =~= seq![q] + rest_pays);
        assert(pays[0] == q);
        assert(pays.drop_first() =~= rest_pays);
        assert forall|i: int| 0 <= i < pairs.len() implies share_of(
            amount_of(#[trigger] pairs[i]),
            revenue,
            total,
        ) <= vault by {
            if i > 0 {
                assert(pairs[i] == rest[i - 1]);
            }
        }
    }
}

/// When every pair holds a genuine investment of the proposal and the
/// proposal's total is the sum of those investments, a distribution of
/// `revenue` pays each pair `amount * revenue / total`, rounded down, in
/// order; the payouts sum to at most `revenue`, and fall short of it by less
/// than the number of pairs.
pub proof fn lemma_proportional_distribution(ctx: DistributeRewards, revenue: u64)
    requires
        is_authority(ctx.config, ctx.owner),
        ctx.proposal.status == ProposalStatus::Accepted,
        !ctx.proposal.rewards_distributed,
        revenue <= ctx.vault_balance,
        all_for_proposal(ctx.remaining_accounts@, ctx.program_id, ctx.proposal_key),
        ctx.proposal.total_invested == invested_sum(ctx.remaining_accounts@),
        ctx.proposal.total_invested > 0,
    ensures
        ({
            let pairs = ctx.remaining_accounts@;
            let total = ctx.proposal.total_invested;
            let pays = proportional_payouts(pairs, revenue, total);
            &&& distribute_outcome(ctx, revenue) == Ok::<Seq<Payout>, ErrorCode>(pays)
            &&& pays.len() == pairs.len()
            &&& forall|i: int|
                0 <= i < pairs.len() ==> (#[trigger] pays[i]).investor == pairs[i].investor
                    && pays[i].amount == amount_of(pairs[i]) * revenue / (total as int)
            &&& total_paid(pays) <= revenue
            &&& revenue - total_paid(pays) < pairs.len()
        }),
{
    let pairs = ctx.remaining_accounts@;
    let total = ctx.proposal.total_invested;
    let pays = proportional_payouts(pairs, revenue, total);
    lemma_shares_rounding(pairs, revenue, total);
    let s = shares_sum(pairs, revenue, total);
    let t = total as int;
    let r = revenue as int;
    let n = pairs.len() as int;
    assert(n > 0) by {
        if n == 0 {
            assert(invested_sum(pairs) == 0);
        }
    }
    assert(s <= r) by (nonlinear_arith)
        requires
            t > 0,
            t * s <= r * t,
    ;
    assert(t * (r - s) < t * n) by (nonlinear_arith)
        requires
            t > 0,
            n > 0,
            r * t - t * s <= n * (t - 1),
    ;
    assert(r - s < n) by (nonlinear_arith)
        requires
            t > 0,
            t * (r - s) < t * n,
    ;
    lemma_walk_pays_all(pairs, ctx.program_id, ctx.proposal_key, total, revenue, ctx.vault_balance as int);
    reveal(share_of);
}

} // verus!
