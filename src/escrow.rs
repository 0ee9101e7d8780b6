use vstd::prelude::*;

use crate::errors::ErrorCode;
use crate::identity::Pubkey;
use crate::records::{Investment, Proposal};

verus! {

/// A movement of funds between two parties, for the host ledger to carry out.
#[derive(Clone, Copy, Debug)]
pub struct Transfer {
    pub from: Pubkey,
    pub to: Pubkey,
    pub amount: u64,
}

/// The records touched by one investment.
#[derive(Debug)]
pub struct Invest {
    pub proposal: Proposal,
    /// Address of the proposal record, which also holds the escrowed funds.
    pub proposal_key: Pubkey,
    /// The fresh record that logs this investment.
    pub investment: Investment,
    /// The verified identity that signed the operation and pays.
    pub investor: Pubkey,
}

/// The escrow total after adding `amount` to `total`, or why it is refused.
pub open spec fn escrow_add(total: u64, amount: u64) -> Result<u64, ErrorCode> {
    if amount == 0 {
        Err(ErrorCode::ZeroAmount)
    } else if total + amount > u64::MAX {
        Err(ErrorCode::Overflow)
    } else {
        Ok((total + amount) as u64)
    }
}

/// Escrows `amount` from the signer into the proposal: logs the investment,
/// raises the proposal's total, and returns the transfer of funds that goes
/// with it. Nothing changes when it is refused.
pub fn invest(ctx: &mut Invest, amount: u64) -> (r: Result<Transfer, ErrorCode>)
    ensures
        match escrow_add(old(ctx).proposal.total_invested, amount) {
            Ok(total) => {
                &&& r == Ok::<Transfer, ErrorCode>(
                    Transfer { from: old(ctx).investor, to: old(ctx).proposal_key, amount },
                )
                &&& final(ctx).proposal == (Proposal {
                    total_invested: total,
                    ..old(ctx).proposal
                })
                &&& final(ctx).investment == (Investment {
                    proposal: old(ctx).proposal_key,
                    investor: old(ctx).investor,
                    amount,
                })
                &&& final(ctx).proposal_key == old(ctx).proposal_key
                &&& final(ctx).investor == old(ctx).investor
            },
            Err(e) => r == Err::<Transfer, ErrorCode>(e) && *final(ctx) == *old(ctx),
        },
{
    if amount == 0 {
        return Err(ErrorCode::ZeroAmount);
    }
    let total = match ctx.proposal.total_invested.checked_add(amount) {
        Some(t) => t,
        None => return Err(ErrorCode::Overflow),
    };
    ctx.investment = Investment { proposal: ctx.proposal_key, investor: ctx.investor, amount };
    ctx.proposal.total_invested = total;
    Ok(Transfer { from: ctx.investor, to: ctx.proposal_key, amount })
}

} // verus!
