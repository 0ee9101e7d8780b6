use vstd::prelude::*;

use crate::errors::ErrorCode;
use crate::identity::Pubkey;
use crate::records::{Config, Proposal, ProposalStatus};

verus! {

/// Longest accepted proposal description, in UTF-8 bytes.
pub const MAX_DESCRIPTION_LEN: usize = 200;

/// The records touched when the config record is first written.
#[derive(Debug)]
pub struct Initialize {
    pub config: Config,
    pub payer: Pubkey,
}

/// The records touched when a proposal is created.
#[derive(Debug)]
pub struct CreateProposal {
    pub proposal: Proposal,
    /// The verified identity that signed the operation.
    pub creator: Pubkey,
}

/// The records touched when the authority decides on a proposal.
#[derive(Debug)]
pub struct UpdateProposalStatus {
    pub proposal: Proposal,
    pub config: Config,
    /// The verified identity that signed the operation.
    pub owner: Pubkey,
}

/// Whether `signer` is the authority that `config` names.
pub open spec fn is_authority(config: Config, signer: Pubkey) -> bool {
    config.owner@ == signer@
}

/// Length in bytes of the UTF-8 form of a description.
pub open spec fn description_len(description: String) -> nat {
    vstd::utf8::encode_utf8(description@).len()
}

/// Writes the config record with the authority `owner`.
pub fn initialize(ctx: &mut Initialize, owner: Pubkey) -> (r: Result<(), ErrorCode>)
    ensures
        r.is_ok(),
        final(ctx).config.owner == owner,
        final(ctx).payer == old(ctx).payer,
{
    ctx.config.owner = owner;
    Ok(())
}

/// Fills a fresh proposal record: pending, nothing invested, nothing paid.
pub fn create_proposal(ctx: &mut CreateProposal, description: String) -> (r: Result<
    (),
    ErrorCode,
>)
    ensures
        description_len(description) > MAX_DESCRIPTION_LEN ==> r == Err::<(), ErrorCode>(
            ErrorCode::DescriptionTooLong,
        ) && *final(ctx) == *old(ctx),
        description_len(description) <= MAX_DESCRIPTION_LEN ==> r.is_ok() && final(ctx).proposal
            == (Proposal {
            creator: old(ctx).creator,
            description,
            status: ProposalStatus::Pending,
            total_invested: 0,
            rewards_distributed: false,
        }) && final(ctx).creator == old(ctx).creator,
{
    if description.as_str().as_bytes().len() > MAX_DESCRIPTION_LEN {
        return Err(ErrorCode::DescriptionTooLong);
    }
    ctx.proposal = Proposal {
        creator: ctx.creator,
        description,
        status: ProposalStatus::Pending,
        total_invested: 0,
        rewards_distributed: false,
    };
    Ok(())
}

/// What a decision by `ctx.owner` to move the proposal to `to` yields.
pub open spec fn decision_outcome(ctx: UpdateProposalStatus, to: ProposalStatus) -> Result<
    (),
    ErrorCode,
> {
    if !is_authority(ctx.config, ctx.owner) {
        Err(ErrorCode::Unauthorized)
    } else if ctx.proposal.status != ProposalStatus::Pending {
        Err(ErrorCode::InvalidProposalStatus)
    } else {
        Ok(())
    }
}

/// Moves a pending proposal to `to` on behalf of the authority.
fn decide(ctx: &mut UpdateProposalStatus, to: ProposalStatus) -> (r: Result<(), ErrorCode>)
    ensures
        r == decision_outcome(*old(ctx), to),
        r.is_ok() ==> final(ctx).proposal == (Proposal { status: to, ..old(ctx).proposal })
            && final(ctx).config == old(ctx).config && final(ctx).owner == old(ctx).owner,
        r.is_err() ==> *final(ctx) == *old(ctx),
{
    if !ctx.config.owner.same(&ctx.owner) {
        return Err(ErrorCode::Unauthorized);
    }
    if ctx.proposal.status != ProposalStatus::Pending {
        return Err(ErrorCode::InvalidProposalStatus);
    }
    ctx.proposal.status = to;
    Ok(())
}

/// The authority accepts a pending proposal.
pub fn accept_proposal(ctx: &mut UpdateProposalStatus) -> (r: Result<(), ErrorCode>)
    ensures
        r == decision_outcome(*old(ctx), ProposalStatus::Accepted),
        r.is_ok() ==> final(ctx).proposal == (Proposal {
            status: ProposalStatus::Accepted,
            ..old(ctx).proposal
        }) && final(ctx).config == old(ctx).config && final(ctx).owner == old(ctx).owner,
        r.is_err() ==> *final(ctx) == *old(ctx),
{
    decide(ctx, ProposalStatus::Accepted)
}

/// The authority rejects a pending proposal.
pub fn reject_proposal(ctx: &mut UpdateProposalStatus) -> (r: Result<(), ErrorCode>)
    ensures
        r == decision_outcome(*old(ctx), ProposalStatus::Rejected),
        r.is_ok() ==> final(ctx).proposal == (Proposal {
            status: ProposalStatus::Rejected,
            ..old(ctx).proposal
        }) && final(ctx).config == old(ctx).config && final(ctx).owner == old(ctx).owner,
        r.is_err() ==> *final(ctx) == *old(ctx),
{
    decide(ctx, ProposalStatus::Rejected)
}

} // verus!
