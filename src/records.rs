use vstd::prelude::*;

use crate::identity::Pubkey;

verus! {

/// Tag that opens the stored form of every investment record, read as a
/// little-endian integer: the first eight bytes of the SHA-256 digest of
/// `account:Investment`, as the host framework tags the records it writes.
pub const INVESTMENT_TAG: u64 = 0x1c27_9973_af09_86af;

/// Length in bytes of a stored investment record: tag, proposal, investor,
/// amount.
pub const INVESTMENT_RECORD_LEN: usize = 80;

/// Lifecycle state of a proposal.
#[derive(Clone, Copy, Debug, PartialEq, Eq, Structural)]
pub enum ProposalStatus {
    Pending,
    Accepted,
    Rejected,
}

/// The singleton record naming the authority.
#[derive(Clone, Copy, Debug)]
pub struct Config {
    pub owner: Pubkey,
}

/// One proposal and its escrow bookkeeping.
#[derive(Clone, Debug)]
pub struct Proposal {
    pub creator: Pubkey,
    pub description: String,
    pub status: ProposalStatus,
    pub total_invested: u64,
    pub rewards_distributed: bool,
}

/// One investment action, bound to a proposal and an investor.
#[derive(Clone, Copy, Debug)]
pub struct Investment {
    pub proposal: Pubkey,
    pub investor: Pubkey,
    pub amount: u64,
}

/// What a stored investment record says, as mathematical values.
pub struct InvestmentView {
    pub proposal: Seq<u8>,
    pub investor: Seq<u8>,
    pub amount: u64,
}

impl View for Investment {
    type V = InvestmentView;

    open spec fn view(&self) -> InvestmentView {
        InvestmentView { proposal: self.proposal@, investor: self.investor@, amount: self.amount }
    }
}

/// The little-endian value of the eight bytes of `s` that start at `k`.
pub open spec fn le_u64_at(s: Seq<u8>, k: int) -> int {
    s[k] + s[k + 1] * 0x100 + s[k + 2] * 0x1_0000 + s[k + 3] * 0x100_0000 + s[k + 4]
        * 0x1_0000_0000 + s[k + 5] * 0x100_0000_0000 + s[k + 6] * 0x1_0000_0000_0000 + s[k + 7]
        * 0x100_0000_0000_0000
}

/// The investment that stored bytes hold, if they have the investment layout.
pub open spec fn decode_investment(s: Seq<u8>) -> Option<InvestmentView> {
    if s.len() == INVESTMENT_RECORD_LEN && le_u64_at(s, 0) == INVESTMENT_TAG {
        Some(
            InvestmentView {
                proposal: s.subrange(8, 40),
                investor: s.subrange(40, 72),
                amount: le_u64_at(s, 72) as u64,
            },
        )
    } else {
        None
    }
}

/// Reads the little-endian `u64` stored at `start`.
pub fn read_u64_le(data: &[u8], start: usize) -> (r: u64)
    requires
        start + 8 <= data@.len(),
    ensures
        r == le_u64_at(data@, start as int),
{
    let _len: usize = data.len();
    let b0 = data[start] as u64;
    let b1 = data[start + 1] as u64;
    let b2 = data[start + 2] as u64;
    let b3 = data[start + 3] as u64;
    let b4 = data[start + 4] as u64;
    let b5 = data[start + 5] as u64;
    let b6 = data[start + 6] as u64;
    let b7 = data[start + 7] as u64;
    b0 + b1 * 0x100 + b2 * 0x1_0000 + b3 * 0x100_0000 + b4 * 0x1_0000_0000 + b5
        * 0x100_0000_0000 + b6 * 0x1_0000_0000_0000 + b7 * 0x100_0000_0000_0000
}

/// Appends the eight little-endian bytes of `v` to `out`.
pub fn push_u64_le(out: &mut Vec<u8>, v: u64)
    ensures
        final(out)@.len() == old(out)@.len() + 8,
        final(out)@.subrange(0, old(out)@.len() as int) == old(out)@,
        le_u64_at(final(out)@, old(out)@.len() as int) == v,
{
    let v1 = v / 0x100;
    let v2 = v1 / 0x100;
    let v3 = v2 / 0x100;
    let v4 = v3 / 0x100;
    let v5 = v4 / 0x100;
    let v6 = v5 / 0x100;
    let v7 = v6 / 0x100;
    let ghost k = old(out)@.len() as int;
    out.push((v % 0x100) as u8);
    out.push((v1 % 0x100) as u8);
    out.push((v2 % 0x100) as u8);
    out.push((v3 % 0x100) as u8);
    out.push((v4 % 0x100) as u8);
    out.push((v5 % 0x100) as u8);
    out.push((v6 % 0x100) as u8);
    out.push((v7 % 0x100) as u8);
    assert(out@.subrange(0, k) =~= old(out)@);
    assert(v7 < 0x100);
}

/// Appends the bytes of `key` to `out`.
pub fn push_key(out: &mut Vec<u8>, key: &Pubkey)
    ensures
        final(out)@ == old(out)@ + key@,
{
    let ghost start = old(out)@;
    let mut i: usize = 0;
    while i < 32
        invariant
            i <= 32,
            out@ == start + key@.subrange(0, i as int),
        decreases 32 - i,
    {
        out.push(key.bytes[i]);
        i = i + 1;
        assert(out@ =~= start + key@.subrange(0, i as int));
    }
    assert(key@.subrange(0, 32) =~= key@);
}

impl Investment {
    /// The stored form of this investment record.
    pub fn to_record_data(&self) -> (r: Vec<u8>)
        ensures
            decode_investment(r@) == Some(self@),
    {
        let mut out: Vec<u8> = Vec::new();
        push_u64_le(&mut out, INVESTMENT_TAG);
        let ghost s0 = out@;
        push_key(&mut out, &self.proposal);
        let ghost s1 = out@;
        push_key(&mut out, &self.investor);
        let ghost s2 = out@;
        push_u64_le(&mut out, self.amount);
        proof {
            assert(out@.subrange(0, 72) == s2);
            assert(s2.subrange(0, 40) =~= s1);
            assert(s1.subrange(0, 8) =~= s0);
            assert(s1.subrange(8, 40) =~= self.proposal@);
            assert(s2.subrange(40, 72) =~= self.investor@);
            assert(out@.subrange(8, 40) =~= s1.subrange(8, 40));
            assert(out@.subrange(40, 72) =~= s2.subrange(40, 72));
            assert(le_u64_at(out@, 0) == le_u64_at(s0, 0));
        }
        out
    }

    /// Decodes a stored investment record; `None` when the bytes do not have
    /// the investment layout.
    pub fn try_deserialize(data: &[u8]) -> (r: Option<Investment>)
        ensures
            match decode_investment(data@) {
                Some(v) => r.is_some() && r.unwrap()@ == v,
                None => r.is_none(),
            },
    {
        if data.len() != INVESTMENT_RECORD_LEN {
            return None;
        }
        if read_u64_le(data, 0) != INVESTMENT_TAG {
            return None;
        }
        let proposal = Pubkey::from_slice_at(data, 8);
        let investor = Pubkey::from_slice_at(data, 40);
        let amount = read_u64_le(data, 72);
        Some(Investment { proposal, investor, amount })
    }
}

} // verus!
