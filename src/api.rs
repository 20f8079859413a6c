use vstd::prelude::*;
use crate::error::AppError;

verus! {

/// Ownership shares are in basis points; a fund's shares add up to 100%.
pub const TOTAL_SHARES: u64 = 10_000;

/// Messages returned per page when the query names no limit.
pub const DEFAULT_MESSAGE_LIMIT: i64 = 50;

#[derive(Debug, Clone, PartialEq, Eq)]
pub struct BalanceResponse {
    pub address: String,
    pub balance: u64,
}

#[derive(Debug, Clone, PartialEq, Eq)]
pub struct ModulesResponse {
    pub address: String,
    pub modules: Vec<String>,
}

#[derive(Debug, Clone, PartialEq, Eq)]
pub struct MemberInput {
    pub address: String,
    /// Basis points (1/10000).
    pub ownership_share: u64,
}

#[derive(Debug, Clone, PartialEq, Eq)]
pub struct CreateFundWalletRequest {
    pub actuator_address: String,
    pub members: Vec<MemberInput>,
}

#[derive(Debug, Clone, PartialEq, Eq)]
pub struct InvestmentRequest {
    pub target_address: String,
    pub amount: u64,
    pub asset_id: i64,
}

#[derive(Debug, Clone, PartialEq, Eq)]
pub struct WithdrawRequest {
    pub amount: u64,
}

#[derive(Debug, Clone, PartialEq, Eq)]
pub struct UpdateShareRequest {
    pub new_share: u64,
}

#[derive(Debug, Clone, PartialEq, Eq)]
pub struct MemberInfo {
    pub address: String,
    pub ownership_share: u64,
    pub joined_at: i64,
}

#[derive(Debug, Clone, PartialEq, Eq)]
pub struct FundWalletResponse {
    pub fund_id: i64,
    pub actuator_address: String,
    pub balance: u64,
    pub members: Vec<MemberInfo>,
}

#[derive(Debug, Clone, PartialEq, Eq)]
pub struct CreateFundRequest {
    pub name: String,
    pub executor_address: String,
}

#[derive(Debug, Clone, PartialEq, Eq)]
pub struct AddMemberRequest {
    pub member_address: String,
}

#[derive(Debug, Clone, PartialEq, Eq)]
pub struct CreateMessageRequest {
    pub content: String,
    pub sender_address: String,
}

#[derive(Debug, Clone, PartialEq, Eq)]
pub struct GetMessagesQuery {
    pub limit: Option<i64>,
    pub before_id: Option<i64>,
}

#[derive(Debug, Clone, PartialEq, Eq)]
pub struct VoteRequest {
    pub voter_address: String,
    pub vote_type: bool,
}

#[derive(Debug, Clone, PartialEq, Eq)]
pub struct EmergencyVetoRequest {
    pub initiator_address: String,
}

#[derive(Debug, Clone, PartialEq, Eq)]
pub struct TransactionStatus {
    pub hash: String,
    pub status: String,
    pub success: bool,
    pub version: Option<u64>,
    pub vm_status: Option<String>,
    pub gas_used: Option<u64>,
}

pub open spec fn share_sum(members: Seq<MemberInput>) -> int
    decreases members.len(),
{
    if members.len() == 0 {
        0
    } else {
        share_sum(members.drop_last()) + members.last().ownership_share
    }
}

/// An amount as the store's signed 64-bit column holds it.
pub fn checked_amount(amount: u64) -> (r: Result<i64, AppError>)
    ensures
        r is Ok <==> amount <= i64::MAX,
        r matches Ok(v) ==> v == amount,
        r matches Err(e) ==> e is InvalidInput,
{
    if amount <= i64::MAX as u64 {
        Ok(amount as i64)
    } else {
        Err(AppError::invalid_input("amount too large"))
    }
}

impl CreateFundWalletRequest {
    /// The members' ownership shares must add up to exactly 100%.
    pub fn validate(&self) -> (r: Result<(), AppError>)
        ensures
            r is Ok <==> share_sum(self.members@) == TOTAL_SHARES,
            r matches Err(e) ==> e is InvalidInput,
    {
        let mut total: u128 = 0;
        let mut i: usize = 0;
        while i < self.members.len()
            invariant
                i <= self.members@.len(),
                total == share_sum(self.members@.take(i as int)),
                total <= i * 0xffff_ffff_ffff_ffffu128,
            decreases self.members@.len() - i,
        {
            proof {
                assert(self.members@.take(i + 1).drop_last() =~= self.members@.take(i as int));
                assert(i * 0xffff_ffff_ffff_ffffu128 <= 0xffff_ffff_ffff_ffffu128
                    * 0xffff_ffff_ffff_ffffu128) by (nonlinear_arith)
                    requires
                        i <= 0xffff_ffff_ffff_ffffu128,
                ;
            }
            total = total + self.members[i].ownership_share as u128;
            i = i + 1;
        }
        assert(self.members@.take(self.members@.len() as int) =~= self.members@);
        if total == TOTAL_SHARES as u128 {
            Ok(())
        } else {
            Err(AppError::invalid_input("total ownership shares must equal 10000 (100%)"))
        }
    }
}

impl InvestmentRequest {
    pub fn amount_i64(&self) -> (r: Result<i64, AppError>)
        ensures
            r is Ok <==> self.amount <= i64::MAX,
            r matches Ok(v) ==> v == self.amount,
            r matches Err(e) ==> e is InvalidInput,
    {
        checked_amount(self.amount)
    }
}

impl WithdrawRequest {
    pub fn amount_i64(&self) -> (r: Result<i64, AppError>)
        ensures
            r is Ok <==> self.amount <= i64::MAX,
            r matches Ok(v) ==> v == self.amount,
            r matches Err(e) ==> e is InvalidInput,
    {
        checked_amount(self.amount)
    }
}

impl UpdateShareRequest {
    pub fn share_i64(&self) -> (r: Result<i64, AppError>)
        ensures
            r is Ok <==> self.new_share <= i64::MAX,
            r matches Ok(v) ==> v == self.new_share,
            r matches Err(e) ==> e is InvalidInput,
    {
        checked_amount(self.new_share)
    }
}

impl GetMessagesQuery {
    pub fn effective_limit(&self) -> (r: i64)
        ensures
            r == match self.limit {
                Some(l) => l,
                None => DEFAULT_MESSAGE_LIMIT,
            },
    {
        match self.limit {
            Some(l) => l,
            None => DEFAULT_MESSAGE_LIMIT,
        }
    }
}

} // verus!
