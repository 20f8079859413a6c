use vstd::prelude::*;
use crate::error::AppError;
use crate::store::{HolderInfo, RosterMember, StoreOp};

verus! {

/// A locally known fund, with the versions last applied from the ledger.
#[derive(Debug, Clone, PartialEq, Eq)]
pub struct Fund {
    pub id: i64,
    pub name: String,
    pub executor_address: String,
    pub version: u64,
    pub status: String,
    pub roster_version: u64,
}

/// A locally known asset; `address` is `None` until it is deployed on chain.
#[derive(Debug, Clone, PartialEq, Eq)]
pub struct Asset {
    pub id: i64,
    pub symbol: String,
    pub name: String,
    pub decimals: i32,
    pub address: Option<String>,
    pub version: u64,
    pub total_supply: u64,
}

/// The ledger's snapshot of a fund.
#[derive(Debug, Clone, PartialEq, Eq)]
pub struct FundResource {
    pub version: u64,
    pub status: String,
}

/// The ledger's snapshot of a fund's membership roster.
#[derive(Debug, Clone, PartialEq, Eq)]
pub struct MembersResource {
    pub version: u64,
    pub members: Vec<RosterMember>,
}

/// The ledger's snapshot of an asset's supply and holders.
#[derive(Debug, Clone, PartialEq, Eq)]
pub struct AssetResource {
    pub version: u64,
    pub total_supply: u64,
    pub holders: Vec<HolderInfo>,
}

/// What reconciliation does with one aggregate.
#[derive(Debug, PartialEq, Eq)]
pub enum SyncDecision {
    /// Apply this version-gated write.
    Apply(StoreOp),
    /// The ledger's version is not newer than the local one.
    UpToDate,
    /// The aggregate is not deployed on chain yet: skipped with a warning.
    NotDeployed,
    /// The fetch failed otherwise: skipped, and the pass goes on.
    FetchFailed(AppError),
}

/// The decision for a fetch outcome, given whether the snapshot is newer and
/// the write that applies it.
pub open spec fn decision<T>(remote: Result<T, AppError>, newer: bool, op: StoreOp) -> SyncDecision {
    match remote {
        Err(AppError::NotFound(_)) => SyncDecision::NotDeployed,
        Err(e) => SyncDecision::FetchFailed(e),
        Ok(_) => if newer {
            SyncDecision::Apply(op)
        } else {
            SyncDecision::UpToDate
        },
    }
}

/// Periodic, version-gated reconciliation of funds, rosters and assets.
#[derive(Debug, Clone, Copy)]
pub struct BlockchainSynchronizer {
    pub sync_interval_ms: u64,
}

impl Asset {
    /// Only assets with an on-chain address are reconciled.
    pub fn is_chain_tracked(&self) -> (r: bool)
        ensures
            r == self.address is Some,
    {
        self.address.is_some()
    }
}

impl BlockchainSynchronizer {
    pub fn new(sync_interval_ms: u64) -> (r: Self)
        ensures
            r.sync_interval_ms == sync_interval_ms,
    {
        BlockchainSynchronizer { sync_interval_ms }
    }

    pub fn sync_fund_state(&self, local: &Fund, remote: Result<FundResource, AppError>) -> (r:
        SyncDecision)
        ensures
            remote is Ok ==> r == decision(
                remote,
                remote->Ok_0.version > local.version,
                StoreOp::UpdateFund {
                    fund_id: local.id,
                    version: remote->Ok_0.version,
                    status: remote->Ok_0.status,
                },
            ),
            remote matches Err(AppError::NotFound(_)) ==> r is NotDeployed,
            remote is Err && !(remote->Err_0 is NotFound) ==> r == SyncDecision::FetchFailed(
                remote->Err_0,
            ),
    {
        match remote {
            Ok(res) => if res.version > local.version {
                SyncDecision::Apply(
                    StoreOp::UpdateFund { fund_id: local.id, version: res.version, status: res.status },
                )
            } else {
                SyncDecision::UpToDate
            },
            Err(AppError::NotFound(_)) => SyncDecision::NotDeployed,
            Err(e) => SyncDecision::FetchFailed(e),
        }
    }

    pub fn sync_member_state(&self, local: &Fund, remote: Result<MembersResource, AppError>) -> (r:
        SyncDecision)
        ensures
            remote is Ok ==> r == decision(
                remote,
                remote->Ok_0.version > local.roster_version,
                StoreOp::UpdateRoster {
                    fund_id: local.id,
                    version: remote->Ok_0.version,
                    members: remote->Ok_0.members,
                },
            ),
            remote matches Err(AppError::NotFound(_)) ==> r is NotDeployed,
            remote is Err && !(remote->Err_0 is NotFound) ==> r == SyncDecision::FetchFailed(
                remote->Err_0,
            ),
    {
        match remote {
            Ok(res) => if res.version > local.roster_version {
                SyncDecision::Apply(
                    StoreOp::UpdateRoster {
                        fund_id: local.id,
                        version: res.version,
                        members: res.members,
                    },
                )
            } else {
                SyncDecision::UpToDate
            },
            Err(AppError::NotFound(_)) => SyncDecision::NotDeployed,
            Err(e) => SyncDecision::FetchFailed(e),
        }
    }

    pub fn sync_asset_state(&self, local: &Asset, remote: Result<AssetResource, AppError>) -> (r:
        SyncDecision)
        ensures
            remote is Ok ==> r == decision(
                remote,
                remote->Ok_0.version > local.version,
                StoreOp::UpdateAsset {
                    symbol: local.symbol,
                    version: remote->Ok_0.version,
                    total_supply: remote->Ok_0.total_supply,
                    holders: remote->Ok_0.holders,
                },
            ),
            remote matches Err(AppError::NotFound(_)) ==> r is NotDeployed,
            remote is Err && !(remote->Err_0 is NotFound) ==> r == SyncDecision::FetchFailed(
                remote->Err_0,
            ),
    {
        match remote {
            Ok(res) => if res.version > local.version {
                SyncDecision::Apply(
                    StoreOp::UpdateAsset {
                        symbol: local.symbol.clone(),
                        version: res.version,
                        total_supply: res.total_supply,
                        holders: res.holders,
                    },
                )
            } else {
                SyncDecision::UpToDate
            },
            Err(AppError::NotFound(_)) => SyncDecision::NotDeployed,
            Err(e) => SyncDecision::FetchFailed(e),
        }
    }
}

} // verus!
