use backend::error::AppError;
use backend::store::{HolderInfo, RosterMember, StoreOp};
use backend::sync::{
    AssetResource, Asset, BlockchainSynchronizer, FundResource, Fund, MembersResource,
    SyncDecision,
};

fn fund(version: u64, roster_version: u64) -> Fund {
    Fund {
        id: 1,
        name: "Test Fund".to_string(),
        executor_address: "0x1234".to_string(),
        version,
        status: "active".to_string(),
        roster_version,
    }
}

fn roster(version: u64, share: u64) -> MembersResource {
    MembersResource {
        version,
        members: vec![RosterMember {
            address: "X".to_string(),
            share,
            status: "active".to_string(),
        }],
    }
}

#[test]
fn newer_fund_snapshot_is_applied() {
    let s = BlockchainSynchronizer::new(10_000);
    let remote = FundResource { version: 4, status: "closed".to_string() };
    assert_eq!(
        s.sync_fund_state(&fund(3, 0), Ok(remote)),
        SyncDecision::Apply(StoreOp::UpdateFund {
            fund_id: 1,
            version: 4,
            status: "closed".to_string()
        })
    );
}

#[test]
fn same_or_lower_fund_version_is_a_no_op() {
    let s = BlockchainSynchronizer::new(10_000);
    let same = FundResource { version: 3, status: "closed".to_string() };
    assert_eq!(s.sync_fund_state(&fund(3, 0), Ok(same)), SyncDecision::UpToDate);
    let lower = FundResource { version: 2, status: "closed".to_string() };
    assert_eq!(s.sync_fund_state(&fund(3, 0), Ok(lower)), SyncDecision::UpToDate);
}

#[test]
fn applying_a_snapshot_twice_changes_nothing_the_second_time() {
    let s = BlockchainSynchronizer::new(10_000);
    let mut local = fund(0, 0);
    let first = s.sync_fund_state(&local, Ok(FundResource { version: 5, status: "open".to_string() }));
    match first {
        SyncDecision::Apply(StoreOp::UpdateFund { version, status, .. }) => {
            local.version = version;
            local.status = status;
        },
        other => panic!("unexpected decision {:?}", other),
    }
    let second = s.sync_fund_state(&local, Ok(FundResource { version: 5, status: "open".to_string() }));
    assert_eq!(second, SyncDecision::UpToDate);
}

#[test]
fn stale_roster_does_not_overwrite_newer_state() {
    let s = BlockchainSynchronizer::new(10_000);
    let mut local = fund(0, 0);
    match s.sync_member_state(&local, Ok(roster(3, 4_000))) {
        SyncDecision::Apply(StoreOp::UpdateRoster { version, members, .. }) => {
            assert_eq!(version, 3);
            assert_eq!(members[0].share, 4_000);
            local.roster_version = version;
        },
        other => panic!("unexpected decision {:?}", other),
    }
    assert_eq!(s.sync_member_state(&local, Ok(roster(2, 1_000))), SyncDecision::UpToDate);
}

#[test]
fn missing_resource_is_not_deployed_and_other_errors_are_isolated() {
    let s = BlockchainSynchronizer::new(10_000);
    let missing = Err(AppError::NotFound("FundResource".to_string()));
    assert_eq!(s.sync_fund_state(&fund(0, 0), missing), SyncDecision::NotDeployed);
    let down = AppError::ConnectionFailure("reset".to_string());
    assert_eq!(
        s.sync_member_state(&fund(0, 0), Err(down.clone())),
        SyncDecision::FetchFailed(down)
    );
}

#[test]
fn asset_snapshot_carries_supply_and_holders() {
    let s = BlockchainSynchronizer::new(10_000);
    let local = Asset {
        id: 9,
        symbol: "WND".to_string(),
        name: "Windfall".to_string(),
        decimals: 8,
        address: Some("0x99".to_string()),
        version: 1,
        total_supply: 100,
    };
    assert!(local.is_chain_tracked());
    let remote = AssetResource {
        version: 2,
        total_supply: 150,
        holders: vec![HolderInfo { address: "A".to_string(), balance: 150 }],
    };
    assert_eq!(
        s.sync_asset_state(&local, Ok(remote.clone())),
        SyncDecision::Apply(StoreOp::UpdateAsset {
            symbol: "WND".to_string(),
            version: 2,
            total_supply: 150,
            holders: remote.holders,
        })
    );
    let untracked = Asset { address: None, ..local };
    assert!(!untracked.is_chain_tracked());
}
