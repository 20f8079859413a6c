use vstd::prelude::*;

verus! {

/// One holder's balance of an asset, as the ledger reports it.
#[derive(Debug, Clone, PartialEq, Eq)]
pub struct HolderInfo {
    pub address: String,
    pub balance: u64,
}

/// One member of a fund's roster, as the ledger reports it.
#[derive(Debug, Clone, PartialEq, Eq)]
pub struct RosterMember {
    pub address: String,
    pub share: u64,
    pub status: String,
}

/// A mutation of the local replica, issued by the ingestion and
/// reconciliation loops and carried out by the local store.
///
/// The `Update*` operations are compare-and-update writes: the store applies
/// them only when the carried version is strictly newer than the stored one.
#[derive(Debug, Clone, PartialEq, Eq)]
pub enum StoreOp {
    /// Subtract `amount` from the holder's balance of the asset `symbol`.
    Debit { symbol: String, holder: String, amount: u64 },
    /// Add `amount` to the holder's balance of the asset `symbol`.
    Credit { symbol: String, holder: String, amount: u64 },
    /// Link the local proposal to its on-chain counterpart and proposer.
    LinkProposal { proposal_id: u64, proposer: String },
    MarkProposalExecuted { proposal_id: u64 },
    MarkProposalVetoed { proposal_id: u64 },
    /// Upsert a membership row with zero share and active status.
    AddMember { fund_id: i64, address: String },
    RemoveMember { fund_id: i64, address: String },
    UpdateFund { fund_id: i64, version: u64, status: String },
    /// Replace the roster version and upsert every listed member by address.
    UpdateRoster { fund_id: i64, version: u64, members: Vec<RosterMember> },
    /// Replace version and supply, and set every listed holder's balance.
    UpdateAsset { symbol: String, version: u64, total_supply: u64, holders: Vec<HolderInfo> },
}

pub struct FundState {
    pub version: nat,
    pub status: Seq<char>,
    pub roster_version: nat,
}

pub struct MemberState {
    pub share: nat,
    pub status: Seq<char>,
}

pub struct AssetState {
    pub version: nat,
    pub total_supply: nat,
}

pub struct ProposalState {
    pub proposer: Option<Seq<char>>,
    pub executed: bool,
    pub vetoed: bool,
}

/// The chain-derived part of the local replica.
pub struct StoreModel {
    /// Keyed by (asset symbol, holder address).
    pub balances: Map<(Seq<char>, Seq<char>), int>,
    pub funds: Map<i64, FundState>,
    /// Keyed by (fund id, member address).
    pub members: Map<(i64, Seq<char>), MemberState>,
    /// Keyed by asset symbol.
    pub assets: Map<Seq<char>, AssetState>,
    pub proposals: Map<u64, ProposalState>,
}

/// A missing balance row counts as zero.
pub open spec fn balance_of(m: StoreModel, symbol: Seq<char>, holder: Seq<char>) -> int {
    if m.balances.contains_key((symbol, holder)) {
        m.balances[(symbol, holder)]
    } else {
        0
    }
}

pub open spec fn with_balance(m: StoreModel, symbol: Seq<char>, holder: Seq<char>, v: int) -> StoreModel {
    StoreModel { balances: m.balances.insert((symbol, holder), v), ..m }
}

pub open spec fn active_status() -> Seq<char> {
    seq!['a', 'c', 't', 'i', 'v', 'e']
}

pub open spec fn upsert_members(
    members: Map<(i64, Seq<char>), MemberState>,
    fund_id: i64,
    list: Seq<RosterMember>,
) -> Map<(i64, Seq<char>), MemberState>
    decreases list.len(),
{
    if list.len() == 0 {
        members
    } else {
        let last = list.last();
        upsert_members(members, fund_id, list.drop_last()).insert(
            (fund_id, last.address@),
            MemberState { share: last.share as nat, status: last.status@ },
        )
    }
}

pub open spec fn set_holders(
    balances: Map<(Seq<char>, Seq<char>), int>,
    symbol: Seq<char>,
    holders: Seq<HolderInfo>,
) -> Map<(Seq<char>, Seq<char>), int>
    decreases holders.len(),
{
    if holders.len() == 0 {
        balances
    } else {
        let last = holders.last();
        set_holders(balances, symbol, holders.drop_last()).insert(
            (symbol, last.address@),
            last.balance as int,
        )
    }
}

pub open spec fn with_proposal(m: StoreModel, id: u64, p: ProposalState) -> StoreModel {
    StoreModel { proposals: m.proposals.insert(id, p), ..m }
}

/// Whether a version-gated operation is newer than what the store holds.
pub open spec fn gate_open(m: StoreModel, op: StoreOp) -> bool {
    match op {
        StoreOp::UpdateFund { fund_id, version, .. } => m.funds.contains_key(fund_id)
            && m.funds[fund_id].version < version,
        StoreOp::UpdateRoster { fund_id, version, .. } => m.funds.contains_key(fund_id)
            && m.funds[fund_id].roster_version < version,
        StoreOp::UpdateAsset { symbol, version, .. } => m.assets.contains_key(symbol@)
            && m.assets[symbol@].version < version,
        _ => true,
    }
}

/// What one operation does to the replica. Writes to rows that do not exist
/// (an unknown fund, asset or proposal) change nothing.
pub open spec fn apply_op(m: StoreModel, op: StoreOp) -> StoreModel {
    match op {
        StoreOp::Debit { symbol, holder, amount } => with_balance(
            m,
            symbol@,
            holder@,
            balance_of(m, symbol@, holder@) - amount,
        ),
        StoreOp::Credit { symbol, holder, amount } => with_balance(
            m,
            symbol@,
            holder@,
            balance_of(m, symbol@, holder@) + amount,
        ),
        StoreOp::LinkProposal { proposal_id, proposer } => if m.proposals.contains_key(
            proposal_id,
        ) {
            with_proposal(
                m,
                proposal_id,
                ProposalState { proposer: Some(proposer@), ..m.proposals[proposal_id] },
            )
        } else {
            m
        },
        StoreOp::MarkProposalExecuted { proposal_id } => if m.proposals.contains_key(
            proposal_id,
        ) {
            with_proposal(
                m,
                proposal_id,
                ProposalState { executed: true, ..m.proposals[proposal_id] },
            )
        } else {
            m
        },
        StoreOp::MarkProposalVetoed { proposal_id } => if m.proposals.contains_key(proposal_id) {
            with_proposal(m, proposal_id, ProposalState { vetoed: true, ..m.proposals[proposal_id] })
        } else {
            m
        },
        StoreOp::AddMember { fund_id, address } => StoreModel {
            members: m.members.insert(
                (fund_id, address@),
                MemberState { share: 0, status: active_status() },
            ),
            ..m
        },
        StoreOp::RemoveMember { fund_id, address } => StoreModel {
            members: m.members.remove((fund_id, address@)),
            ..m
        },
        StoreOp::UpdateFund { fund_id, version, status } => if gate_open(m, op) {
            StoreModel {
                funds: m.funds.insert(
                    fund_id,
                    FundState { version: version as nat, status: status@, ..m.funds[fund_id] },
                ),
                ..m
            }
        } else {
            m
        },
        StoreOp::UpdateRoster { fund_id, version, members } => if gate_open(m, op) {
            StoreModel {
                funds: m.funds.insert(
                    fund_id,
                    FundState { roster_version: version as nat, ..m.funds[fund_id] },
                ),
                members: upsert_members(m.members, fund_id, members@),
                ..m
            }
        } else {
            m
        },
        StoreOp::UpdateAsset { symbol, version, total_supply, holders } => if gate_open(m, op) {
            StoreModel {
                assets: m.assets.insert(
                    symbol@,
                    AssetState { version: version as nat, total_supply: total_supply as nat },
                ),
                balances: set_holders(m.balances, symbol@, holders@),
                ..m
            }
        } else {
            m
        },
    }
}

pub open spec fn apply_ops(m: StoreModel, ops: Seq<StoreOp>) -> StoreModel
    decreases ops.len(),
{
    if ops.len() == 0 {
        m
    } else {
        apply_op(apply_ops(m, ops.drop_last()), ops.last())
    }
}

/// Stored version that the write `op` is compared against; `None` when its aggregate is unknown.
pub open spec fn gated_version(m: StoreModel, op: StoreOp) -> Option<nat> {
    match op {
        StoreOp::UpdateFund { fund_id, .. } => if m.funds.contains_key(fund_id) {
            Some(m.funds[fund_id].version)
        } else {
            None
        },
        StoreOp::UpdateRoster { fund_id, .. } => if m.funds.contains_key(fund_id) {
            Some(m.funds[fund_id].roster_version)
        } else {
            None
        },
        StoreOp::UpdateAsset { symbol, .. } => if m.assets.contains_key(symbol@) {
            Some(m.assets[symbol@].version)
        } else {
            None
        },
        _ => None,
    }
}

pub open spec fn op_version(op: StoreOp) -> nat {
    match op {
        StoreOp::UpdateFund { version, .. } => version as nat,
        StoreOp::UpdateRoster { version, .. } => version as nat,
        StoreOp::UpdateAsset { version, .. } => version as nat,
        _ => 0,
    }
}

pub open spec fn is_snapshot(op: StoreOp) -> bool {
    op is UpdateFund || op is UpdateRoster || op is UpdateAsset
}

/// Reconciliation is idempotent: applying a snapshot a second time changes
/// nothing; a snapshot whose version is not newer than the stored one is a
/// no-op; a strictly newer one replaces the aggregate's version and every
/// tracked field.
pub proof fn lemma_snapshot_idempotent(m: StoreModel, op: StoreOp)
    requires
        is_snapshot(op),
    ensures
        apply_op(apply_op(m, op), op) == apply_op(m, op),
        gated_version(m, op) matches Some(v) && op_version(op) <= v ==> apply_op(m, op) == m,
        gated_version(m, op) is None ==> apply_op(m, op) == m,
        gated_version(m, op) matches Some(v) && op_version(op) > v ==> gated_version(
            apply_op(m, op),
            op,
        ) == Some(op_version(op)),
        op is UpdateFund && gate_open(m, op) ==> apply_op(m, op).funds[op->UpdateFund_fund_id].status
            == op->UpdateFund_status@,
        op is UpdateAsset && gate_open(m, op) ==> {
            &&& apply_op(m, op).assets[op->UpdateAsset_symbol@].total_supply
                == op->UpdateAsset_total_supply
            &&& apply_op(m, op).balances == set_holders(
                m.balances,
                op->UpdateAsset_symbol@,
                op->UpdateAsset_holders@,
            )
        },
        op is UpdateRoster && gate_open(m, op) ==> apply_op(m, op).members == upsert_members(
            m.members,
            op->UpdateRoster_fund_id,
            op->UpdateRoster_members@,
        ),
{
    let m1 = apply_op(m, op);
    match op {
        StoreOp::UpdateFund { fund_id, version, status } => {
            if gate_open(m, op) {
                assert(m1.funds[fund_id].version == version);
            }
        },
        StoreOp::UpdateRoster { fund_id, version, members } => {
            if gate_open(m, op) {
                assert(m1.funds[fund_id].roster_version == version);
            }
        },
        StoreOp::UpdateAsset { symbol, version, total_supply, holders } => {
            if gate_open(m, op) {
                assert(m1.assets[symbol@].version == version);
            }
        },
        _ => {},
    }
}

pub open spec fn is_transfer_op(op: StoreOp) -> bool {
    op is Debit || op is Credit
}

pub open spec fn transfer_symbol(op: StoreOp) -> Seq<char> {
    match op {
        StoreOp::Debit { symbol, .. } => symbol@,
        StoreOp::Credit { symbol, .. } => symbol@,
        _ => Seq::empty(),
    }
}

/// Balance updates commute: applying two debits or credits in either order
/// gives the same replica.
pub proof fn lemma_transfer_ops_commute(m: StoreModel, a: StoreOp, b: StoreOp)
    requires
        is_transfer_op(a),
        is_transfer_op(b),
    ensures
        apply_op(apply_op(m, a), b) == apply_op(apply_op(m, b), a),
{
    let ab = apply_op(apply_op(m, a), b);
    let ba = apply_op(apply_op(m, b), a);
    assert(ab.balances =~= ba.balances);
}

proof fn lemma_set_holders_other_key(
    balances: Map<(Seq<char>, Seq<char>), int>,
    symbol: Seq<char>,
    holders: Seq<HolderInfo>,
    key: (Seq<char>, Seq<char>),
    v: int,
)
    requires
        key.0 != symbol,
    ensures
        set_holders(balances.insert(key, v), symbol, holders) == set_holders(
            balances,
            symbol,
            holders,
        ).insert(key, v),
        set_holders(balances, symbol, holders).contains_key(key) == balances.contains_key(key),
        balances.contains_key(key) ==> set_holders(balances, symbol, holders)[key]
            == balances[key],
    decreases holders.len(),
{
    if holders.len() > 0 {
        lemma_set_holders_other_key(balances, symbol, holders.drop_last(), key, v);
        let last = holders.last();
        assert(set_holders(balances.insert(key, v), symbol, holders) =~= set_holders(
            balances,
            symbol,
            holders,
        ).insert(key, v));
    }
}

/// A transfer on one asset commutes with a snapshot of another asset, so a
/// reconciliation pass on an unrelated asset may interleave with transfer
/// ingestion in any order.
pub proof fn lemma_transfer_commutes_with_other_asset(m: StoreModel, t: StoreOp, u: StoreOp)
    requires
        is_transfer_op(t),
        u matches StoreOp::UpdateAsset { symbol, .. } && symbol@ != transfer_symbol(t),
    ensures
        apply_op(apply_op(m, t), u) == apply_op(apply_op(m, u), t),
{
    let tu = apply_op(apply_op(m, t), u);
    let ut = apply_op(apply_op(m, u), t);
    match u {
        StoreOp::UpdateAsset { symbol, version, total_supply, holders } => {
            match t {
                StoreOp::Debit { symbol: s, holder, amount } => {
                    let key = (s@, holder@);
                    let v = balance_of(m, s@, holder@) - amount;
                    lemma_set_holders_other_key(m.balances, symbol@, holders@, key, v);
                    assert(tu.balances =~= ut.balances);
                },
                StoreOp::Credit { symbol: s, holder, amount } => {
                    let key = (s@, holder@);
                    let v = balance_of(m, s@, holder@) + amount;
                    lemma_set_holders_other_key(m.balances, symbol@, holders@, key, v);
                    assert(tu.balances =~= ut.balances);
                },
                _ => {},
            }
        },
        _ => {},
    }
}

} // verus!
