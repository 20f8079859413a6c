use std::collections::HashMap;

use backend::events::{
    next_pass_delay_ms, plan_page, EventListener, EventStream, LedgerEvent, MemberEvent,
    ProposalEvent, TransferEvent, ERROR_BACKOFF_MS, IDLE_INTERVAL_MS, PAGE_SIZE,
};
use backend::store::StoreOp;

fn transfer(seq: u64, from: &str, to: &str, amount: u64) -> LedgerEvent<TransferEvent> {
    LedgerEvent {
        sequence: seq,
        payload: Some(TransferEvent {
            symbol: "WND".to_string(),
            from: from.to_string(),
            to: to.to_string(),
            amount,
        }),
    }
}

/// Applies balance operations the way the local store does.
fn apply(balances: &mut HashMap<(String, String), i128>, ops: &[StoreOp]) {
    for op in ops {
        match op {
            StoreOp::Debit { symbol, holder, amount } => {
                *balances.entry((symbol.clone(), holder.clone())).or_insert(0) -= *amount as i128
            },
            StoreOp::Credit { symbol, holder, amount } => {
                *balances.entry((symbol.clone(), holder.clone())).or_insert(0) += *amount as i128
            },
            _ => {},
        }
    }
}

#[test]
fn ordered_page_moves_cursor_to_last_sequence() {
    let listener = EventListener::new();
    let page = vec![transfer(5, "A", "B", 10), transfer(6, "B", "C", 4), transfer(7, "C", "A", 1)];
    let plan = listener.process_asset_events(&page);
    assert_eq!(plan.next_cursor, Some(7));
    assert_eq!(plan.ops.len(), 6);
    assert_eq!(
        plan.ops[0],
        StoreOp::Debit { symbol: "WND".to_string(), holder: "A".to_string(), amount: 10 }
    );
    assert_eq!(
        plan.ops[5],
        StoreOp::Credit { symbol: "WND".to_string(), holder: "A".to_string(), amount: 1 }
    );
    let mut balances = HashMap::new();
    apply(&mut balances, &plan.ops);
    assert_eq!(balances[&("WND".to_string(), "A".to_string())], -9);
    assert_eq!(balances[&("WND".to_string(), "B".to_string())], 6);
    assert_eq!(balances[&("WND".to_string(), "C".to_string())], 3);
    let mut listener = listener;
    listener.commit(&EventStream::AssetTransfers, plan.next_cursor);
    assert_eq!(listener.cursor_of(&EventStream::AssetTransfers), Some(7));
    assert_eq!(listener.page_start(&EventStream::AssetTransfers), 8);
}

#[test]
fn two_transfers_with_unrelated_reconciliation() {
    let page = vec![transfer(0, "A", "B", 100), transfer(1, "B", "C", 50)];
    let plan = plan_page(None, &page);
    let mut balances = HashMap::new();
    for h in ["A", "B", "C"] {
        balances.insert(("WND".to_string(), h.to_string()), 1_000i128);
    }
    // a reconciliation of another asset lands between the two transfers
    apply(&mut balances, &plan.ops[..2]);
    balances.insert(("GLD".to_string(), "A".to_string()), 77);
    apply(&mut balances, &plan.ops[2..]);
    assert_eq!(balances[&("WND".to_string(), "A".to_string())], 900);
    assert_eq!(balances[&("WND".to_string(), "B".to_string())], 1_050);
    assert_eq!(balances[&("WND".to_string(), "C".to_string())], 1_050);
}

#[test]
fn malformed_payloads_are_skipped_but_consumed() {
    let page = vec![
        transfer(3, "A", "B", 1),
        LedgerEvent { sequence: 4, payload: None },
        transfer(5, "B", "A", 2),
    ];
    let plan = plan_page(Some(2), &page);
    assert_eq!(plan.ops.len(), 4);
    assert_eq!(plan.next_cursor, Some(5));
    let tail = vec![LedgerEvent::<TransferEvent> { sequence: 6, payload: None }];
    let plan = plan_page(Some(5), &tail);
    assert!(plan.ops.is_empty());
    assert_eq!(plan.next_cursor, Some(6));
}

#[test]
fn events_at_or_before_cursor_are_not_reapplied() {
    let page = vec![transfer(5, "A", "B", 10), transfer(6, "B", "C", 4), transfer(7, "C", "A", 1)];
    let first = plan_page(None, &page);
    let again = plan_page(first.next_cursor, &page);
    assert!(again.ops.is_empty());
    assert_eq!(again.next_cursor, Some(7));
    let partly = plan_page(Some(6), &page);
    assert_eq!(partly.ops.len(), 2);
}

#[test]
fn empty_page_keeps_cursor() {
    let page: Vec<LedgerEvent<TransferEvent>> = Vec::new();
    assert_eq!(plan_page(Some(9), &page).next_cursor, Some(9));
    assert_eq!(plan_page(None, &page).next_cursor, None);
}

#[test]
fn cursor_commit_never_moves_back() {
    let mut listener = EventListener::new();
    assert_eq!(listener.page_start(&EventStream::Membership), 0);
    listener.commit(&EventStream::Membership, Some(10));
    listener.commit(&EventStream::Membership, Some(4));
    listener.commit(&EventStream::Membership, None);
    assert_eq!(listener.cursor_of(&EventStream::Membership), Some(10));
    // streams keep separate cursors
    assert_eq!(listener.cursor_of(&EventStream::AssetTransfers), None);
    listener.commit(&EventStream::ProposalLifecycle, Some(u64::MAX));
    assert_eq!(listener.page_start(&EventStream::ProposalLifecycle), u64::MAX);
}

#[test]
fn proposal_lifecycle_events_map_to_store_operations() {
    let event = |seq: u64, kind: &str| LedgerEvent {
        sequence: seq,
        payload: Some(ProposalEvent {
            proposal_id: 42,
            proposer: "0x1234".to_string(),
            event_type: kind.to_string(),
        }),
    };
    let page = vec![event(0, "created"), event(1, "voted"), event(2, "executed"), event(3, "vetoed")];
    let plan = EventListener::new().process_governance_events(&page);
    assert_eq!(
        plan.ops,
        vec![
            StoreOp::LinkProposal { proposal_id: 42, proposer: "0x1234".to_string() },
            StoreOp::MarkProposalExecuted { proposal_id: 42 },
            StoreOp::MarkProposalVetoed { proposal_id: 42 },
        ]
    );
    assert_eq!(plan.next_cursor, Some(3));
}

#[test]
fn membership_events_map_to_store_operations() {
    let event = |seq: u64, kind: &str| LedgerEvent {
        sequence: seq,
        payload: Some(MemberEvent {
            fund_id: 1,
            member_address: "0x5678".to_string(),
            event_type: kind.to_string(),
        }),
    };
    let page = vec![event(0, "added"), event(1, "removed"), event(2, "renamed")];
    let plan = EventListener::new().process_registry_events(&page);
    assert_eq!(
        plan.ops,
        vec![
            StoreOp::AddMember { fund_id: 1, address: "0x5678".to_string() },
            StoreOp::RemoveMember { fund_id: 1, address: "0x5678".to_string() },
        ]
    );
}

#[test]
fn pass_pacing() {
    assert_eq!(next_pass_delay_ms(false), IDLE_INTERVAL_MS);
    assert_eq!(next_pass_delay_ms(true), ERROR_BACKOFF_MS);
    assert_eq!(IDLE_INTERVAL_MS, 1_000);
    assert_eq!(ERROR_BACKOFF_MS, 5_000);
    assert_eq!(PAGE_SIZE, 100);
}
