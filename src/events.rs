use vstd::prelude::*;
use vstd::string::StringExecFns;
use crate::store::{StoreOp, StoreModel, apply_op, apply_ops, balance_of};

verus! {

/// Events fetched per stream and pass.
pub const PAGE_SIZE: u16 = 100;

/// Pause between two passes of the ingestion loop.
pub const IDLE_INTERVAL_MS: u64 = 1_000;

/// Pause after a pass whose page fetch failed.
pub const ERROR_BACKOFF_MS: u64 = 5_000;

/// A typed ledger event payload and the store operations it stands for.
pub trait EventPayload {
    spec fn ops_spec(&self) -> Seq<StoreOp>;

    fn to_ops(&self) -> (r: Vec<StoreOp>)
        ensures
            r@ == self.ops_spec(),
    ;
}

/// An asset moved from one holder to another.
#[derive(Debug, Clone, PartialEq, Eq)]
pub struct TransferEvent {
    pub symbol: String,
    pub from: String,
    pub to: String,
    pub amount: u64,
}

/// A step in a governance proposal's life: `created`, `executed` or `vetoed`.
#[derive(Debug, Clone, PartialEq, Eq)]
pub struct ProposalEvent {
    pub proposal_id: u64,
    pub proposer: String,
    pub event_type: String,
}

/// A change of a fund's membership: `added` or `removed`.
#[derive(Debug, Clone, PartialEq, Eq)]
pub struct MemberEvent {
    pub fund_id: i64,
    pub member_address: String,
    pub event_type: String,
}

/// One event of a stream at its sequence number. `payload` is `None` when
/// the event's data does not match the stream's schema.
#[derive(Debug, Clone)]
pub struct LedgerEvent<T> {
    pub sequence: u64,
    pub payload: Option<T>,
}

pub open spec fn transfer_ops(e: TransferEvent) -> Seq<StoreOp> {
    seq![
        StoreOp::Debit { symbol: e.symbol, holder: e.from, amount: e.amount },
        StoreOp::Credit { symbol: e.symbol, holder: e.to, amount: e.amount },
    ]
}

impl EventPayload for TransferEvent {
    open spec fn ops_spec(&self) -> Seq<StoreOp> {
        transfer_ops(*self)
    }

    fn to_ops(&self) -> (r: Vec<StoreOp>) {
        let mut r: Vec<StoreOp> = Vec::new();
        r.push(
            StoreOp::Debit {
                symbol: self.symbol.clone(),
                holder: self.from.clone(),
                amount: self.amount,
            },
        );
        r.push(
            StoreOp::Credit {
                symbol: self.symbol.clone(),
                holder: self.to.clone(),
                amount: self.amount,
            },
        );
        assert(r@ =~= transfer_ops(*self));
        r
    }
}

impl EventPayload for ProposalEvent {
    open spec fn ops_spec(&self) -> Seq<StoreOp> {
        if self.event_type@ == "created"@ {
            seq![StoreOp::LinkProposal { proposal_id: self.proposal_id, proposer: self.proposer }]
        } else if self.event_type@ == "executed"@ {
            seq![StoreOp::MarkProposalExecuted { proposal_id: self.proposal_id }]
        } else if self.event_type@ == "vetoed"@ {
            seq![StoreOp::MarkProposalVetoed { proposal_id: self.proposal_id }]
        } else {
            Seq::empty()
        }
    }

    fn to_ops(&self) -> (r: Vec<StoreOp>) {
        let mut r: Vec<StoreOp> = Vec::new();
        if self.event_type == String::from_str("created") {
            r.push(
                StoreOp::LinkProposal {
                    proposal_id: self.proposal_id,
                    proposer: self.proposer.clone(),
                },
            );
        } else if self.event_type == String::from_str("executed") {
            r.push(StoreOp::MarkProposalExecuted { proposal_id: self.proposal_id });
        } else if self.event_type == String::from_str("vetoed") {
            r.push(StoreOp::MarkProposalVetoed { proposal_id: self.proposal_id });
        }
        assert(r@ =~= self.ops_spec());
        r
    }
}

impl EventPayload for MemberEvent {
    open spec fn ops_spec(&self) -> Seq<StoreOp> {
        if self.event_type@ == "added"@ {
            seq![StoreOp::AddMember { fund_id: self.fund_id, address: self.member_address }]
        } else if self.event_type@ == "removed"@ {
            seq![StoreOp::RemoveMember { fund_id: self.fund_id, address: self.member_address }]
        } else {
            Seq::empty()
        }
    }

    fn to_ops(&self) -> (r: Vec<StoreOp>) {
        let mut r: Vec<StoreOp> = Vec::new();
        if self.event_type == String::from_str("added") {
            r.push(
                StoreOp::AddMember {
                    fund_id: self.fund_id,
                    address: self.member_address.clone(),
                },
            );
        } else if self.event_type == String::from_str("removed") {
            r.push(
                StoreOp::RemoveMember {
                    fund_id: self.fund_id,
                    address: self.member_address.clone(),
                },
            );
        }
        assert(r@ =~= self.ops_spec());
        r
    }
}

/// Whether an event at `sequence` lies strictly after the cursor position.
pub open spec fn is_after(pos: Option<u64>, sequence: u64) -> bool {
    match pos {
        None => true,
        Some(p) => p < sequence,
    }
}

/// `b` is at or past `a`.
pub open spec fn not_behind(a: Option<u64>, b: Option<u64>) -> bool {
    match (a, b) {
        (None, _) => true,
        (Some(x), Some(y)) => x <= y,
        (Some(_), None) => false,
    }
}

/// Cursor position after walking `page` from `pos`: each event strictly
/// after the running position moves it, whether its payload parsed or not.
pub open spec fn cursor_after<T>(pos: Option<u64>, page: Seq<LedgerEvent<T>>) -> Option<u64>
    decreases page.len(),
{
    if page.len() == 0 {
        pos
    } else {
        let p = cursor_after(pos, page.drop_last());
        if is_after(p, page.last().sequence) {
            Some(page.last().sequence)
        } else {
            p
        }
    }
}

/// Store operations for `page` from `pos`, in delivery order: events at or
/// before the running position, and events whose payload did not parse,
/// contribute nothing.
pub open spec fn page_ops<T: EventPayload>(pos: Option<u64>, page: Seq<LedgerEvent<T>>) -> Seq<
    StoreOp,
>
    decreases page.len(),
{
    if page.len() == 0 {
        Seq::empty()
    } else {
        let prev = page_ops(pos, page.drop_last());
        let e = page.last();
        if is_after(cursor_after(pos, page.drop_last()), e.sequence) && e.payload is Some {
            prev + e.payload->Some_0.ops_spec()
        } else {
            prev
        }
    }
}

/// Operations for every event of `page`, in order.
pub open spec fn all_ops<T: EventPayload>(page: Seq<LedgerEvent<T>>) -> Seq<StoreOp>
    decreases page.len(),
{
    if page.len() == 0 {
        Seq::empty()
    } else {
        all_ops(page.drop_last()) + page.last().payload->Some_0.ops_spec()
    }
}

/// What one page of a stream asks of the store, and where the stream's
/// cursor stands once those operations are applied.
#[derive(Debug)]
pub struct PagePlan {
    pub ops: Vec<StoreOp>,
    pub next_cursor: Option<u64>,
}

/// Plans the application of one fetched page: skips events at or before the
/// cursor and events whose payload did not parse, and collects the store
/// operations of the rest in delivery order.
pub fn plan_page<T: EventPayload>(cursor: Option<u64>, page: &Vec<LedgerEvent<T>>) -> (r: PagePlan)
    ensures
        r.ops@ == page_ops(cursor, page@),
        r.next_cursor == cursor_after(cursor, page@),
        not_behind(cursor, r.next_cursor),
{
    let mut ops: Vec<StoreOp> = Vec::new();
    let mut pos = cursor;
    let mut i: usize = 0;
    while i < page.len()
        invariant
            i <= page@.len(),
            ops@ == page_ops(cursor, page@.take(i as int)),
            pos == cursor_after(cursor, page@.take(i as int)),
            not_behind(cursor, pos),
        decreases page@.len() - i,
    {
        proof {
            assert(page@.take(i + 1).drop_last() =~= page@.take(i as int));
        }
        let e = &page[i];
        let after = match pos {
            None => true,
            Some(p) => p < e.sequence,
        };
        if after {
            match &e.payload {
                Some(p) => {
                    let mut more = p.to_ops();
                    ops.append(&mut more);
                },
                None => {},
            }
            pos = Some(e.sequence);
        }
        i = i + 1;
    }
    assert(page@.take(page@.len() as int) =~= page@);
    PagePlan { ops, next_cursor: pos }
}

/// The event streams the ingestion loop follows.
#[derive(Debug, Clone, Copy, PartialEq, Eq)]
pub enum EventStream {
    AssetTransfers,
    ProposalLifecycle,
    Membership,
}

/// Last processed position of one event stream; `None` before the first event.
#[derive(Debug, Clone, Copy, PartialEq, Eq)]
pub struct EventCursor {
    pub last_processed_sequence: Option<u64>,
}

/// The cursor moved to `next` when that is further along, else kept.
pub open spec fn advanced(cur: Option<u64>, next: Option<u64>) -> Option<u64> {
    match next {
        Some(n) => if is_after(cur, n) {
            Some(n)
        } else {
            cur
        },
        None => cur,
    }
}

/// Cursor-based ingestion: one cursor per stream.
#[derive(Debug, Clone)]
pub struct EventListener {
    pub transfers: EventCursor,
    pub proposals: EventCursor,
    pub members: EventCursor,
}

impl EventListener {
    pub open spec fn cursor(self, stream: EventStream) -> Option<u64> {
        match stream {
            EventStream::AssetTransfers => self.transfers.last_processed_sequence,
            EventStream::ProposalLifecycle => self.proposals.last_processed_sequence,
            EventStream::Membership => self.members.last_processed_sequence,
        }
    }

    pub fn new() -> (r: Self)
        ensures
            r.cursor(EventStream::AssetTransfers) is None,
            r.cursor(EventStream::ProposalLifecycle) is None,
            r.cursor(EventStream::Membership) is None,
    {
        EventListener {
            transfers: EventCursor { last_processed_sequence: None },
            proposals: EventCursor { last_processed_sequence: None },
            members: EventCursor { last_processed_sequence: None },
        }
    }

    pub fn cursor_of(&self, stream: &EventStream) -> (r: Option<u64>)
        ensures
            r == self.cursor(*stream),
    {
        match stream {
            EventStream::AssetTransfers => self.transfers.last_processed_sequence,
            EventStream::ProposalLifecycle => self.proposals.last_processed_sequence,
            EventStream::Membership => self.members.last_processed_sequence,
        }
    }

    /// First sequence number to fetch for `stream`: the one right after its
    /// cursor, or 0 before the first event.
    pub fn page_start(&self, stream: &EventStream) -> (r: u64)
        ensures
            self.cursor(*stream) matches Some(p) ==> r == if p == u64::MAX {
                p as int
            } else {
                p + 1
            },
            self.cursor(*stream) is None ==> r == 0,
    {
        match self.cursor_of(stream) {
            None => 0,
            Some(p) => if p == u64::MAX {
                p
            } else {
                p + 1
            },
        }
    }

    pub fn process_asset_events(&self, page: &Vec<LedgerEvent<TransferEvent>>) -> (r: PagePlan)
        ensures
            r.ops@ == page_ops(self.cursor(EventStream::AssetTransfers), page@),
            r.next_cursor == cursor_after(self.cursor(EventStream::AssetTransfers), page@),
    {
        plan_page(self.transfers.last_processed_sequence, page)
    }

    pub fn process_governance_events(&self, page: &Vec<LedgerEvent<ProposalEvent>>) -> (r:
        PagePlan)
        ensures
            r.ops@ == page_ops(self.cursor(EventStream::ProposalLifecycle), page@),
            r.next_cursor == cursor_after(self.cursor(EventStream::ProposalLifecycle), page@),
    {
        plan_page(self.proposals.last_processed_sequence, page)
    }

    pub fn process_registry_events(&self, page: &Vec<LedgerEvent<MemberEvent>>) -> (r: PagePlan)
        ensures
            r.ops@ == page_ops(self.cursor(EventStream::Membership), page@),
            r.next_cursor == cursor_after(self.cursor(EventStream::Membership), page@),
    {
        plan_page(self.members.last_processed_sequence, page)
    }

    /// Records that a page has been fully applied; the cursor only moves forward.
    pub fn commit(&mut self, stream: &EventStream, next: Option<u64>)
        ensures
            final(self).cursor(*stream) == advanced(old(self).cursor(*stream), next),
            not_behind(old(self).cursor(*stream), final(self).cursor(*stream)),
            forall|s: EventStream| s != *stream ==> final(self).cursor(s) == old(self).cursor(s),
    {
        let cur = self.cursor_of(stream);
        let moved = match next {
            Some(n) => match cur {
                None => Some(n),
                Some(p) => if p < n {
                    Some(n)
                } else {
                    cur
                },
            },
            None => cur,
        };
        match stream {
            EventStream::AssetTransfers => self.transfers.last_processed_sequence = moved,
            EventStream::ProposalLifecycle => self.proposals.last_processed_sequence = moved,
            EventStream::Membership => self.members.last_processed_sequence = moved,
        }
    }
}

/// Pause before the next pass: a short idle interval, or a longer back-off
/// when the pass failed to fetch a page.
pub fn next_pass_delay_ms(fetch_failed: bool) -> (r: u64)
    ensures
        r == if fetch_failed {
            ERROR_BACKOFF_MS
        } else {
            IDLE_INTERVAL_MS
        },
{
    if fetch_failed {
        ERROR_BACKOFF_MS
    } else {
        IDLE_INTERVAL_MS
    }
}

/// Sequence numbers strictly ascending, all after `pos`, every payload parsed.
pub open spec fn ordered_page<T>(pos: Option<u64>, page: Seq<LedgerEvent<T>>) -> bool {
    &&& forall|i: int, j: int|
        0 <= i < j < page.len() ==> #[trigger] page[i].sequence < #[trigger] page[j].sequence
    &&& forall|i: int| 0 <= i < page.len() ==> is_after(pos, #[trigger] page[i].sequence)
    &&& forall|i: int| 0 <= i < page.len() ==> (#[trigger] page[i]).payload is Some
}

/// A page delivered in ascending order past the cursor is applied whole and
/// in delivery order, and the cursor ends at the last event's sequence.
pub proof fn lemma_ordered_page_applied_in_order<T: EventPayload>(
    pos: Option<u64>,
    page: Seq<LedgerEvent<T>>,
)
    requires
        ordered_page(pos, page),
    ensures
        page_ops(pos, page) == all_ops(page),
        page.len() > 0 ==> cursor_after(pos, page) == Some(page.last().sequence),
        page.len() == 0 ==> cursor_after(pos, page) == pos,
    decreases page.len(),
{
    if page.len() > 0 {
        let prefix = page.drop_last();
        assert(ordered_page(pos, prefix)) by {
            assert forall|i: int, j: int| 0 <= i < j < prefix.len() implies #[trigger] prefix[i].sequence
                < #[trigger] prefix[j].sequence by {
                assert(page[i].sequence < page[j].sequence);
            }
            assert forall|i: int| 0 <= i < prefix.len() implies is_after(
                pos,
                #[trigger] prefix[i].sequence,
            ) by {
                assert(is_after(pos, page[i].sequence));
            }
            assert forall|i: int| 0 <= i < prefix.len() implies (#[trigger] prefix[i]).payload is Some by {
                assert(page[i].payload is Some);
            }
        }
        lemma_ordered_page_applied_in_order(pos, prefix);
        assert(page[page.len() - 1].payload is Some);
        assert(is_after(pos, page[page.len() - 1].sequence));
        if prefix.len() > 0 {
            assert(page[page.len() - 2].sequence < page[page.len() - 1].sequence);
        }
    }
}

proof fn lemma_cursor_covers_page<T>(pos: Option<u64>, page: Seq<LedgerEvent<T>>)
    ensures
        not_behind(pos, cursor_after(pos, page)),
        forall|i: int|
            0 <= i < page.len() ==> !is_after(cursor_after(pos, page), #[trigger] page[i].sequence),
    decreases page.len(),
{
    if page.len() > 0 {
        let prefix = page.drop_last();
        lemma_cursor_covers_page(pos, prefix);
        assert forall|i: int| 0 <= i < page.len() implies !is_after(
            cursor_after(pos, page),
            #[trigger] page[i].sequence,
        ) by {
            if i < prefix.len() {
                assert(!is_after(cursor_after(pos, prefix), prefix[i].sequence));
            }
        }
    }
}

proof fn lemma_covered_page_is_noop<T: EventPayload>(pos: Option<u64>, page: Seq<LedgerEvent<T>>)
    requires
        forall|i: int| 0 <= i < page.len() ==> !is_after(pos, #[trigger] page[i].sequence),
    ensures
        cursor_after(pos, page) == pos,
        page_ops(pos, page) == Seq::<StoreOp>::empty(),
    decreases page.len(),
{
    if page.len() > 0 {
        let prefix = page.drop_last();
        assert forall|i: int| 0 <= i < prefix.len() implies !is_after(pos, #[trigger] prefix[i].sequence) by {
            assert(!is_after(pos, page[i].sequence));
        }
        lemma_covered_page_is_noop(pos, prefix);
        assert(!is_after(pos, page[page.len() - 1].sequence));
    }
}

/// Redelivery is harmless once the cursor is committed: planning the same
/// page again from the committed cursor issues no operation and leaves the
/// cursor where it is.
pub proof fn lemma_replayed_page_is_noop<T: EventPayload>(
    pos: Option<u64>,
    page: Seq<LedgerEvent<T>>,
)
    ensures
        page_ops(cursor_after(pos, page), page) == Seq::<StoreOp>::empty(),
        cursor_after(cursor_after(pos, page), page) == cursor_after(pos, page),
{
    lemma_cursor_covers_page(pos, page);
    lemma_covered_page_is_noop(cursor_after(pos, page), page);
}

/// Committing a cursor never moves it back.
pub proof fn lemma_commit_monotone(cur: Option<u64>, next: Option<u64>)
    ensures
        not_behind(cur, advanced(cur, next)),
        next matches Some(n) && is_after(cur, n) ==> advanced(cur, next) == next,
{
}

/// Two transfers on one asset, `a -> b` of `x` and then `b -> c` of `y`
/// between three distinct holders, leave `a` down by `x`, `b` up by `x - y`
/// and `c` up by `y`.
pub proof fn lemma_two_transfers(m: StoreModel, e1: TransferEvent, e2: TransferEvent)
    requires
        e1.symbol@ == e2.symbol@,
        e1.to@ == e2.from@,
        e1.from@ != e1.to@,
        e1.from@ != e2.to@,
        e2.from@ != e2.to@,
    ensures
        ({
            let s = e1.symbol@;
            let after = apply_ops(m, transfer_ops(e1) + transfer_ops(e2));
            &&& balance_of(after, s, e1.from@) == balance_of(m, s, e1.from@) - e1.amount
            &&& balance_of(after, s, e1.to@) == balance_of(m, s, e1.to@) + e1.amount - e2.amount
            &&& balance_of(after, s, e2.to@) == balance_of(m, s, e2.to@) + e2.amount
        }),
{
    let ops = transfer_ops(e1) + transfer_ops(e2);
    let p3 = ops.drop_last();
    let p2 = p3.drop_last();
    let p1 = p2.drop_last();
    let p0 = p1.drop_last();
    assert(p0.len() == 0);
    assert(apply_ops(m, p0) == m);
    let m1 = apply_op(m, ops[0]);
    let m2 = apply_op(m1, ops[1]);
    let m3 = apply_op(m2, ops[2]);
    assert(p1.last() == ops[0]);
    assert(apply_ops(m, p1) == m1);
    assert(p2.last() == ops[1]);
    assert(apply_ops(m, p2) == m2);
    assert(p3.last() == ops[2]);
    assert(apply_ops(m, p3) == m3);
}

} // verus!
