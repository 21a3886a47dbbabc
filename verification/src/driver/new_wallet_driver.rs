//! Driver for the new wallet (minotari-cli): local UTXO selection, signing and
//! broadcast, with a scanner in the background.
use tari_transaction_components::offline_signing::models::{
    PrepareOneSidedTransactionForSigningResult, SignedOneSidedTransactionResult,
};
use vstd::prelude::*;
use vstd::string::*;

use super::{
    BalanceWatch, SendResult, SendResultView, TransactionStatus, TransactionStatusView,
    WalletBalance,
};
use crate::address_pool::{recipient_views, Recipient, RecipientView};
use crate::signing::{derive_key_manager, keys_of_phrase, sign_prepared, signing_gives};
use crate::tari::{
    address_error, check_address, new_request_key, seed_of_phrase, uuid_form, Network,
};
use crate::text::{concat, joined, opt_view, str_eq, texts};
use crate::time::{is_over, secs_ns};

verus! {

/// How long the inputs of a send stay locked: two hours.
pub const SECONDS_TO_LOCK_UTXO: u64 = 7200;

/// Heights between two progress messages of a scan.
pub const SCAN_PROGRESS_LOG_INTERVAL: u64 = 1000;

/// Blocks fetched at once.
pub const SCAN_BATCH_SIZE: u64 = 25;

/// How often the scanner tries again on its own before it gives up.
pub const SCAN_ERROR_RETRIES: u64 = 5;

/// Seconds between two looks of the scanner at the chain tip.
pub const TIP_POLL_SECS: u64 = 10;

/// Seconds before a scanner that ended is started again.
pub const SCANNER_RESTART_SECS: u64 = 5;

/// How long to wait for the scanner to reach the tip.
pub const SYNC_TIMEOUT_SECS: u64 = 600;

/// What one more split needs on top of its amount.
pub const SPLIT_FEE_HEADROOM: u64 = 10_000;

/// How long to wait for the change of a split.
pub const CHANGE_TIMEOUT_SECS: u64 = 900;

/// Seconds between two looks at the balance.
pub const BALANCE_POLL_SECS: u64 = 30;

/// How long the balance must not change to be called stable.
pub const STABLE_SECS: u64 = 60;

// ---------------------------------------------------------------------------
// Scanner state
// ---------------------------------------------------------------------------

/// What the scanner knows of a transaction.
#[derive(Debug)]
pub struct TrackedTransaction {
    pub id: String,
    pub status: String,
    pub mined_height: u64,
    pub confirmations: u64,
}

/// What is known of a transaction, apart from its identifier.
pub struct TrackedView {
    pub status: Seq<char>,
    pub mined_height: u64,
    pub confirmations: u64,
}

impl TrackedTransaction {
    /// What is known of the transaction.
    pub open spec fn known(self) -> TrackedView {
        TrackedView {
            status: self.status@,
            mined_height: self.mined_height,
            confirmations: self.confirmations,
        }
    }
}

impl Clone for TrackedTransaction {
    fn clone(&self) -> (r: Self)
        ensures
            r.id@ == self.id@,
            r.known() == self.known(),
    {
        TrackedTransaction {
            id: self.id.clone(),
            status: self.status.clone(),
            mined_height: self.mined_height,
            confirmations: self.confirmations,
        }
    }
}

/// What the scanner says.
#[derive(Debug)]
pub enum ScanEvent {
    Started { from_height: u64 },
    Progress { current_height: u64, blocks_scanned: u64 },
    Completed { final_height: u64 },
    MoreBlocksAvailable { last_scanned_height: u64 },
    Waiting,
    Paused { last_scanned_height: u64 },
    TransactionsReady { transactions: Vec<TrackedTransaction> },
    TransactionsUpdated { updated_transactions: Vec<TrackedTransaction> },
    ReorgDetected { blocks_rolled_back: u64, reorg_from_height: u64 },
    Other,
}

/// What the scanner has found out.
pub struct ScannerView {
    pub at_tip: bool,
    pub last_scanned_height: u64,
    /// The transactions by identifier.
    pub transactions: Map<Seq<char>, TrackedView>,
    /// The identifiers in the order in which they were first seen.
    pub order: Seq<Seq<char>>,
}

impl ScannerView {
    /// Nothing found out yet.
    pub open spec fn begun() -> ScannerView {
        ScannerView {
            at_tip: false,
            last_scanned_height: 0,
            transactions: Map::empty(),
            order: Seq::empty(),
        }
    }

    /// One transaction newly seen or seen again.
    pub open spec fn noted(self, t: TrackedTransaction) -> ScannerView {
        ScannerView {
            transactions: self.transactions.insert(t.id@, t.known()),
            order: if self.transactions.dom().contains(t.id@) {
                self.order
            } else {
                self.order.push(t.id@)
            },
            ..self
        }
    }

    /// Transactions seen, one after the other.
    pub open spec fn noted_all(self, list: Seq<TrackedTransaction>) -> ScannerView
        decreases list.len(),
    {
        if list.len() == 0 {
            self
        } else {
            self.noted_all(list.drop_last()).noted(list.last())
        }
    }

    /// What is known after an event.
    pub open spec fn after(self, event: ScanEvent) -> ScannerView {
        match event {
            ScanEvent::Started { .. } => ScannerView { at_tip: false, ..self },
            ScanEvent::Completed { final_height } => ScannerView {
                at_tip: true,
                last_scanned_height: final_height,
                ..self
            },
            ScanEvent::MoreBlocksAvailable { last_scanned_height } => ScannerView {
                at_tip: false,
                last_scanned_height,
                ..self
            },
            ScanEvent::Waiting => ScannerView { at_tip: true, ..self },
            ScanEvent::TransactionsReady { transactions } => self.noted_all(transactions@),
            ScanEvent::TransactionsUpdated { updated_transactions } => self.noted_all(
                updated_transactions@,
            ),
            ScanEvent::ReorgDetected { .. } => ScannerView { at_tip: false, ..self },
            ScanEvent::Progress { .. } | ScanEvent::Paused { .. } | ScanEvent::Other => self,
        }
    }

    /// What is known after a stream of events.
    pub open spec fn after_all(self, events: Seq<ScanEvent>) -> ScannerView
        decreases events.len(),
    {
        if events.len() == 0 {
            self
        } else {
            self.after_all(events.drop_last()).after(events.last())
        }
    }
}

/// The transactions of a list by identifier.
spec fn as_map(list: Seq<TrackedTransaction>) -> Map<Seq<char>, TrackedView>
    decreases list.len(),
{
    if list.len() == 0 {
        Map::empty()
    } else {
        as_map(list.drop_last()).insert(list.last().id@, list.last().known())
    }
}

/// The identifiers of a list.
spec fn ids(list: Seq<TrackedTransaction>) -> Seq<Seq<char>> {
    list.map_values(|t: TrackedTransaction| t.id@)
}

/// No identifier occurs twice.
spec fn distinct(list: Seq<TrackedTransaction>) -> bool {
    forall|i: int, j: int|
        0 <= i < j < list.len() ==> (#[trigger] list[i]).id@ != (#[trigger] list[j]).id@
}

proof fn lemma_as_map_dom(list: Seq<TrackedTransaction>, id: Seq<char>)
    ensures
        as_map(list).dom().contains(id) <==> exists|i: int|
            0 <= i < list.len() && (#[trigger] list[i]).id@ == id,
    decreases list.len(),
{
    if list.len() > 0 {
        let rest = list.drop_last();
        lemma_as_map_dom(rest, id);
        if exists|i: int| 0 <= i < rest.len() && (#[trigger] rest[i]).id@ == id {
            let i = choose|i: int| 0 <= i < rest.len() && (#[trigger] rest[i]).id@ == id;
            assert(list[i].id@ == id);
        }
        if exists|i: int| 0 <= i < list.len() && (#[trigger] list[i]).id@ == id {
            let i = choose|i: int| 0 <= i < list.len() && (#[trigger] list[i]).id@ == id;
            if i < rest.len() {
                assert(rest[i].id@ == id);
            }
        }
    }
}

proof fn lemma_as_map_index(list: Seq<TrackedTransaction>, i: int)
    requires
        distinct(list),
        0 <= i < list.len(),
    ensures
        as_map(list).dom().contains(list[i].id@),
        as_map(list)[list[i].id@] == list[i].known(),
    decreases list.len(),
{
    let rest = list.drop_last();
    if i < rest.len() {
        assert(distinct(rest)) by {
            assert forall|a: int, b: int| 0 <= a < b < rest.len() implies (
            #[trigger] rest[a]).id@ != (#[trigger] rest[b]).id@ by {
                assert(list[a].id@ != list[b].id@);
            }
        }
        lemma_as_map_index(rest, i);
        assert(list[i].id@ != list[list.len() - 1].id@);
    }
}

proof fn lemma_as_map_update(list: Seq<TrackedTransaction>, i: int, t: TrackedTransaction)
    requires
        distinct(list),
        0 <= i < list.len(),
        list[i].id@ == t.id@,
    ensures
        as_map(list.update(i, t)) == as_map(list).insert(t.id@, t.known()),
    decreases list.len(),
{
    let rest = list.drop_last();
    let new = list.update(i, t);
    if i == list.len() - 1 {
        assert(new.drop_last() =~= rest);
        assert(as_map(new) =~= as_map(list).insert(t.id@, t.known()));
    } else {
        assert(new.drop_last() =~= rest.update(i, t));
        assert(distinct(rest)) by {
            assert forall|a: int, b: int| 0 <= a < b < rest.len() implies (
            #[trigger] rest[a]).id@ != (#[trigger] rest[b]).id@ by {
                assert(list[a].id@ != list[b].id@);
            }
        }
        lemma_as_map_update(rest, i, t);
        assert(list[i].id@ != list[list.len() - 1].id@);
        assert(new.last() == list.last());
        assert(as_map(new) =~= as_map(list).insert(t.id@, t.known()));
    }
}

/// What the scanner has found out, shared with the driver.
pub struct ScannerState {
    at_tip: bool,
    last_scanned_height: u64,
    transactions: Vec<TrackedTransaction>,
}

impl View for ScannerState {
    type V = ScannerView;

    closed spec fn view(&self) -> ScannerView {
        ScannerView {
            at_tip: self.at_tip,
            last_scanned_height: self.last_scanned_height,
            transactions: as_map(self.transactions@),
            order: ids(self.transactions@),
        }
    }
}

/// How far the progress of one scan was told.
#[derive(Clone, Copy, Debug, PartialEq, Eq, Structural)]
pub struct ScanProgress {
    pub last_logged_height: u64,
}

/// What an event asks for beyond the state.
#[derive(Clone, Copy, Debug, PartialEq, Eq, Structural)]
pub struct EventEffect {
    /// Wake those who wait for the tip.
    pub notify_tip: bool,
    /// Tell of the progress.
    pub log_progress: bool,
}

/// The heights of a scan do not fall behind those already told.
pub open spec fn progress_rises(event: ScanEvent, progress: ScanProgress) -> bool {
    event matches ScanEvent::Progress { current_height, .. } ==> current_height
        >= progress.last_logged_height
}

/// Progress is told of every so many heights.
pub open spec fn tells_progress(event: ScanEvent, progress: ScanProgress) -> bool {
    event matches ScanEvent::Progress { current_height, .. } && current_height
        - progress.last_logged_height >= SCAN_PROGRESS_LOG_INTERVAL
}

/// How far the progress was told after an event.
pub open spec fn progress_after(event: ScanEvent, progress: ScanProgress) -> ScanProgress {
    match event {
        ScanEvent::Started { from_height } => ScanProgress { last_logged_height: from_height },
        ScanEvent::Progress { current_height, .. } if tells_progress(event, progress) => {
            ScanProgress { last_logged_height: current_height }
        },
        _ => progress,
    }
}

impl ScannerState {
    /// No transaction is kept twice.
    pub closed spec fn wf(&self) -> bool {
        distinct(self.transactions@)
    }

    /// Nothing found out yet.
    pub fn new() -> (r: Self)
        ensures
            r.wf(),
            r@ == ScannerView::begun(),
    {
        let r = ScannerState {
            at_tip: false,
            last_scanned_height: 0,
            transactions: Vec::new(),
        };
        assert(r@.order =~= Seq::empty());
        r
    }

    /// Whether the scanner is at the chain tip.
    pub fn is_at_tip(&self) -> (r: bool)
        ensures
            r == self@.at_tip,
    {
        self.at_tip
    }

    /// The height scanned last.
    pub fn scanned_height(&self) -> (r: u64)
        ensures
            r == self@.last_scanned_height,
    {
        self.last_scanned_height
    }

    /// Notes that the scanner is no longer known to be at the tip.
    pub fn leave_tip(&mut self)
        requires
            old(self).wf(),
        ensures
            final(self).wf(),
            final(self)@ == (ScannerView { at_tip: false, ..old(self)@ }),
    {
        self.at_tip = false;
    }

    /// The place of a transaction in the list.
    fn find(&self, id: &str) -> (r: Option<usize>)
        requires
            self.wf(),
        ensures
            match r {
                Some(i) => i < self.transactions.len() && self.transactions@[i as int].id@ == id@
                    && self@.transactions.dom().contains(id@) && self@.transactions[id@]
                    == self.transactions@[i as int].known(),
                None => !self@.transactions.dom().contains(id@),
            },
    {
        let mut i: usize = 0;
        while i < self.transactions.len()
            invariant
                i <= self.transactions.len(),
                self.wf(),
                forall|j: int| 0 <= j < i ==> (#[trigger] self.transactions@[j]).id@ != id@,
            decreases self.transactions.len() - i,
        {
            if str_eq(self.transactions[i].id.as_str(), id) {
                proof {
                    lemma_as_map_index(self.transactions@, i as int);
                }
                return Some(i);
            }
            i = i + 1;
        }
        proof {
            lemma_as_map_dom(self.transactions@, id@);
        }
        None
    }

    /// Takes note of a transaction.
    fn track(&mut self, t: TrackedTransaction)
        requires
            old(self).wf(),
        ensures
            final(self).wf(),
            final(self)@ == old(self)@.noted(t),
    {
        let ghost before = self.transactions@;
        let ghost new = t;
        match self.find(t.id.as_str()) {
            Some(i) => {
                proof {
                    lemma_as_map_update(before, i as int, t);
                }
                self.transactions.set(i, t);
                proof {
                    let after = self.transactions@;
                    assert(after == before.update(i as int, new));
                    assert forall|a: int, b: int| 0 <= a < b < after.len() implies (
                    #[trigger] after[a]).id@ != (#[trigger] after[b]).id@ by {
                        assert(after[a].id@ == before[a].id@);
                        assert(after[b].id@ == before[b].id@);
                    }
                    assert(ids(after) =~= ids(before));
                }
            },
            None => {
                proof {
                    lemma_as_map_dom(before, t.id@);
                }
                self.transactions.push(t);
                proof {
                    let after = self.transactions@;
                    assert(after == before.push(new));
                    assert(after.drop_last() =~= before);
                    assert(ids(after) =~= ids(before).push(new.id@));
                    assert forall|a: int, b: int| 0 <= a < b < after.len() implies (
                    #[trigger] after[a]).id@ != (#[trigger] after[b]).id@ by {
                        assert(after[a] == before[a]);
                        if b < before.len() {
                            assert(after[b] == before[b]);
                        }
                    }
                }
            },
        }
    }

    /// Takes note of transactions, one after the other.
    fn track_all(&mut self, list: &Vec<TrackedTransaction>)
        requires
            old(self).wf(),
        ensures
            final(self).wf(),
            final(self)@ == old(self)@.noted_all(list@),
    {
        let ghost first = self@;
        let mut i: usize = 0;
        assert(list@.take(0) =~= Seq::empty());
        while i < list.len()
            invariant
                i <= list.len(),
                self.wf(),
                self@ == first.noted_all(list@.take(i as int)),
            decreases list.len() - i,
        {
            let ghost now = self@;
            let t = list[i].clone();
            self.track(t);
            proof {
                assert(list@.take(i + 1).drop_last() =~= list@.take(i as int));
                assert(now.noted(t) == now.noted(list@[i as int]));
            }
            i = i + 1;
        }
        assert(list@.take(i as int) =~= list@);
    }

    /// Process a scanner event, updating the state.
    pub fn process_event(&mut self, event: &ScanEvent, progress: &mut ScanProgress) -> (r: EventEffect)
        requires
            old(self).wf(),
            progress_rises(*event, *old(progress)),
        ensures
            final(self).wf(),
            final(self)@ == old(self)@.after(*event),
            *final(progress) == progress_after(*event, *old(progress)),
            r.notify_tip == (event is Completed || event is Waiting),
            r.log_progress == tells_progress(*event, *old(progress)),
    {
        let mut effect = EventEffect { notify_tip: false, log_progress: false };
        match event {
            ScanEvent::Started { from_height } => {
                self.at_tip = false;
                progress.last_logged_height = *from_height;
            },
            ScanEvent::Progress { current_height, .. } => {
                if *current_height - progress.last_logged_height >= SCAN_PROGRESS_LOG_INTERVAL {
                    effect.log_progress = true;
                    progress.last_logged_height = *current_height;
                }
            },
            ScanEvent::Completed { final_height } => {
                self.at_tip = true;
                self.last_scanned_height = *final_height;
                effect.notify_tip = true;
            },
            ScanEvent::MoreBlocksAvailable { last_scanned_height } => {
                self.at_tip = false;
                self.last_scanned_height = *last_scanned_height;
            },
            ScanEvent::Waiting => {
                self.at_tip = true;
                effect.notify_tip = true;
            },
            ScanEvent::Paused { .. } => {},
            ScanEvent::TransactionsReady { transactions } => {
                self.track_all(transactions);
            },
            ScanEvent::TransactionsUpdated { updated_transactions } => {
                self.track_all(updated_transactions);
            },
            ScanEvent::ReorgDetected { .. } => {
                self.at_tip = false;
            },
            ScanEvent::Other => {},
        }
        effect
    }

    /// The status of a transaction; one that was not seen is "unknown".
    pub fn get_transaction_status(&self, tx_id: &str) -> (r: TransactionStatus)
        requires
            self.wf(),
        ensures
            r@ == (if self@.transactions.dom().contains(tx_id@) {
                tracked_status(tx_id@, self@.transactions[tx_id@])
            } else {
                TransactionStatusView {
                    tx_id: tx_id@,
                    status: "unknown"@,
                    mined_height: None,
                    confirmations: None,
                }
            }),
    {
        match self.find(tx_id) {
            Some(i) => TransactionStatus {
                tx_id: tx_id.to_owned(),
                status: self.transactions[i].status.clone(),
                mined_height: Some(self.transactions[i].mined_height),
                confirmations: Some(self.transactions[i].confirmations),
            },
            None => TransactionStatus {
                tx_id: tx_id.to_owned(),
                status: "unknown".to_owned(),
                mined_height: None,
                confirmations: None,
            },
        }
    }

    /// The statuses of all transactions, in the order in which they were first
    /// seen.
    pub fn get_completed_transactions(&self) -> (r: Vec<TransactionStatus>)
        requires
            self.wf(),
        ensures
            r.len() == self@.order.len(),
            forall|i: int|
                0 <= i < r.len() ==> (#[trigger] r@[i])@ == tracked_status(
                    self@.order[i],
                    self@.transactions[self@.order[i]],
                ),
    {
        let mut out: Vec<TransactionStatus> = Vec::new();
        let mut i: usize = 0;
        while i < self.transactions.len()
            invariant
                i <= self.transactions.len(),
                self.wf(),
                out.len() == i,
                forall|j: int|
                    0 <= j < i ==> (#[trigger] out@[j])@ == tracked_status(
                        self@.order[j],
                        self@.transactions[self@.order[j]],
                    ),
            decreases self.transactions.len() - i,
        {
            proof {
                lemma_as_map_index(self.transactions@, i as int);
            }
            out.push(
                TransactionStatus {
                    tx_id: self.transactions[i].id.clone(),
                    status: self.transactions[i].status.clone(),
                    mined_height: Some(self.transactions[i].mined_height),
                    confirmations: Some(self.transactions[i].confirmations),
                },
            );
            i = i + 1;
        }
        out
    }
}

/// The status of a transaction that was seen.
pub open spec fn tracked_status(id: Seq<char>, t: TrackedView) -> TransactionStatusView {
    TransactionStatusView {
        tx_id: id,
        status: t.status,
        mined_height: Some(t.mined_height),
        confirmations: Some(t.confirmations),
    }
}

/// What the scanner says of a transaction last is what is known of it, and
/// what it says of one transaction changes nothing about another.
pub proof fn law_latest_report_counts(
    view: ScannerView,
    list: Seq<TrackedTransaction>,
    t: TrackedTransaction,
    other: Seq<char>,
)
    requires
        other != t.id@,
    ensures
        view.noted_all(list.push(t)).transactions.dom().contains(t.id@),
        view.noted_all(list.push(t)).transactions[t.id@] == t.known(),
        view.noted_all(list.push(t)).transactions.dom().contains(other) == view.noted_all(
            list,
        ).transactions.dom().contains(other),
        view.noted_all(list).transactions.dom().contains(other) ==> view.noted_all(
            list.push(t),
        ).transactions[other] == view.noted_all(list).transactions[other],
{
    assert(list.push(t).drop_last() =~= list);
}

/// The transactions are listed once each, whatever the scanner says.
pub open spec fn order_is_exact(view: ScannerView) -> bool {
    &&& view.order.no_duplicates()
    &&& forall|id: Seq<char>| #[trigger]
        view.order.contains(id) <==> view.transactions.dom().contains(id)
}

proof fn lemma_noted_keeps_order(view: ScannerView, t: TrackedTransaction)
    requires
        order_is_exact(view),
    ensures
        order_is_exact(view.noted(t)),
{
    let after = view.noted(t);
    if !view.transactions.dom().contains(t.id@) {
        assert(!view.order.contains(t.id@));
        assert forall|id: Seq<char>| #[trigger]
            after.order.contains(id) <==> after.transactions.dom().contains(id) by {
            if view.order.contains(id) {
                let i = view.order.index_of(id);
                assert(after.order[i] == id);
            }
            if id == t.id@ {
                assert(after.order[view.order.len() as int] == id);
            }
            if after.order.contains(id) {
                let i = choose|i: int| 0 <= i < after.order.len() && after.order[i] == id;
                if i < view.order.len() {
                    assert(view.order[i] == id);
                }
            }
        }
    } else {
        assert forall|id: Seq<char>| #[trigger]
            after.order.contains(id) <==> after.transactions.dom().contains(id) by {
            assert(view.order.contains(id) <==> view.transactions.dom().contains(id));
        }
    }
}

proof fn lemma_noted_all_keeps_order(view: ScannerView, list: Seq<TrackedTransaction>)
    requires
        order_is_exact(view),
    ensures
        order_is_exact(view.noted_all(list)),
    decreases list.len(),
{
    if list.len() > 0 {
        lemma_noted_all_keeps_order(view, list.drop_last());
        lemma_noted_keeps_order(view.noted_all(list.drop_last()), list.last());
    }
}

/// Each transaction that the scanner has told of is listed exactly once, and
/// no other: it holds at the start, and every event keeps it.
pub proof fn law_listed_once(view: ScannerView, event: ScanEvent)
    requires
        order_is_exact(view),
    ensures
        order_is_exact(ScannerView::begun()),
        order_is_exact(view.after(event)),
{
    match event {
        ScanEvent::TransactionsReady { transactions } => {
            lemma_noted_all_keeps_order(view, transactions@);
        },
        ScanEvent::TransactionsUpdated { updated_transactions } => {
            lemma_noted_all_keeps_order(view, updated_transactions@);
        },
        _ => {},
    }
}

/// Whether an event says that the scanner is at the tip, or that it is not.
pub open spec fn tip_told(event: ScanEvent) -> Option<bool> {
    match event {
        ScanEvent::Completed { .. } | ScanEvent::Waiting => Some(true),
        ScanEvent::Started { .. } | ScanEvent::MoreBlocksAvailable { .. }
        | ScanEvent::ReorgDetected { .. } => Some(false),
        _ => None,
    }
}

/// The height up to which an event says that the chain was scanned.
pub open spec fn height_told(event: ScanEvent) -> Option<u64> {
    match event {
        ScanEvent::Completed { final_height } => Some(final_height),
        ScanEvent::MoreBlocksAvailable { last_scanned_height } => Some(last_scanned_height),
        _ => None,
    }
}

/// The transactions that an event tells of.
pub open spec fn reports_in(event: ScanEvent) -> Seq<TrackedTransaction> {
    match event {
        ScanEvent::TransactionsReady { transactions } => transactions@,
        ScanEvent::TransactionsUpdated { updated_transactions } => updated_transactions@,
        _ => Seq::empty(),
    }
}

/// The transactions that a stream of events tells of, in order.
pub open spec fn reports_of(events: Seq<ScanEvent>) -> Seq<TrackedTransaction>
    decreases events.len(),
{
    if events.len() == 0 {
        Seq::empty()
    } else {
        reports_of(events.drop_last()) + reports_in(events.last())
    }
}

/// The report at place `k` is the last one of its transaction.
pub open spec fn is_last_report(reports: Seq<TrackedTransaction>, k: int) -> bool {
    &&& 0 <= k < reports.len()
    &&& forall|j: int| k < j < reports.len() ==> (#[trigger] reports[j]).id@ != reports[k].id@
}

/// What is known of transactions once a list of reports has come in.
spec fn reported(
    known: Map<Seq<char>, TrackedView>,
    reports: Seq<TrackedTransaction>,
) -> Map<Seq<char>, TrackedView>
    decreases reports.len(),
{
    if reports.len() == 0 {
        known
    } else {
        reported(known, reports.drop_last()).insert(reports.last().id@, reports.last().known())
    }
}

proof fn lemma_reported_in_turn(
    known: Map<Seq<char>, TrackedView>,
    a: Seq<TrackedTransaction>,
    b: Seq<TrackedTransaction>,
)
    ensures
        reported(known, a + b) == reported(reported(known, a), b),
    decreases b.len(),
{
    if b.len() == 0 {
        assert(a + b =~= a);
    } else {
        lemma_reported_in_turn(known, a, b.drop_last());
        assert((a + b).drop_last() =~= a + b.drop_last());
    }
}

proof fn lemma_noted_all_reports(view: ScannerView, list: Seq<TrackedTransaction>)
    ensures
        view.noted_all(list).transactions == reported(view.transactions, list),
        view.noted_all(list).at_tip == view.at_tip,
        view.noted_all(list).last_scanned_height == view.last_scanned_height,
    decreases list.len(),
{
    if list.len() > 0 {
        lemma_noted_all_reports(view, list.drop_last());
    }
}

proof fn lemma_stream_reports(view: ScannerView, events: Seq<ScanEvent>)
    ensures
        view.after_all(events).transactions == reported(view.transactions, reports_of(events)),
    decreases events.len(),
{
    if events.len() > 0 {
        let before = view.after_all(events.drop_last());
        lemma_stream_reports(view, events.drop_last());
        lemma_noted_all_reports(before, reports_in(events.last()));
        lemma_reported_in_turn(
            view.transactions,
            reports_of(events.drop_last()),
            reports_in(events.last()),
        );
    }
}

proof fn lemma_last_report_stays(
    known: Map<Seq<char>, TrackedView>,
    reports: Seq<TrackedTransaction>,
    k: int,
)
    requires
        is_last_report(reports, k),
    ensures
        reported(known, reports).dom().contains(reports[k].id@),
        reported(known, reports)[reports[k].id@] == reports[k].known(),
    decreases reports.len(),
{
    let rest = reports.drop_last();
    if k < rest.len() {
        assert(reports[reports.len() - 1].id@ != reports[k].id@);
        assert forall|j: int| k < j < rest.len() implies (#[trigger] rest[j]).id@
            != rest[k].id@ by {
            assert(reports[j].id@ != reports[k].id@);
        }
        lemma_last_report_stays(known, rest, k);
    }
}

proof fn lemma_unreported_stays(
    known: Map<Seq<char>, TrackedView>,
    reports: Seq<TrackedTransaction>,
    id: Seq<char>,
)
    ensures
        known.dom().contains(id) ==> reported(known, reports).dom().contains(id),
        (forall|j: int| 0 <= j < reports.len() ==> (#[trigger] reports[j]).id@ != id) ==> reported(
            known,
            reports,
        ).dom().contains(id) == known.dom().contains(id) && reported(known, reports)[id]
            == known[id],
    decreases reports.len(),
{
    if reports.len() > 0 {
        let rest = reports.drop_last();
        lemma_unreported_stays(known, rest, id);
        if forall|j: int| 0 <= j < reports.len() ==> (#[trigger] reports[j]).id@ != id {
            assert(reports[reports.len() - 1].id@ != id);
            assert forall|j: int| 0 <= j < rest.len() implies (#[trigger] rest[j]).id@ != id by {
                assert(reports[j].id@ != id);
            }
        }
    }
}

/// Over a whole stream of events, the last one that says whether the scanner
/// is at the tip decides, and the last one that says how far it scanned; where
/// none says so, what was known stays. Every transaction that was told of is
/// known by its last report; one that was not told of stays as it was, and none
/// is forgotten.
pub proof fn law_last_word_counts(
    view: ScannerView,
    events: Seq<ScanEvent>,
    tip: int,
    height: int,
    report: int,
    id: Seq<char>,
)
    ensures
        0 <= tip < events.len() && tip_told(events[tip]) is Some && (forall|j: int|
            tip < j < events.len() ==> tip_told(#[trigger] events[j]) is None)
            ==> view.after_all(events).at_tip == tip_told(events[tip])->Some_0,
        (forall|j: int| 0 <= j < events.len() ==> tip_told(#[trigger] events[j]) is None)
            ==> view.after_all(events).at_tip == view.at_tip,
        0 <= height < events.len() && height_told(events[height]) is Some && (forall|j: int|
            height < j < events.len() ==> height_told(#[trigger] events[j]) is None)
            ==> view.after_all(events).last_scanned_height == height_told(events[height])->Some_0,
        (forall|j: int| 0 <= j < events.len() ==> height_told(#[trigger] events[j]) is None)
            ==> view.after_all(events).last_scanned_height == view.last_scanned_height,
        is_last_report(reports_of(events), report) ==> view.after_all(
            events,
        ).transactions.dom().contains(reports_of(events)[report].id@) && view.after_all(
            events,
        ).transactions[reports_of(events)[report].id@] == reports_of(events)[report].known(),
        view.transactions.dom().contains(id) ==> view.after_all(events).transactions.dom().contains(
            id,
        ),
        (forall|j: int|
            0 <= j < reports_of(events).len() ==> (#[trigger] reports_of(events)[j]).id@ != id)
            ==> view.after_all(events).transactions.dom().contains(id)
            == view.transactions.dom().contains(id) && view.after_all(events).transactions[id]
            == view.transactions[id],
{
    lemma_last_tip_and_height(view, events, tip, height);
    lemma_stream_reports(view, events);
    if is_last_report(reports_of(events), report) {
        lemma_last_report_stays(view.transactions, reports_of(events), report);
    }
    lemma_unreported_stays(view.transactions, reports_of(events), id);
}

proof fn lemma_last_tip_and_height(
    view: ScannerView,
    events: Seq<ScanEvent>,
    tip: int,
    height: int,
)
    ensures
        0 <= tip < events.len() && tip_told(events[tip]) is Some && (forall|j: int|
            tip < j < events.len() ==> tip_told(#[trigger] events[j]) is None)
            ==> view.after_all(events).at_tip == tip_told(events[tip])->Some_0,
        (forall|j: int| 0 <= j < events.len() ==> tip_told(#[trigger] events[j]) is None)
            ==> view.after_all(events).at_tip == view.at_tip,
        0 <= height < events.len() && height_told(events[height]) is Some && (forall|j: int|
            height < j < events.len() ==> height_told(#[trigger] events[j]) is None)
            ==> view.after_all(events).last_scanned_height == height_told(events[height])->Some_0,
        (forall|j: int| 0 <= j < events.len() ==> height_told(#[trigger] events[j]) is None)
            ==> view.after_all(events).last_scanned_height == view.last_scanned_height,
    decreases events.len(),
{
    if events.len() > 0 {
        let rest = events.drop_last();
        let last = events.len() - 1;
        lemma_last_tip_and_height(view, rest, tip, height);
        lemma_noted_all_reports(view.after_all(rest), reports_in(events.last()));
        assert(forall|j: int| 0 <= j < rest.len() ==> rest[j] == #[trigger] events[j]);
        assert(events[last] == events.last());
        if tip < last && forall|j: int|
            tip < j < events.len() ==> tip_told(#[trigger] events[j]) is None {
            assert(tip_told(events[last]) is None);
        }
        if height < last && forall|j: int|
            height < j < events.len() ==> height_told(#[trigger] events[j]) is None {
            assert(height_told(events[last]) is None);
        }
    }
}

// ---------------------------------------------------------------------------
// Supervision and synchronisation
// ---------------------------------------------------------------------------

/// How a scanner ended.
#[derive(Clone, Copy, Debug, PartialEq, Eq, Structural)]
pub enum ScanExit {
    Clean,
    Failed,
    Panicked,
}

/// What to do when a scanner has ended.
#[derive(Clone, Copy, Debug, PartialEq, Eq, Structural)]
pub enum Supervise {
    /// It was told to end.
    Stop,
    /// Start it again after so many seconds.
    Restart { after_secs: u64, leave_tip: bool },
}

/// Decides what to do when a scanner has ended. One that failed or panicked is
/// no longer known to be at the tip.
pub fn supervise(exit: ScanExit, cancelled: bool) -> (r: Supervise)
    ensures
        r == (if cancelled && exit != ScanExit::Panicked {
            Supervise::Stop
        } else {
            Supervise::Restart {
                after_secs: SCANNER_RESTART_SECS,
                leave_tip: exit != ScanExit::Clean,
            }
        }),
{
    match exit {
        ScanExit::Clean => if cancelled {
            Supervise::Stop
        } else {
            Supervise::Restart { after_secs: SCANNER_RESTART_SECS, leave_tip: false }
        },
        ScanExit::Failed => if cancelled {
            Supervise::Stop
        } else {
            Supervise::Restart { after_secs: SCANNER_RESTART_SECS, leave_tip: true }
        },
        ScanExit::Panicked => Supervise::Restart {
            after_secs: SCANNER_RESTART_SECS,
            leave_tip: true,
        },
    }
}

/// What woke up a wait for the tip.
#[derive(Clone, Copy, Debug, PartialEq, Eq, Structural)]
pub enum SyncWake {
    /// The wait begins.
    Entered,
    /// The scanner told that it is at the tip.
    Notified,
    /// The time that was left has passed.
    Slept,
}

/// What a wait for the tip does next.
#[derive(Clone, Copy, Debug, PartialEq, Eq, Structural)]
pub enum SyncStep {
    /// The scanner is at the tip.
    Done,
    /// The time is up.
    TimedOut,
    /// Wait to be notified, at most so long.
    Wait { remaining_ns: u128 },
}

/// Decides how to go on with a wait for the tip.
pub fn sync_step(wake: SyncWake, at_tip: bool, elapsed_ns: u128) -> (r: SyncStep)
    ensures
        r == (if wake == SyncWake::Slept {
            SyncStep::TimedOut
        } else if at_tip {
            SyncStep::Done
        } else if elapsed_ns > secs_ns(SYNC_TIMEOUT_SECS) {
            SyncStep::TimedOut
        } else {
            SyncStep::Wait { remaining_ns: (secs_ns(SYNC_TIMEOUT_SECS) - elapsed_ns) as u128 }
        }),
{
    if wake == SyncWake::Slept {
        return SyncStep::TimedOut;
    }
    if at_tip {
        return SyncStep::Done;
    }
    if is_over(elapsed_ns, SYNC_TIMEOUT_SECS) {
        SyncStep::TimedOut
    } else {
        let timeout_ns: u128 = SYNC_TIMEOUT_SECS as u128 * 1_000_000_000;
        SyncStep::Wait { remaining_ns: timeout_ns - elapsed_ns }
    }
}

/// What is said where the time is up.
pub fn sync_timeout_error() -> (r: String)
    ensures
        r@ == "Timed out waiting for scanner to reach tip"@,
{
    "Timed out waiting for scanner to reach tip".to_owned()
}

/// Whether outputs stuck in completed transactions are to be unlocked, given
/// how many there are.
pub fn needs_unlock(count: i64) -> (r: bool)
    ensures
        r == (count > 0),
{
    count > 0
}

// ---------------------------------------------------------------------------
// Sending
// ---------------------------------------------------------------------------

/// A send to be prepared.
#[derive(Debug)]
pub struct SendRequest {
    pub recipients: Vec<Recipient>,
    /// Tells a batch send, of however many recipients, from a single send.
    pub batched: bool,
    pub idempotency_key: String,
    pub lock_secs: u64,
}

/// The refusal of the first recipient whose address is not in order.
pub open spec fn first_address_error(s: Seq<RecipientView>) -> Option<Seq<char>>
    decreases s.len(),
{
    if s.len() == 0 {
        None
    } else {
        match address_error(s[0].address) {
            Some(t) => Some("Invalid recipient address: "@ + t),
            None => first_address_error(s.skip(1)),
        }
    }
}

/// A request to send, under a key of its own, unless a recipient was refused.
pub fn settle_request(
    recipients: Vec<Recipient>,
    batched: bool,
    refusal: Option<String>,
    idempotency_key: String,
) -> (r: Result<SendRequest, String>)
    ensures
        match refusal {
            None => r matches Ok(q) && q.recipients@ == recipients@ && q.batched == batched
                && q.lock_secs == SECONDS_TO_LOCK_UTXO && q.idempotency_key@ == idempotency_key@,
            Some(t) => r matches Err(e) && e@ == t@,
        },
{
    match refusal {
        None => Ok(
            SendRequest { recipients, batched, idempotency_key, lock_secs: SECONDS_TO_LOCK_UTXO },
        ),
        Some(t) => Err(t),
    }
}

/// The refusal of the first recipient whose address is not in order, if any.
fn refusal_of(recipients: &Vec<Recipient>) -> (r: Option<String>)
    ensures
        opt_view(r) == first_address_error(recipient_views(recipients@)),
{
    let ghost views = recipient_views(recipients@);
    let mut i: usize = 0;
    assert(views.skip(0) =~= views);
    while i < recipients.len()
        invariant
            i <= recipients.len(),
            views == recipient_views(recipients@),
            first_address_error(views) == first_address_error(views.skip(i as int)),
        decreases recipients.len() - i,
    {
        assert(views.skip(i as int)[0] == recipients@[i as int]@);
        assert(views.skip(i as int).skip(1) =~= views.skip(i + 1));
        if let Err(e) = check_address(
            "Invalid recipient address: ",
            recipients[i].address.as_str(),
        ) {
            return Some(e);
        }
        i = i + 1;
    }
    assert(views.skip(i as int) =~= Seq::empty());
    None
}

/// Starts a batch send: checks the recipients, and gives the request a key of
/// its own. Which key it is rests on chance.
pub fn begin_batch(recipients: Vec<Recipient>) -> (r: Result<SendRequest, String>)
    ensures
        match first_address_error(recipient_views(recipients@)) {
            None => r matches Ok(q) && q.recipients@ == recipients@ && q.batched && q.lock_secs
                == SECONDS_TO_LOCK_UTXO && uuid_form(q.idempotency_key@),
            Some(t) => r matches Err(e) && e@ == t,
        },
{
    let refusal = refusal_of(&recipients);
    settle_request(recipients, true, refusal, new_request_key())
}

/// Starts a send to a single recipient.
pub fn begin_send(recipient: &str, amount: u64) -> (r: Result<SendRequest, String>)
    ensures
        match address_error(recipient@) {
            None => r matches Ok(q) && recipient_views(q.recipients@) == seq![
                RecipientView { address: recipient@, amount },
            ] && !q.batched && q.lock_secs == SECONDS_TO_LOCK_UTXO && uuid_form(q.idempotency_key@),
            Some(t) => r matches Err(e) && e@ == "Invalid recipient address: "@ + t,
        },
{
    let mut recipients: Vec<Recipient> = Vec::new();
    recipients.push(Recipient { address: recipient.to_owned(), amount });
    proof {
        let views = recipient_views(recipients@);
        assert(views =~= seq![RecipientView { address: recipient@, amount }]);
        assert(views.skip(1) =~= Seq::empty());
        assert(first_address_error(views.skip(1)) is None);
    }
    let refusal = refusal_of(&recipients);
    settle_request(recipients, false, refusal, new_request_key())
}

/// How far a send came.
pub enum SendOutcome {
    /// No transaction could be built.
    PrepareFailed { cause: Seq<char> },
    /// The transaction could not be signed.
    SignFailed { cause: Seq<char>, fee: u64 },
    /// The transaction could not be broadcast.
    BroadcastFailed { tx_id: Seq<char>, cause: Seq<char>, fee: u64 },
    /// The transaction was broadcast.
    Broadcast { tx_id: Seq<char>, fee: u64 },
}

/// What a send comes to.
pub open spec fn outcome_view(outcome: SendOutcome) -> SendResultView {
    match outcome {
        SendOutcome::PrepareFailed { cause } => SendResultView {
            tx_id: Seq::empty(),
            accepted: false,
            error: Some("Prepare failed: "@ + cause),
            fee: None,
        },
        SendOutcome::SignFailed { cause, fee } => SendResultView {
            tx_id: Seq::empty(),
            accepted: false,
            error: Some("Sign failed: "@ + cause),
            fee: Some(fee),
        },
        SendOutcome::BroadcastFailed { tx_id, cause, fee } => SendResultView {
            tx_id,
            accepted: false,
            error: Some("Broadcast failed: "@ + cause),
            fee: Some(fee),
        },
        SendOutcome::Broadcast { tx_id, fee } => SendResultView {
            tx_id,
            accepted: true,
            error: None,
            fee: Some(fee),
        },
    }
}

/// A send is accepted exactly where it was broadcast; it has an error exactly
/// where it is not accepted; and from its preparation on its fee is told.
pub proof fn law_send_outcomes(outcome: SendOutcome)
    ensures
        outcome_view(outcome).accepted <==> outcome is Broadcast,
        outcome_view(outcome).error is None <==> outcome_view(outcome).accepted,
        outcome_view(outcome).fee is None <==> outcome is PrepareFailed,
{
}

/// What a send comes to that could not be prepared.
pub fn prepare_failed(cause: &str) -> (r: SendResult)
    ensures
        r@ == outcome_view(SendOutcome::PrepareFailed { cause: cause@ }),
{
    SendResult {
        tx_id: String::new(),
        accepted: false,
        error: Some(concat("Prepare failed: ", cause)),
        fee: None,
    }
}

/// What a send comes to that could not be signed.
pub fn sign_failed(cause: &str, fee: u64) -> (r: SendResult)
    ensures
        r@ == outcome_view(SendOutcome::SignFailed { cause: cause@, fee }),
{
    SendResult {
        tx_id: String::new(),
        accepted: false,
        error: Some(concat("Sign failed: ", cause)),
        fee: Some(fee),
    }
}

/// What a send comes to that was handed to the base node.
pub fn settle_broadcast(tx_id: String, fee: u64, outcome: Result<(), String>) -> (r: SendResult)
    ensures
        r@ == outcome_view(
            match outcome {
                Ok(_) => SendOutcome::Broadcast { tx_id: tx_id@, fee },
                Err(cause) => SendOutcome::BroadcastFailed { tx_id: tx_id@, cause: cause@, fee },
            },
        ),
{
    match outcome {
        Ok(()) => SendResult { tx_id, accepted: true, error: None, fee: Some(fee) },
        Err(cause) => SendResult {
            tx_id,
            accepted: false,
            error: Some(concat("Broadcast failed: ", cause.as_str())),
            fee: Some(fee),
        },
    }
}

/// Goes on after an attempt to sign: with the signed transaction, or with what
/// the send comes to.
pub fn settle_sign(outcome: Result<SignedOneSidedTransactionResult, String>, fee: u64) -> (r: Result<
    SignedOneSidedTransactionResult,
    SendResult,
>)
    ensures
        match outcome {
            Ok(signed) => r == Ok::<SignedOneSidedTransactionResult, SendResult>(signed),
            Err(cause) => r matches Err(s) && s@ == outcome_view(
                SendOutcome::SignFailed { cause: cause@, fee },
            ),
        },
{
    match outcome {
        Ok(signed) => Ok(signed),
        Err(cause) => Err(sign_failed(cause.as_str(), fee)),
    }
}

/// Signs a prepared transaction with the keys of the seed words. Seed words
/// that are none end the send with an error. What comes of it, or the cause of
/// the failure, is one that signing gives for the keys of the seed words, the
/// network and the prepared transaction; it is not the only one, as signatures
/// are made with random nonces.
pub fn sign_send(
    seed_words: &Vec<String>,
    network: Network,
    prepared: PrepareOneSidedTransactionForSigningResult,
    fee: u64,
) -> (r: Result<Result<SignedOneSidedTransactionResult, SendResult>, String>)
    ensures
        match seed_of_phrase(joined(texts(seed_words@), " "@)) {
            Ok(_) => match r {
                Ok(Ok(signed)) => signing_gives(
                    keys_of_phrase(joined(texts(seed_words@), " "@)),
                    network,
                    prepared,
                    Ok(signed),
                ),
                Ok(Err(s)) => exists|cause: Seq<char>|
                    s@ == #[trigger] outcome_view(SendOutcome::SignFailed { cause, fee })
                        && signing_gives(
                        keys_of_phrase(joined(texts(seed_words@), " "@)),
                        network,
                        prepared,
                        Err(cause),
                    ),
                Err(_) => false,
            },
            Err(t) => r matches Err(e) && e@ == "Failed to derive seed: "@ + t,
        },
{
    match derive_key_manager(seed_words) {
        Ok(manager) => {
            let outcome = sign_prepared(&manager, network, prepared);
            Ok(settle_sign(outcome, fee))
        },
        Err(e) => Err(e),
    }
}

/// The balance in the wallet's terms. Nothing is known of what goes out.
pub fn account_balance(available: u64, unconfirmed: u64, locked: u64) -> (r: WalletBalance)
    ensures
        r == (WalletBalance {
            available,
            pending_incoming: unconfirmed,
            pending_outgoing: 0,
            locked,
        }),
{
    WalletBalance { available, pending_incoming: unconfirmed, pending_outgoing: 0, locked }
}

/// What is said where the wallet has no such account.
pub fn account_error(account_name: &str) -> (r: String)
    ensures
        r@ == "Account '"@ + account_name@ + "' not found"@,
{
    let mut text = concat("Account '", account_name);
    text.append("' not found");
    text
}

// ---------------------------------------------------------------------------
// Splitting
// ---------------------------------------------------------------------------

/// What a split does next.
#[derive(Clone, Copy, Debug, PartialEq, Eq, Structural)]
pub enum CoinSplitAction {
    /// Send `amount` to self.
    Send { amount: u64 },
    /// Wait until the change of the last send can be spent.
    AwaitChange { needed: u64 },
    /// The split is over; it came to what the last send came to.
    Finish,
}

/// What a wait for change does next.
#[derive(Clone, Copy, Debug, PartialEq, Eq, Structural)]
pub enum ChangeStep {
    /// There is enough for the next send.
    Enough,
    /// The time is up; the next send is tried all the same.
    TimedOut,
    /// Look again after so many seconds.
    Wait { secs: u64 },
}

/// A split by sends to self under way.
#[derive(Clone, Copy, Debug, PartialEq, Eq, Structural)]
pub struct CoinSplit {
    pub amount_per_split: u64,
    pub count: u64,
    /// Sends that were accepted.
    pub sent: u64,
    pub awaiting: bool,
    /// A send was not accepted.
    pub refused: bool,
}

impl CoinSplit {
    /// No more was sent than asked for, and what a send needs can be computed.
    pub open spec fn wf(self) -> bool {
        &&& self.sent <= self.count
        &&& self.awaiting ==> 0 < self.sent < self.count
        &&& self.count > 1 ==> self.amount_per_split + SPLIT_FEE_HEADROOM <= u64::MAX
    }

    /// What is to be done now.
    pub open spec fn action(self) -> CoinSplitAction {
        if self.refused || self.sent == self.count {
            CoinSplitAction::Finish
        } else if self.awaiting {
            CoinSplitAction::AwaitChange {
                needed: (self.amount_per_split + SPLIT_FEE_HEADROOM) as u64,
            }
        } else {
            CoinSplitAction::Send { amount: self.amount_per_split }
        }
    }

    /// The split after a send.
    pub open spec fn after_send(self, accepted: bool) -> CoinSplit {
        if accepted {
            CoinSplit {
                sent: (self.sent + 1) as u64,
                awaiting: self.sent + 1 < self.count,
                ..self
            }
        } else {
            CoinSplit { refused: true, ..self }
        }
    }

    /// The split after a wait for change.
    pub open spec fn after_change(self) -> CoinSplit {
        CoinSplit { awaiting: false, ..self }
    }

    /// A split that is about to begin.
    pub open spec fn begun(amount_per_split: u64, count: u64) -> CoinSplit {
        CoinSplit { amount_per_split, count, sent: 0, awaiting: false, refused: false }
    }

    /// Starts a split into `count` outputs.
    pub fn new(amount_per_split: u64, count: u64) -> (r: Self)
        requires
            count > 1 ==> amount_per_split + SPLIT_FEE_HEADROOM <= u64::MAX,
        ensures
            r == CoinSplit::begun(amount_per_split, count),
            r.wf(),
    {
        CoinSplit { amount_per_split, count, sent: 0, awaiting: false, refused: false }
    }

    /// What a split comes to in which nothing was sent.
    pub fn nothing_sent() -> (r: SendResult)
        ensures
            r@ == (SendResultView {
                tx_id: Seq::empty(),
                accepted: false,
                error: Some("No splits performed"@),
                fee: None,
            }),
    {
        SendResult {
            tx_id: String::new(),
            accepted: false,
            error: Some("No splits performed".to_owned()),
            fee: None,
        }
    }

    /// Decides what to do now.
    pub fn next(&self) -> (r: CoinSplitAction)
        requires
            self.wf(),
        ensures
            r == self.action(),
    {
        if self.refused || self.sent == self.count {
            CoinSplitAction::Finish
        } else if self.awaiting {
            CoinSplitAction::AwaitChange { needed: self.amount_per_split + SPLIT_FEE_HEADROOM }
        } else {
            CoinSplitAction::Send { amount: self.amount_per_split }
        }
    }

    /// Takes note of a send.
    pub fn settle_send(&mut self, accepted: bool)
        requires
            old(self).wf(),
            old(self).action() is Send,
        ensures
            final(self).wf(),
            *final(self) == old(self).after_send(accepted),
    {
        if accepted {
            self.sent = self.sent + 1;
            self.awaiting = self.sent < self.count;
        } else {
            self.refused = true;
        }
    }

    /// Takes note that the wait for change is over.
    pub fn settle_change(&mut self)
        requires
            old(self).wf(),
        ensures
            final(self).wf(),
            *final(self) == old(self).after_change(),
    {
        self.awaiting = false;
    }

    /// Decides how to go on with a wait for change.
    pub fn change_step(available: u64, needed: u64, elapsed_ns: u128) -> (r: ChangeStep)
        ensures
            r == (if available >= needed {
                ChangeStep::Enough
            } else if elapsed_ns > secs_ns(CHANGE_TIMEOUT_SECS) {
                ChangeStep::TimedOut
            } else {
                ChangeStep::Wait { secs: BALANCE_POLL_SECS }
            }),
    {
        if available >= needed {
            ChangeStep::Enough
        } else if is_over(elapsed_ns, CHANGE_TIMEOUT_SECS) {
            ChangeStep::TimedOut
        } else {
            ChangeStep::Wait { secs: BALANCE_POLL_SECS }
        }
    }
}

/// The split after `n` accepted sends and the waits between them.
pub open spec fn split_after(split: CoinSplit, n: nat) -> CoinSplit
    decreases n,
{
    if n == 0 {
        split
    } else {
        split_after(split, (n - 1) as nat).after_send(true).after_change()
    }
}

/// A split whose sends are all accepted sends exactly as often as asked for,
/// and waits for change between two sends but not after the last.
pub proof fn law_split_sends_count(amount: u64, count: u64, n: nat)
    requires
        n <= count,
    ensures
        split_after(CoinSplit::begun(amount, count), n).sent == n,
        split_after(CoinSplit::begun(amount, count), n).action() is Finish <==> n == count,
        n < count ==> {
            let next = split_after(CoinSplit::begun(amount, count), n).after_send(true);
            next.action() is AwaitChange <==> n + 1 < count
        },
    decreases n,
{
    if n > 0 {
        law_split_sends_count(amount, count, (n - 1) as nat);
    }
    lemma_split_shape(amount, count, n);
}

proof fn lemma_split_shape(amount: u64, count: u64, n: nat)
    requires
        n <= count,
    ensures
        split_after(CoinSplit::begun(amount, count), n) == (CoinSplit {
            sent: n as u64,
            ..CoinSplit::begun(amount, count)
        }),
    decreases n,
{
    if n > 0 {
        lemma_split_shape(amount, count, (n - 1) as nat);
    }
}

/// Starts a wait for a stable balance, at most `timeout_secs`.
pub fn wait_for_balance_stable(timeout_secs: u64, first: WalletBalance, elapsed_ns: u128) -> (r:
    BalanceWatch)
    ensures
        r == (BalanceWatch {
            poll_secs: BALANCE_POLL_SECS,
            stable_secs: STABLE_SECS,
            timeout_secs,
            last_balance: first,
            last_change_ns: elapsed_ns,
        }),
{
    BalanceWatch::new(BALANCE_POLL_SECS, STABLE_SECS, timeout_secs, first, elapsed_ns)
}

// ---------------------------------------------------------------------------
// What the driver's decisions amount to
// ---------------------------------------------------------------------------

/// The scanner is at the tip from when it completes a scan, or waits for
/// blocks, until it starts again, finds more blocks or a reorganisation. Those
/// who wait are woken exactly when it gets there. The height scanned is the one
/// that a scan tells when it completes or goes on. What it says of transactions
/// changes neither.
pub proof fn law_scanner_knows_whether_it_is_at_the_tip(
    state: &mut ScannerState,
    event: ScanEvent,
    progress: &mut ScanProgress,
    r: EventEffect,
    was_at_tip: bool,
    at_tip: bool,
    height_before: u64,
    height: u64,
)
    requires
        old(state).wf(),
        call_ensures(ScannerState::process_event, (state, &event, progress), r),
        call_ensures(ScannerState::is_at_tip, (&*old(state),), was_at_tip),
        call_ensures(ScannerState::is_at_tip, (&*final(state),), at_tip),
        call_ensures(ScannerState::scanned_height, (&*old(state),), height_before),
        call_ensures(ScannerState::scanned_height, (&*final(state),), height),
    ensures
        event is Completed || event is Waiting ==> at_tip && r.notify_tip,
        !(event is Completed || event is Waiting) ==> !r.notify_tip,
        event is Started || event is MoreBlocksAvailable || event is ReorgDetected ==> !at_tip,
        event is Progress || event is Paused || event is TransactionsReady
            || event is TransactionsUpdated || event is Other ==> at_tip == was_at_tip,
        event matches ScanEvent::Completed { final_height } ==> height == final_height,
        event matches ScanEvent::MoreBlocksAvailable { last_scanned_height } ==> height
            == last_scanned_height,
        !(event is Completed || event is MoreBlocksAvailable) ==> height == height_before,
{
    match event {
        ScanEvent::TransactionsReady { transactions } => {
            lemma_noted_all_reports(old(state)@, transactions@);
        },
        ScanEvent::TransactionsUpdated { updated_transactions } => {
            lemma_noted_all_reports(old(state)@, updated_transactions@);
        },
        _ => {},
    }
}

/// What the scanner says of a transaction last is what is told of it: after a
/// list of reports each transaction in it stands as its last report says.
pub proof fn law_transaction_stands_as_last_reported(
    state: &mut ScannerState,
    event: ScanEvent,
    reports: Vec<TrackedTransaction>,
    progress: &mut ScanProgress,
    r: EventEffect,
    tx_id: &str,
    after: TransactionStatus,
    k: int,
)
    requires
        event == (ScanEvent::TransactionsReady { transactions: reports }) || event == (
        ScanEvent::TransactionsUpdated { updated_transactions: reports }),
        call_ensures(ScannerState::process_event, (state, &event, progress), r),
        call_ensures(ScannerState::get_transaction_status, (&*final(state), tx_id), after),
        0 <= k < reports.len(),
        reports@[k].id@ == tx_id@,
        forall|j: int| k < j < reports.len() ==> (#[trigger] reports@[j]).id@ != tx_id@,
    ensures
        after.tx_id@ == tx_id@,
        after.status@ == reports@[k].status@,
        after.mined_height == Some(reports@[k].mined_height),
        after.confirmations == Some(reports@[k].confirmations),
{
    let known = old(state)@.transactions;
    lemma_noted_all_reports(old(state)@, reports@);
    assert(is_last_report(reports@, k));
    lemma_last_report_stays(known, reports@, k);
    assert(final(state)@.transactions == reported(known, reports@));
}

/// What the scanner says changes nothing about a transaction that it does not
/// speak of.
pub proof fn law_other_transactions_stand_as_before(
    state: &mut ScannerState,
    event: ScanEvent,
    progress: &mut ScanProgress,
    r: EventEffect,
    tx_id: &str,
    before: TransactionStatus,
    after: TransactionStatus,
)
    requires
        call_ensures(ScannerState::process_event, (state, &event, progress), r),
        call_ensures(ScannerState::get_transaction_status, (&*old(state), tx_id), before),
        call_ensures(ScannerState::get_transaction_status, (&*final(state), tx_id), after),
        event matches ScanEvent::TransactionsReady { transactions } ==> forall|j: int|
            0 <= j < transactions.len() ==> (#[trigger] transactions@[j]).id@ != tx_id@,
        event matches ScanEvent::TransactionsUpdated { updated_transactions } ==> forall|j: int|
            0 <= j < updated_transactions.len() ==> (#[trigger] updated_transactions@[j]).id@
                != tx_id@,
    ensures
        after.tx_id@ == before.tx_id@,
        after.status@ == before.status@,
        after.mined_height == before.mined_height,
        after.confirmations == before.confirmations,
{
    let known = old(state)@.transactions;
    match event {
        ScanEvent::TransactionsReady { transactions } => {
            lemma_noted_all_reports(old(state)@, transactions@);
            lemma_unreported_stays(known, transactions@, tx_id@);
        },
        ScanEvent::TransactionsUpdated { updated_transactions } => {
            lemma_noted_all_reports(old(state)@, updated_transactions@);
            lemma_unreported_stays(known, updated_transactions@, tx_id@);
        },
        _ => {},
    }
    assert(after@ == before@);
    assert(after@.status == after.status@ && before@.status == before.status@);
}

/// A scanner that has told of nothing knows no transaction and is not at the
/// tip; a transaction that it does not know is told to be unknown.
pub proof fn law_new_scanner_knows_nothing(
    state: ScannerState,
    at_tip: bool,
    height: u64,
    tx_id: &str,
    status: TransactionStatus,
    list: Vec<TransactionStatus>,
)
    requires
        call_ensures(ScannerState::new, (), state),
        call_ensures(ScannerState::is_at_tip, (&state,), at_tip),
        call_ensures(ScannerState::scanned_height, (&state,), height),
        call_ensures(ScannerState::get_transaction_status, (&state, tx_id), status),
        call_ensures(ScannerState::get_completed_transactions, (&state,), list),
    ensures
        !at_tip,
        height == 0,
        status.tx_id@ == tx_id@,
        status.status@ == "unknown"@,
        status.mined_height is None,
        status.confirmations is None,
        list.len() == 0,
{
}

/// The list of transactions holds each one that is known exactly once, as it is
/// told when it is asked for by itself.
pub proof fn law_list_agrees_with_each_status(
    state: ScannerState,
    list: Vec<TransactionStatus>,
    i: int,
    j: int,
    tx_id: &str,
    status: TransactionStatus,
)
    requires
        state.wf(),
        call_ensures(ScannerState::get_completed_transactions, (&state,), list),
        call_ensures(ScannerState::get_transaction_status, (&state, tx_id), status),
        0 <= i < list.len(),
        0 <= j < list.len(),
    ensures
        i != j ==> list@[i].tx_id@ != list@[j].tx_id@,
        list@[i].tx_id@ == tx_id@ ==> {
            &&& status.status@ == list@[i].status@
            &&& status.mined_height == list@[i].mined_height
            &&& status.confirmations == list@[i].confirmations
            &&& status.mined_height is Some
        },
        status.mined_height is Some ==> exists|k: int|
            0 <= k < list.len() && (#[trigger] list@[k]).tx_id@ == tx_id@,
{
    let kept = state.transactions@;
    assert(state@.order.len() == kept.len());
    assert(list@[i]@ == tracked_status(state@.order[i], state@.transactions[state@.order[i]]));
    assert(list@[j]@ == tracked_status(state@.order[j], state@.transactions[state@.order[j]]));
    assert(state@.order[i] == kept[i].id@);
    assert(state@.order[j] == kept[j].id@);
    if i < j {
        assert(kept[i].id@ != kept[j].id@);
    } else if j < i {
        assert(kept[j].id@ != kept[i].id@);
    }
    lemma_as_map_index(kept, i);
    lemma_as_map_dom(kept, tx_id@);
    if status.mined_height is Some {
        let k = choose|k: int| 0 <= k < kept.len() && (#[trigger] kept[k]).id@ == tx_id@;
        assert(list@[k]@ == tracked_status(state@.order[k], state@.transactions[state@.order[k]]));
        assert(list@[k].tx_id@ == tx_id@);
    }
}

/// Progress is told when a scan has come 1,000 heights further than it was told
/// last, or began; nothing else is.
pub proof fn law_progress_is_told_every_thousand_heights(
    state: &mut ScannerState,
    event: ScanEvent,
    progress: &mut ScanProgress,
    r: EventEffect,
)
    requires
        call_ensures(ScannerState::process_event, (state, &event, progress), r),
    ensures
        ({
            let before = old(progress).last_logged_height;
            let after = final(progress).last_logged_height;
            &&& event matches ScanEvent::Started { from_height } ==> after == from_height
                && !r.log_progress
            &&& event matches ScanEvent::Progress { current_height, .. } ==> (r.log_progress
                <==> current_height - before >= 1000) && (r.log_progress ==> after
                == current_height) && (!r.log_progress ==> after == before)
            &&& !(event is Started || event is Progress) ==> after == before && !r.log_progress
        }),
{
}

/// A scanner that leaves the tip is not at it, and knows what it knew.
pub proof fn law_leaving_the_tip_forgets_nothing(
    state: &mut ScannerState,
    at_tip: bool,
    tx_id: &str,
    before: TransactionStatus,
    after: TransactionStatus,
)
    requires
        old(state).wf(),
        call_ensures(ScannerState::leave_tip, (state,), ()),
        call_ensures(ScannerState::is_at_tip, (&*final(state),), at_tip),
        call_ensures(ScannerState::get_transaction_status, (&*old(state), tx_id), before),
        call_ensures(ScannerState::get_transaction_status, (&*final(state), tx_id), after),
    ensures
        !at_tip,
        after.status@ == before.status@,
        after.mined_height == before.mined_height,
        final(state)@.last_scanned_height == old(state)@.last_scanned_height,
{
}

/// A scanner that ended is started again after 5 seconds, unless it was told to
/// end and did so without a panic. Unless it ended cleanly it is no longer known
/// to be at the tip.
pub proof fn law_scanner_is_restarted(exit: ScanExit, cancelled: bool, r: Supervise)
    requires
        call_ensures(supervise, (exit, cancelled), r),
    ensures
        r == Supervise::Stop <==> cancelled && (exit == ScanExit::Clean || exit
            == ScanExit::Failed),
        r matches Supervise::Restart { after_secs, leave_tip } ==> after_secs == 5 && (leave_tip
            <==> exit == ScanExit::Failed || exit == ScanExit::Panicked),
{
}

/// A wait for the tip is done when the scanner is there, and lasts ten minutes
/// in all: what is left of them is what it waits for next.
pub proof fn law_sync_lasts_ten_minutes(
    wake: SyncWake,
    at_tip: bool,
    elapsed_ns: u128,
    r: SyncStep,
)
    requires
        call_ensures(sync_step, (wake, at_tip, elapsed_ns), r),
    ensures
        r == SyncStep::Done <==> at_tip && wake != SyncWake::Slept,
        r == SyncStep::TimedOut <==> wake == SyncWake::Slept || (!at_tip && elapsed_ns
            > 600_000_000_000),
        r matches SyncStep::Wait { remaining_ns } ==> elapsed_ns + remaining_ns == 600_000_000_000,
{
}

/// Outputs are unlocked where there are any.
pub proof fn law_stuck_outputs_are_unlocked(count: i64, r: bool)
    requires
        call_ensures(needs_unlock, (count,), r),
    ensures
        r <==> count >= 1,
{
}

proof fn lemma_first_address_error(s: Seq<RecipientView>)
    ensures
        first_address_error(s) is None <==> forall|i: int|
            0 <= i < s.len() ==> address_error((#[trigger] s[i]).address) is None,
        first_address_error(s) matches Some(t) ==> exists|k: int|
            0 <= k < s.len() && address_error((#[trigger] s[k]).address) is Some && t
                == "Invalid recipient address: "@ + address_error(s[k].address)->Some_0
                && forall|i: int| 0 <= i < k ==> address_error((#[trigger] s[i]).address) is None,
    decreases s.len(),
{
    if s.len() > 0 {
        let rest = s.skip(1);
        lemma_first_address_error(rest);
        assert(forall|i: int| 0 <= i < rest.len() ==> #[trigger] rest[i] == s[i + 1]);
        if address_error(s[0].address) is None {
            if first_address_error(rest) is None {
                assert forall|i: int| 0 <= i < s.len() implies address_error(
                    (#[trigger] s[i]).address,
                ) is None by {
                    if i > 0 {
                        assert(rest[i - 1] == s[i]);
                    }
                }
            } else {
                let t = first_address_error(rest)->Some_0;
                let k = choose|k: int|
                    0 <= k < rest.len() && address_error((#[trigger] rest[k]).address) is Some && t
                        == "Invalid recipient address: "@ + address_error(rest[k].address)->Some_0
                        && forall|i: int|
                        0 <= i < k ==> address_error((#[trigger] rest[i]).address) is None;
                assert(address_error(s[k + 1].address) is Some);
                assert forall|i: int| 0 <= i < k + 1 implies address_error(
                    (#[trigger] s[i]).address,
                ) is None by {
                    if i > 0 {
                        assert(rest[i - 1] == s[i]);
                    }
                }
            }
        } else {
            assert(address_error(s[0].address) is Some);
        }
    }
}

/// A batch is sent exactly where every recipient has an address that is in
/// order, to all of them and to no one else; else it is told what is wrong with
/// the first that has not. Its inputs are locked for two hours.
pub proof fn law_batch_goes_to_all_or_none(
    recipients: Vec<Recipient>,
    r: Result<SendRequest, String>,
    i: int,
)
    requires
        call_ensures(begin_batch, (recipients,), r),
        0 <= i < recipients.len(),
    ensures
        r is Ok ==> {
            &&& address_error(recipients@[i].address@) is None
            &&& r->Ok_0.recipients@ == recipients@
            &&& r->Ok_0.batched
            &&& r->Ok_0.lock_secs == 7200
            &&& uuid_form(r->Ok_0.idempotency_key@)
        },
        r is Err ==> exists|k: int|
            0 <= k < recipients.len() && address_error((#[trigger] recipients@[k]).address@) is Some
                && r->Err_0@ == "Invalid recipient address: "@ + address_error(
                recipients@[k].address@,
            )->Some_0 && forall|j: int|
                0 <= j < k ==> address_error((#[trigger] recipients@[j]).address@) is None,
{
    let s = recipient_views(recipients@);
    lemma_first_address_error(s);
    assert(s.len() == recipients.len());
    assert(s[i] == recipients@[i]@);
    assert(forall|j: int| 0 <= j < s.len() ==> #[trigger] s[j] == recipients@[j]@);
    if r is Err {
        let t = first_address_error(s)->Some_0;
        let k = choose|k: int|
            0 <= k < s.len() && address_error((#[trigger] s[k]).address) is Some && t
                == "Invalid recipient address: "@ + address_error(s[k].address)->Some_0
                && forall|j: int| 0 <= j < k ==> address_error((#[trigger] s[j]).address) is None;
        assert(address_error(recipients@[k].address@) is Some);
        assert forall|j: int| 0 <= j < k implies address_error(
            (#[trigger] recipients@[j]).address@,
        ) is None by {
            assert(address_error(s[j].address) is None);
        }
    }
}

/// A send goes to the one recipient that it was given, with the amount, exactly
/// where the address is in order. Its inputs are locked for two hours.
pub proof fn law_send_goes_to_its_recipient(
    recipient: &str,
    amount: u64,
    r: Result<SendRequest, String>,
)
    requires
        call_ensures(begin_send, (recipient, amount), r),
    ensures
        r is Ok <==> address_error(recipient@) is None,
        r is Ok ==> {
            &&& r->Ok_0.recipients.len() == 1
            &&& r->Ok_0.recipients@[0].address@ == recipient@
            &&& r->Ok_0.recipients@[0].amount == amount
            &&& !r->Ok_0.batched
            &&& r->Ok_0.lock_secs == 7200
            &&& uuid_form(r->Ok_0.idempotency_key@)
        },
        r is Err ==> r->Err_0@ == "Invalid recipient address: "@ + address_error(
            recipient@,
        )->Some_0,
{
    if r is Ok {
        let views = recipient_views(r->Ok_0.recipients@);
        assert(views.len() == r->Ok_0.recipients.len());
        assert(views[0] == r->Ok_0.recipients@[0]@);
    }
}

/// A request keeps its recipients, its kind and its key, and a refusal says
/// what it was given.
pub proof fn law_request_is_kept_or_refused(
    recipients: Vec<Recipient>,
    batched: bool,
    refusal: Option<String>,
    key: String,
    r: Result<SendRequest, String>,
)
    requires
        call_ensures(settle_request, (recipients, batched, refusal, key), r),
    ensures
        r is Ok <==> refusal is None,
        r is Ok ==> r->Ok_0.recipients@ == recipients@ && r->Ok_0.batched == batched
            && r->Ok_0.idempotency_key@ == key@ && r->Ok_0.lock_secs == 7200,
        r is Err ==> r->Err_0@ == refusal->Some_0@,
{
}

/// A send that could not be prepared has neither an identifier nor a fee; one
/// that could not be signed has its fee. Both say what went wrong.
pub proof fn law_failed_send_says_where_it_failed(
    cause: &str,
    fee: u64,
    unprepared: SendResult,
    unsigned: SendResult,
)
    requires
        call_ensures(prepare_failed, (cause,), unprepared),
        call_ensures(sign_failed, (cause, fee), unsigned),
    ensures
        !unprepared.accepted && !unsigned.accepted,
        unprepared.tx_id@.len() == 0 && unsigned.tx_id@.len() == 0,
        unprepared.fee is None,
        unsigned.fee == Some(fee),
        unprepared.error is Some && unprepared.error->Some_0@ == "Prepare failed: "@ + cause@,
        unsigned.error is Some && unsigned.error->Some_0@ == "Sign failed: "@ + cause@,
{
}

/// A send is accepted exactly where the base node took it. It has its
/// identifier and its fee either way, and the cause where it was not taken.
pub proof fn law_broadcast_decides_a_send(
    tx_id: String,
    fee: u64,
    outcome: Result<(), String>,
    r: SendResult,
)
    requires
        call_ensures(settle_broadcast, (tx_id, fee, outcome), r),
    ensures
        r.accepted <==> outcome is Ok,
        r.tx_id@ == tx_id@,
        r.fee == Some(fee),
        r.error is None <==> outcome is Ok,
        outcome is Err ==> r.error->Some_0@ == "Broadcast failed: "@ + outcome->Err_0@,
{
}

/// What was signed is handed on; a failure to sign ends the send, unaccepted
/// and with its fee.
pub proof fn law_signed_send_goes_on(
    outcome: Result<SignedOneSidedTransactionResult, String>,
    fee: u64,
    r: Result<SignedOneSidedTransactionResult, SendResult>,
)
    requires
        call_ensures(settle_sign, (outcome, fee), r),
    ensures
        r is Ok <==> outcome is Ok,
        r is Ok ==> r->Ok_0 == outcome->Ok_0,
        r is Err ==> !r->Err_0.accepted && r->Err_0.fee == Some(fee) && r->Err_0.tx_id@.len() == 0
            && r->Err_0.error is Some && r->Err_0.error->Some_0@ == "Sign failed: "@
            + outcome->Err_0@,
{
}

/// A send is signed, or fails to be, exactly where the seed words, with single
/// spaces between them, decode. A signed one is signed with their keys, for the
/// network and the transaction that it was given.
pub proof fn law_send_is_signed_with_the_seed(
    seed_words: Vec<String>,
    network: Network,
    prepared: PrepareOneSidedTransactionForSigningResult,
    fee: u64,
    r: Result<Result<SignedOneSidedTransactionResult, SendResult>, String>,
    phrase: String,
    sep: &str,
)
    requires
        call_ensures(sign_send, (&seed_words, network, prepared, fee), r),
        sep@ == " "@,
        call_ensures(crate::text::join, (&seed_words, sep), phrase),
    ensures
        r is Ok <==> seed_of_phrase(phrase@) is Ok,
        r is Ok && r->Ok_0 is Ok ==> signing_gives(
            keys_of_phrase(phrase@),
            network,
            prepared,
            Ok(r->Ok_0->Ok_0),
        ),
        r is Ok && r->Ok_0 is Err ==> !r->Ok_0->Err_0.accepted && r->Ok_0->Err_0.fee == Some(fee),
        r is Err ==> r->Err_0@ == "Failed to derive seed: "@ + seed_of_phrase(phrase@)->Err_0,
{
}

/// What is unconfirmed comes in; nothing is known of what goes out.
pub proof fn law_account_balance_keeps_its_parts(
    available: u64,
    unconfirmed: u64,
    locked: u64,
    r: WalletBalance,
)
    requires
        call_ensures(account_balance, (available, unconfirmed, locked), r),
    ensures
        r.available == available,
        r.pending_incoming == unconfirmed,
        r.pending_outgoing == 0,
        r.locked == locked,
{
}

/// A split sends the amount of one output at a time, as often as outputs are
/// asked for, and between two sends waits until that amount and 10,000 for the
/// fee can be spent. It is over after the last, or as soon as a send is not
/// accepted.
pub proof fn law_coin_split_goes_send_by_send(
    amount_per_split: u64,
    count: u64,
    fresh: CoinSplit,
    split: &mut CoinSplit,
    asked: CoinSplitAction,
    accepted: bool,
    next: CoinSplitAction,
)
    requires
        call_ensures(CoinSplit::new, (amount_per_split, count), fresh),
        old(split).wf(),
        call_ensures(CoinSplit::next, (&*old(split),), asked),
        asked is Send,
        call_ensures(CoinSplit::settle_send, (split, accepted), ()),
        call_ensures(CoinSplit::next, (&*final(split),), next),
    ensures
        fresh.count == count && fresh.amount_per_split == amount_per_split && fresh.sent == 0
            && !fresh.awaiting && !fresh.refused,
        asked == (CoinSplitAction::Send { amount: old(split).amount_per_split }),
        accepted ==> final(split).sent == old(split).sent + 1,
        !accepted ==> final(split).sent == old(split).sent && next == CoinSplitAction::Finish,
        accepted && old(split).sent + 1 == old(split).count ==> next == CoinSplitAction::Finish,
        accepted && old(split).sent + 1 < old(split).count ==> (
        next matches CoinSplitAction::AwaitChange { needed } && needed
            == old(split).amount_per_split + 10_000),
        final(split).count == old(split).count,
        final(split).amount_per_split == old(split).amount_per_split,
{
}

/// Once a wait for change is over, the next send is made.
pub proof fn law_change_lets_the_next_send_be_made(
    split: &mut CoinSplit,
    before: CoinSplitAction,
    after: CoinSplitAction,
)
    requires
        old(split).wf(),
        call_ensures(CoinSplit::next, (&*old(split),), before),
        before is AwaitChange,
        call_ensures(CoinSplit::settle_change, (split,), ()),
        call_ensures(CoinSplit::next, (&*final(split),), after),
    ensures
        after == (CoinSplitAction::Send { amount: old(split).amount_per_split }),
        final(split).sent == old(split).sent,
{
}

/// A wait for change ends when there is enough, and else after 15 minutes; it
/// looks every 30 seconds.
pub proof fn law_change_is_waited_for(
    available: u64,
    needed: u64,
    elapsed_ns: u128,
    r: ChangeStep,
)
    requires
        call_ensures(CoinSplit::change_step, (available, needed, elapsed_ns), r),
    ensures
        r == ChangeStep::Enough <==> available >= needed,
        r == ChangeStep::TimedOut <==> available < needed && elapsed_ns > 900_000_000_000,
        r is Wait ==> r == (ChangeStep::Wait { secs: 30 }),
{
}

/// A split in which nothing was sent is not accepted, and says so.
pub proof fn law_empty_split_is_not_accepted(r: SendResult)
    requires
        call_ensures(CoinSplit::nothing_sent, (), r),
    ensures
        !r.accepted,
        r.tx_id@.len() == 0,
        r.fee is None,
        r.error is Some && r.error->Some_0@ == "No splits performed"@,
{
}

/// The new wallet's balance is stable when it was the same for a minute; it is
/// looked at every 30 seconds.
pub proof fn law_new_wallet_settles_in_a_minute(
    timeout_secs: u64,
    first: WalletBalance,
    elapsed_ns: u128,
    r: BalanceWatch,
)
    requires
        call_ensures(wait_for_balance_stable, (timeout_secs, first, elapsed_ns), r),
    ensures
        r.stable_secs == 60,
        r.poll_secs == 30,
        r.timeout_secs == timeout_secs,
        r.last_balance == first,
        r.last_change_ns == elapsed_ns,
{
}

/// What is said where the tip is not reached in time, or an account is missing.
pub proof fn law_driver_names_what_is_missing(
    late: String,
    account_name: &str,
    missing: String,
)
    requires
        call_ensures(sync_timeout_error, (), late),
        call_ensures(account_error, (account_name,), missing),
    ensures
        late@ == "Timed out waiting for scanner to reach tip"@,
        missing@ == "Account '"@ + account_name@ + "' not found"@,
{
}

/// The scanner fetches 25 blocks at once, looks for the tip every 10 seconds and
/// tries 5 times on its own.
pub proof fn law_scanner_paces_itself()
    ensures
        SCAN_BATCH_SIZE == 25,
        TIP_POLL_SECS == 10,
        SCAN_ERROR_RETRIES == 5,
{
}

proof fn lemma_order_only_grows(view: ScannerView, list: Seq<TrackedTransaction>)
    ensures
        view.order.is_prefix_of(view.noted_all(list).order),
        view.noted_all(list).order.len() <= view.order.len() + list.len(),
    decreases list.len(),
{
    if list.len() > 0 {
        let before = view.noted_all(list.drop_last());
        let after = before.noted(list.last());
        lemma_order_only_grows(view, list.drop_last());
        assert(after.order.take(view.order.len() as int) =~= view.order) by {
            assert(view.order =~= before.order.take(view.order.len() as int));
        }
        assert(view.order =~= after.order.subrange(0, view.order.len() as int));
    } else {
        assert(view.order =~= view.order.subrange(0, view.order.len() as int));
    }
}

/// Transactions keep their places in the list: whatever the scanner says, those
/// listed before stand where they stood, and new ones come behind them.
pub proof fn law_new_transactions_come_last(
    state: &mut ScannerState,
    event: ScanEvent,
    progress: &mut ScanProgress,
    r: EventEffect,
    before: Vec<TransactionStatus>,
    after: Vec<TransactionStatus>,
    i: int,
)
    requires
        call_ensures(ScannerState::process_event, (state, &event, progress), r),
        call_ensures(ScannerState::get_completed_transactions, (&*old(state),), before),
        call_ensures(ScannerState::get_completed_transactions, (&*final(state),), after),
        0 <= i < before.len(),
    ensures
        before.len() <= after.len(),
        after@[i].tx_id@ == before@[i].tx_id@,
        !(event is TransactionsReady || event is TransactionsUpdated) ==> after.len()
            == before.len(),
{
    let a = old(state)@.order;
    let b = final(state)@.order;
    match event {
        ScanEvent::TransactionsReady { transactions } => {
            lemma_order_only_grows(old(state)@, transactions@);
        },
        ScanEvent::TransactionsUpdated { updated_transactions } => {
            lemma_order_only_grows(old(state)@, updated_transactions@);
        },
        _ => {
            assert(a =~= b.subrange(0, a.len() as int));
        },
    }
    assert(a.is_prefix_of(b));
    assert(b.subrange(0, a.len() as int)[i] == b[i]);
    assert(before@[i]@.tx_id == before@[i].tx_id@);
    assert(after@[i]@.tx_id == after@[i].tx_id@);
}

} // verus!
