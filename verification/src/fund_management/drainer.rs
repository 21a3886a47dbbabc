//! Draining the address pool's accounts back to a wallet.
use tari_transaction_components::key_manager::KeyManager;
use tari_transaction_components::offline_signing::models::{
    PrepareOneSidedTransactionForSigningResult, SignedOneSidedTransactionResult,
};
use vstd::prelude::*;
use vstd::string::*;

use super::consolidator::FEE_RESERVE;
use crate::address_pool::{entry_views, AddressPoolEntry, AddressPoolEntryView};
use crate::signing::{keys_held, sign_prepared, signing_gives, signing_outcome, spend_key_manager};
use crate::tari::{
    address_error, check_address, is_secret_key, payment_reference, payment_reference_of,
    secret_key_of, secret_key_valid, Network,
};
use crate::text::{contains, contains_text, decimal, labelled, law_labels_distinct};
use crate::time::{from_unix_seconds, Timestamp, MAX_SECS, MIN_SECS};

verus! {

/// How long the inputs of a sweep stay locked.
pub const SECONDS_TO_LOCK_UTXO: u64 = 3600;

/// Blocks fetched at once.
pub const SCAN_BATCH_SIZE: u64 = 25;

/// Where the scan for pool outputs starts. All pool wallets were created after
/// this height.
pub const SCAN_START_HEIGHT: u64 = 522_000;

/// Drains funds from address pool sink accounts back to a destination wallet.
pub struct Drainer;

// ---------------------------------------------------------------------------
// Accounts
// ---------------------------------------------------------------------------

/// The name of the account of a pool entry.
pub open spec fn account_name_of(index: usize) -> Seq<char> {
    "pool_"@ + decimal(index as nat)
}

/// The idempotency key of the sweep of a pool entry.
pub open spec fn sweep_key_of(index: usize) -> Seq<char> {
    "drain_pool_"@ + decimal(index as nat)
}

/// Two pool entries never share an account or a sweep.
pub proof fn law_accounts_are_distinct(i: usize, j: usize)
    requires
        i != j,
    ensures
        account_name_of(i) != account_name_of(j),
        sweep_key_of(i) != sweep_key_of(j),
{
    if account_name_of(i) == account_name_of(j) {
        law_labels_distinct("pool_"@, i as nat, j as nat);
    }
    if sweep_key_of(i) == sweep_key_of(j) {
        law_labels_distinct("drain_pool_"@, i as nat, j as nat);
    }
}

/// What is wrong with the keys of an entry, given which of them are in order.
pub open spec fn key_error(index: usize, view_ok: bool, spend_ok: bool) -> Option<Seq<char>> {
    if !view_ok {
        Some("Invalid view key hex for pool entry "@ + decimal(index as nat))
    } else if !spend_ok {
        Some("Invalid spend key hex for pool entry "@ + decimal(index as nat))
    } else {
        None
    }
}

/// What is wrong with the keys of an entry, if anything.
pub open spec fn entry_key_error(e: AddressPoolEntryView) -> Option<Seq<char>> {
    key_error(e.index, secret_key_valid(e.view_key_hex), secret_key_valid(e.spend_key_hex))
}

/// What is wrong with the first entry whose keys are not in order, if any.
pub open spec fn first_key_error(s: Seq<AddressPoolEntryView>) -> Option<Seq<char>>
    decreases s.len(),
{
    if s.len() == 0 {
        None
    } else {
        match entry_key_error(s[0]) {
            Some(t) => Some(t),
            None => first_key_error(s.skip(1)),
        }
    }
}

/// Judges the keys of an entry, given which of them are in order.
pub fn judge_keys(index: usize, view_ok: bool, spend_ok: bool) -> (r: Result<(), String>)
    ensures
        match key_error(index, view_ok, spend_ok) {
            None => r is Ok,
            Some(t) => r matches Err(e) && e@ == t,
        },
{
    if !view_ok {
        Err(labelled("Invalid view key hex for pool entry ", index as u64))
    } else if !spend_ok {
        Err(labelled("Invalid spend key hex for pool entry ", index as u64))
    } else {
        Ok(())
    }
}

/// Checks the keys of an entry.
fn check_entry_keys(entry: &AddressPoolEntry) -> (r: Result<(), String>)
    ensures
        match entry_key_error(entry@) {
            None => r is Ok,
            Some(t) => r matches Err(e) && e@ == t,
        },
{
    judge_keys(
        entry.index,
        is_secret_key(entry.view_key_hex.as_str()),
        is_secret_key(entry.spend_key_hex.as_str()),
    )
}

/// What registering a pool entry comes to.
#[derive(Debug)]
pub enum RegisterStep {
    /// The entry has an account already.
    Skip,
    /// Create an account of this name.
    Create { account_name: String },
}

/// The registration of pool entries under way.
#[derive(Clone, Copy, Debug, PartialEq, Eq, Structural)]
pub struct Registration {
    /// The entry whose turn it is.
    pub next: usize,
    /// Accounts created so far.
    pub registered: usize,
}

impl Registration {
    /// No more accounts were created than entries looked at.
    pub open spec fn wf(self) -> bool {
        self.registered <= self.next
    }

    /// Before the first entry.
    pub open spec fn begun() -> Registration {
        Registration { next: 0, registered: 0 }
    }

    /// After one more entry, whose account existed or was created.
    pub open spec fn after(self, existed: bool) -> Registration {
        Registration {
            next: (self.next + 1) as usize,
            registered: if existed {
                self.registered
            } else {
                (self.registered + 1) as usize
            },
        }
    }

    /// Before the first entry.
    pub fn new() -> (r: Self)
        ensures
            r == Registration::begun(),
            r.wf(),
    {
        Registration { next: 0, registered: 0 }
    }

    /// Decides about an entry, given whether its account exists and how its
    /// keys were judged. Keys do not matter where the account exists.
    pub fn settle(&mut self, index: usize, exists: bool, keys: Result<(), String>) -> (r: Result<
        RegisterStep,
        String,
    >)
        requires
            old(self).wf(),
            old(self).next < usize::MAX,
        ensures
            final(self).wf(),
            exists ==> r matches Ok(RegisterStep::Skip),
            exists ==> *final(self) == old(self).after(true),
            !exists ==> match keys {
                Ok(_) => {
                    &&& r matches Ok(RegisterStep::Create { account_name }) && account_name@
                        == account_name_of(index)
                    &&& *final(self) == old(self).after(false)
                },
                Err(t) => (r matches Err(e) && e@ == t@) && *final(self) == *old(self),
            },
    {
        if exists {
            self.next = self.next + 1;
            return Ok(RegisterStep::Skip);
        }
        match keys {
            Ok(()) => {
                self.next = self.next + 1;
                self.registered = self.registered + 1;
                Ok(RegisterStep::Create { account_name: Drainer::account_name(index) })
            },
            Err(e) => Err(e),
        }
    }

    /// Decides about the next entry, given whether its account exists. An
    /// account is created for an entry that has none and whose keys are in
    /// order.
    pub fn step(&mut self, entries: &Vec<AddressPoolEntry>, exists: bool) -> (r: Result<
        RegisterStep,
        String,
    >)
        requires
            old(self).wf(),
            old(self).next < entries.len(),
        ensures
            final(self).wf(),
            exists ==> r matches Ok(RegisterStep::Skip),
            exists ==> *final(self) == old(self).after(true),
            !exists ==> match entry_key_error(entries@[old(self).next as int]@) {
                None => {
                    &&& r matches Ok(RegisterStep::Create { account_name }) && account_name@
                        == account_name_of(entries@[old(self).next as int].index)
                    &&& *final(self) == old(self).after(false)
                },
                Some(t) => (r matches Err(e) && e@ == t) && *final(self) == *old(self),
            },
    {
        let i: usize = self.next;
        let keys = if exists {
            Ok(())
        } else {
            check_entry_keys(&entries[i])
        };
        self.settle(entries[i].index, exists, keys)
    }
}

/// The registration after entries whose accounts exist or not, where no key is
/// refused.
pub open spec fn after_entries(existing: Seq<bool>) -> Registration
    decreases existing.len(),
{
    if existing.len() == 0 {
        Registration::begun()
    } else {
        after_entries(existing.drop_last()).after(existing.last())
    }
}

/// The accounts created are as many as the entries that had none.
pub proof fn law_registered_are_the_missing(existing: Seq<bool>)
    requires
        existing.len() <= usize::MAX,
    ensures
        after_entries(existing).next == existing.len(),
        after_entries(existing).registered == existing.filter(|e: bool| !e).len(),
        after_entries(existing).registered <= existing.len(),
    decreases existing.len(),
{
    reveal(Seq::filter);
    if existing.len() > 0 {
        law_registered_are_the_missing(existing.drop_last());
    }
}

/// The registration under way in a wallet that has accounts by name.
pub struct Registering {
    pub state: Registration,
    pub accounts: Set<Seq<char>>,
}

impl Registering {
    /// Whether the entry has an account.
    pub open spec fn has(self, entry: AddressPoolEntryView) -> bool {
        self.accounts.contains(account_name_of(entry.index))
    }

    /// After one more entry: one that has an account is left as it is, and for
    /// any other an account of its name is created.
    pub open spec fn after(self, entry: AddressPoolEntryView) -> Registering {
        Registering {
            state: self.state.after(self.has(entry)),
            accounts: if self.has(entry) {
                self.accounts
            } else {
                self.accounts.insert(account_name_of(entry.index))
            },
        }
    }

    /// After a list of entries, where no key is refused.
    pub open spec fn after_all(self, entries: Seq<AddressPoolEntryView>) -> Registering
        decreases entries.len(),
    {
        if entries.len() == 0 {
            self
        } else {
            self.after_all(entries.drop_last()).after(entries.last())
        }
    }

    /// Before the first entry, in a wallet that has these accounts.
    pub open spec fn begun(accounts: Set<Seq<char>>) -> Registering {
        Registering { state: Registration::begun(), accounts }
    }
}

/// The names of the accounts of a list of entries.
pub open spec fn account_names(entries: Seq<AddressPoolEntryView>) -> Set<Seq<char>> {
    Set::new(
        |name: Seq<char>|
            exists|i: int|
                0 <= i < entries.len() && account_name_of((#[trigger] entries[i]).index) == name,
    )
}

/// Registering entries leaves each of them with an account, and creates one for
/// each name that had none, however often it comes up; the accounts that were
/// there stay.
pub proof fn law_registration_adds_the_missing(
    accounts: Set<Seq<char>>,
    entries: Seq<AddressPoolEntryView>,
)
    requires
        entries.len() <= usize::MAX,
    ensures
        Registering::begun(accounts).after_all(entries).accounts == accounts.union(
            account_names(entries),
        ),
        Registering::begun(accounts).after_all(entries).state.next == entries.len(),
        account_names(entries).difference(accounts).finite(),
        Registering::begun(accounts).after_all(entries).state.registered == account_names(
            entries,
        ).difference(accounts).len(),
        Registering::begun(accounts).after_all(entries).state.registered <= entries.len(),
    decreases entries.len(),
{
    let missing = account_names(entries).difference(accounts);
    if entries.len() == 0 {
        assert(account_names(entries) =~= Set::empty());
        assert(missing =~= Set::empty());
        assert(accounts.union(account_names(entries)) =~= accounts);
    } else {
        let rest = entries.drop_last();
        let before = Registering::begun(accounts).after_all(rest);
        let name = account_name_of(entries.last().index);
        law_registration_adds_the_missing(accounts, rest);
        assert(account_names(entries) =~= account_names(rest).insert(name)) by {
            assert forall|n: Seq<char>| #[trigger] account_names(entries).contains(n) <==>
                account_names(rest).insert(name).contains(n) by {
                if account_names(rest).contains(n) {
                    let i = choose|i: int|
                        0 <= i < rest.len() && account_name_of((#[trigger] rest[i]).index) == n;
                    assert(account_name_of(entries[i].index) == n);
                }
                if n == name {
                    assert(account_name_of(entries[entries.len() - 1].index) == n);
                }
                if account_names(entries).contains(n) {
                    let i = choose|i: int|
                        0 <= i < entries.len() && account_name_of((#[trigger] entries[i]).index)
                            == n;
                    if i < rest.len() {
                        assert(account_name_of(rest[i].index) == n);
                    }
                }
            }
        }
        assert(before.after(entries.last()).accounts =~= accounts.union(account_names(entries)));
        if before.has(entries.last()) {
            assert(missing =~= account_names(rest).difference(accounts));
        } else {
            assert(missing =~= account_names(rest).difference(accounts).insert(name));
        }
    }
}

/// Registering entries that all have accounts creates none and changes none. No
/// key is looked at, so it does not matter whether they are in order.
pub proof fn law_registered_entries_are_left_alone(
    accounts: Set<Seq<char>>,
    entries: Seq<AddressPoolEntryView>,
)
    requires
        entries.len() <= usize::MAX,
        forall|i: int|
            0 <= i < entries.len() ==> accounts.contains(
                account_name_of((#[trigger] entries[i]).index),
            ),
    ensures
        Registering::begun(accounts).after_all(entries).accounts == accounts,
        Registering::begun(accounts).after_all(entries).state.registered == 0,
        Registering::begun(accounts).after_all(entries).state.next == entries.len(),
    decreases entries.len(),
{
    if entries.len() > 0 {
        let rest = entries.drop_last();
        assert forall|i: int| 0 <= i < rest.len() implies accounts.contains(
            account_name_of((#[trigger] rest[i]).index),
        ) by {
            assert(rest[i] == entries[i]);
        }
        law_registered_entries_are_left_alone(accounts, rest);
        assert(entries[entries.len() - 1] == entries.last());
    }
}

/// Registering the same entries a second time creates no account and changes
/// nothing.
pub proof fn law_second_registration_adds_nothing(
    accounts: Set<Seq<char>>,
    entries: Seq<AddressPoolEntryView>,
)
    requires
        entries.len() <= usize::MAX,
    ensures
        ({
            let once = Registering::begun(accounts).after_all(entries).accounts;
            &&& Registering::begun(once).after_all(entries).accounts == once
            &&& Registering::begun(once).after_all(entries).state.registered == 0
        }),
{
    let once = Registering::begun(accounts).after_all(entries).accounts;
    law_registration_adds_the_missing(accounts, entries);
    assert forall|i: int| 0 <= i < entries.len() implies once.contains(
        account_name_of((#[trigger] entries[i]).index),
    ) by {
        assert(account_names(entries).contains(account_name_of(entries[i].index)));
    }
    law_registered_entries_are_left_alone(once, entries);
}

// ---------------------------------------------------------------------------
// Scanning
// ---------------------------------------------------------------------------

/// What the scan does after a batch of blocks.
#[derive(Clone, Copy, Debug, PartialEq, Eq, Structural)]
pub enum ScanNext {
    /// Fetch on from this height.
    FetchFrom { height: u64 },
    /// There is nothing left to fetch.
    Stop,
}

/// A scan for pool outputs under way.
#[derive(Clone, Copy, Debug, PartialEq, Eq, Structural)]
pub struct PoolScan {
    pub tip_height: u64,
    pub start_height: u64,
    pub total_outputs: u64,
}

/// Where the outputs of a wallet's key stand in a block.
#[derive(Clone, Copy, Debug)]
pub struct FoundOutput {
    pub output_hash: [u8; 32],
    pub value: u64,
    /// The place of the pool entry whose key found the output.
    pub key_index: usize,
}

/// An output to be stored for a pool account.
#[derive(Debug)]
pub struct OutputPlan {
    pub account_name: String,
    pub output_hash: [u8; 32],
    pub payment_reference: Vec<u8>,
    pub value: u64,
}

/// A found output is stored for the account of the entry whose key found it.
pub open spec fn output_planned(
    entries: Seq<AddressPoolEntryView>,
    block_hash: Seq<u8>,
    found: FoundOutput,
    plan: OutputPlan,
) -> bool {
    &&& plan.account_name@ == account_name_of(entries[found.key_index as int].index)
    &&& plan.output_hash == found.output_hash
    &&& plan.payment_reference@ == payment_reference_of(block_hash, found.output_hash@)
    &&& plan.value == found.value
}

/// What storing an output came to.
#[derive(Clone, Copy, Debug, PartialEq, Eq, Structural)]
pub enum InsertStep {
    /// The output is new: confirm it and credit the account.
    Credit { output_id: i64 },
    /// The output was there already.
    Known,
    /// The output could not be stored.
    Failed,
}

/// What storing an output came to: an error that speaks of a unique constraint
/// says that it was there.
pub open spec fn insert_step_of(outcome: Result<i64, String>) -> InsertStep {
    match outcome {
        Ok(output_id) => InsertStep::Credit { output_id },
        Err(e) => if contains_text(e@, "UNIQUE constraint"@) {
            InsertStep::Known
        } else {
            InsertStep::Failed
        },
    }
}

/// The balance change of a found output.
#[derive(Clone, Copy, Debug, PartialEq, Eq, Structural)]
pub struct BalanceCredit {
    pub account_id: i64,
    pub output_id: i64,
    pub credit: u64,
    pub effective_date: Timestamp,
    pub effective_height: u64,
}

/// When a block was mined, or now where its time is not on the calendar.
pub open spec fn mined_at(mined_timestamp: u64, now: Timestamp) -> Timestamp {
    let secs = mined_timestamp as i64;
    if MIN_SECS <= secs <= MAX_SECS {
        Timestamp { secs, nanos: 0 }
    } else {
        now
    }
}

impl PoolScan {
    /// How the scan goes on after a batch: behind its last block where there
    /// are more, and not at all after an empty batch.
    pub open spec fn next_after(self, last_height: Option<u64>, more_blocks: bool) -> ScanNext {
        match last_height {
            Some(h) if more_blocks => ScanNext::FetchFrom { height: (h + 1) as u64 },
            _ => ScanNext::Stop,
        }
    }

    /// The scan after a batch.
    pub open spec fn after_batch(self, last_height: Option<u64>, more_blocks: bool) -> PoolScan {
        match self.next_after(last_height, more_blocks) {
            ScanNext::FetchFrom { height } => PoolScan { start_height: height, ..self },
            ScanNext::Stop => self,
        }
    }

    /// Starts a scan, given the chain tip where it is known.
    pub fn new(tip: Option<u64>) -> (r: Self)
        ensures
            r == (PoolScan {
                tip_height: match tip {
                    Some(h) => h,
                    None => 0,
                },
                start_height: SCAN_START_HEIGHT,
                total_outputs: 0,
            }),
    {
        PoolScan {
            tip_height: match tip {
                Some(h) => h,
                None => 0,
            },
            start_height: SCAN_START_HEIGHT,
            total_outputs: 0,
        }
    }

    /// How many blocks lie between the start and the tip.
    pub fn blocks_to_scan(&self) -> (r: u64)
        ensures
            r == (if self.tip_height < self.start_height {
                0
            } else {
                self.tip_height - self.start_height
            }),
    {
        self.tip_height.saturating_sub(self.start_height)
    }

    /// Decides how to go on after a batch, given the height of its last block,
    /// if it had any, and whether there are more.
    pub fn batch_done(&mut self, last_height: Option<u64>, more_blocks: bool) -> (r: ScanNext)
        requires
            last_height matches Some(h) ==> h < u64::MAX,
        ensures
            r == old(self).next_after(last_height, more_blocks),
            *final(self) == old(self).after_batch(last_height, more_blocks),
    {
        match last_height {
            Some(h) => {
                if more_blocks {
                    self.start_height = h + 1;
                    ScanNext::FetchFrom { height: h + 1 }
                } else {
                    ScanNext::Stop
                }
            },
            None => ScanNext::Stop,
        }
    }

    /// Takes note of what storing an output came to.
    pub fn inserted(&mut self, outcome: &Result<i64, String>) -> (r: InsertStep)
        requires
            old(self).total_outputs < u64::MAX,
        ensures
            r == insert_step_of(*outcome),
            *final(self) == (PoolScan {
                total_outputs: if outcome is Ok {
                    (old(self).total_outputs + 1) as u64
                } else {
                    old(self).total_outputs
                },
                ..*old(self)
            }),
    {
        match outcome {
            Ok(output_id) => {
                self.total_outputs = self.total_outputs + 1;
                InsertStep::Credit { output_id: *output_id }
            },
            Err(e) => if contains(e.as_str(), "UNIQUE constraint") {
                InsertStep::Known
            } else {
                InsertStep::Failed
            },
        }
    }

    /// The tip to record for all accounts: the tip after the scan where it is
    /// known, and the one before where not.
    pub fn final_tip_height(&self, tip: Option<u64>) -> (r: u64)
        ensures
            r == (match tip {
                Some(h) => h,
                None => self.tip_height,
            }),
    {
        match tip {
            Some(h) => h,
            None => self.tip_height,
        }
    }
}

/// A scan takes up right behind the last block that it was given, so it misses
/// none and asks for none again; and as long as batches reach its start, every
/// one that it asks for starts higher.
pub proof fn law_scan_advances(scan: PoolScan, last_height: u64)
    requires
        scan.start_height <= last_height < u64::MAX,
    ensures
        scan.after_batch(Some(last_height), true).start_height == last_height + 1,
        scan.after_batch(Some(last_height), true).start_height > scan.start_height,
        scan.next_after(Some(last_height), false) == ScanNext::Stop,
        scan.next_after(None, true) == ScanNext::Stop,
{
}

/// An output that a key of the pool finds on the chain, with the height of its
/// block.
pub struct ChainOutput {
    pub found: FoundOutput,
    pub height: u64,
}

/// A balance change that a found output has made.
pub struct AccountCredit {
    pub account_name: Seq<char>,
    pub credit: u64,
    pub height: u64,
}

/// What the wallet holds of the pool: the accounts of the outputs that it has
/// stored, by their hash, and the balance changes.
pub struct PoolLedger {
    pub outputs: Map<Seq<u8>, Seq<char>>,
    pub credits: Seq<AccountCredit>,
}

/// The account of the entry whose key found an output.
pub open spec fn account_of(entries: Seq<AddressPoolEntryView>, found: FoundOutput) -> Seq<char> {
    account_name_of(entries[found.key_index as int].index)
}

/// The balance change that a found output makes.
pub open spec fn credit_of(
    entries: Seq<AddressPoolEntryView>,
    output: ChainOutput,
) -> AccountCredit {
    AccountCredit {
        account_name: account_of(entries, output.found),
        credit: output.found.value,
        height: output.height,
    }
}

/// Whether an output of the chain has a hash.
pub open spec fn on_chain(chain: Seq<ChainOutput>, hash: Seq<u8>) -> bool {
    exists|k: int| 0 <= k < chain.len() && (#[trigger] chain[k]).found.output_hash@ == hash
}

/// The balance changes that are due for a chain: one for each output, the first
/// time that its hash comes up, unless it is stored already.
pub open spec fn credits_due(
    entries: Seq<AddressPoolEntryView>,
    outputs: Map<Seq<u8>, Seq<char>>,
    chain: Seq<ChainOutput>,
) -> Seq<AccountCredit>
    decreases chain.len(),
{
    if chain.len() == 0 {
        Seq::empty()
    } else {
        let before = credits_due(entries, outputs, chain.drop_last());
        let hash = chain.last().found.output_hash@;
        if outputs.dom().contains(hash) || on_chain(chain.drop_last(), hash) {
            before
        } else {
            before.push(credit_of(entries, chain.last()))
        }
    }
}

impl PoolLedger {
    /// Whether the wallet may answer so when it is to store an output: a hash
    /// that is stored breaks a unique constraint, and any other is taken.
    pub open spec fn answers(self, found: FoundOutput, outcome: Result<i64, String>) -> bool {
        if self.outputs.dom().contains(found.output_hash@) {
            outcome matches Err(e) && contains_text(e@, "UNIQUE constraint"@)
        } else {
            outcome is Ok
        }
    }

    /// What the wallet holds once an output was to be stored, and the scan has
    /// acted on the outcome.
    pub open spec fn after(
        self,
        entries: Seq<AddressPoolEntryView>,
        output: ChainOutput,
        outcome: Result<i64, String>,
    ) -> PoolLedger {
        match insert_step_of(outcome) {
            InsertStep::Credit { .. } => PoolLedger {
                outputs: self.outputs.insert(
                    output.found.output_hash@,
                    account_of(entries, output.found),
                ),
                credits: self.credits.push(credit_of(entries, output)),
            },
            InsertStep::Known | InsertStep::Failed => self,
        }
    }

    /// What the wallet holds after a scan of a chain.
    pub open spec fn scanned(
        self,
        entries: Seq<AddressPoolEntryView>,
        chain: Seq<ChainOutput>,
        outcomes: Seq<Result<i64, String>>,
    ) -> PoolLedger
        decreases chain.len(),
    {
        if chain.len() == 0 {
            self
        } else {
            self.scanned(entries, chain.drop_last(), outcomes.drop_last()).after(
                entries,
                chain.last(),
                outcomes.last(),
            )
        }
    }

    /// Whether the wallet may give these outcomes over a scan of a chain.
    pub open spec fn answers_all(
        self,
        entries: Seq<AddressPoolEntryView>,
        chain: Seq<ChainOutput>,
        outcomes: Seq<Result<i64, String>>,
    ) -> bool
        decreases chain.len(),
    {
        chain.len() == outcomes.len() && (chain.len() > 0 ==> {
            &&& self.answers_all(entries, chain.drop_last(), outcomes.drop_last())
            &&& self.scanned(entries, chain.drop_last(), outcomes.drop_last()).answers(
                chain.last().found,
                outcomes.last(),
            )
        })
    }
}

/// A scan stores each output of the chain, under the account of the entry whose
/// key found it, and adds the balance changes that are due, of the value of the
/// output and at the height of its block. What was stored before stays.
pub proof fn law_scan_credits_new_outputs(
    ledger: PoolLedger,
    entries: Seq<AddressPoolEntryView>,
    chain: Seq<ChainOutput>,
    outcomes: Seq<Result<i64, String>>,
)
    requires
        ledger.answers_all(entries, chain, outcomes),
    ensures
        ledger.scanned(entries, chain, outcomes).credits == ledger.credits + credits_due(
            entries,
            ledger.outputs,
            chain,
        ),
        forall|hash: Seq<u8>| #[trigger]
            ledger.scanned(entries, chain, outcomes).outputs.dom().contains(hash)
                <==> ledger.outputs.dom().contains(hash) || on_chain(chain, hash),
        forall|hash: Seq<u8>|
            ledger.outputs.dom().contains(hash) ==> #[trigger] ledger.scanned(
                entries,
                chain,
                outcomes,
            ).outputs[hash] == ledger.outputs[hash],
        forall|k: int|
            0 <= k < chain.len() && !ledger.outputs.dom().contains(
                (#[trigger] chain[k]).found.output_hash@,
            ) && !on_chain(chain.take(k), chain[k].found.output_hash@) ==> ledger.scanned(
                entries,
                chain,
                outcomes,
            ).outputs[chain[k].found.output_hash@] == account_of(entries, chain[k].found),
    decreases chain.len(),
{
    let due = credits_due(entries, ledger.outputs, chain);
    let after = ledger.scanned(entries, chain, outcomes);
    if chain.len() == 0 {
        assert(ledger.credits + due =~= ledger.credits);
    } else {
        let rest = chain.drop_last();
        let last = chain.len() - 1;
        let hash = chain.last().found.output_hash@;
        let before = ledger.scanned(entries, rest, outcomes.drop_last());
        law_scan_credits_new_outputs(ledger, entries, rest, outcomes.drop_last());
        assert(before.outputs.dom().contains(hash) <==> ledger.outputs.dom().contains(hash)
            || on_chain(rest, hash));
        assert(after.credits =~= ledger.credits + due);
        assert forall|h: Seq<u8>| #[trigger] after.outputs.dom().contains(h)
            <==> ledger.outputs.dom().contains(h) || on_chain(chain, h) by {
            lemma_on_chain_step(chain, h);
            assert(before.outputs.dom().contains(h) <==> ledger.outputs.dom().contains(h)
                || on_chain(rest, h));
        }
        assert forall|h: Seq<u8>| ledger.outputs.dom().contains(h) implies #[trigger] after.outputs[h]
            == ledger.outputs[h] by {
            assert(before.outputs.dom().contains(h));
            assert(before.outputs[h] == ledger.outputs[h]);
        }
        assert forall|k: int|
            0 <= k < chain.len() && !ledger.outputs.dom().contains(
                (#[trigger] chain[k]).found.output_hash@,
            ) && !on_chain(chain.take(k), chain[k].found.output_hash@) implies
            after.outputs[chain[k].found.output_hash@] == account_of(entries, chain[k].found) by {
            if k < last {
                assert(rest[k] == chain[k]);
                assert(rest.take(k) =~= chain.take(k));
                assert(on_chain(rest, chain[k].found.output_hash@));
                assert(before.outputs.dom().contains(chain[k].found.output_hash@));
            } else {
                assert(chain.take(k) =~= rest);
            }
        }
    }
}

proof fn lemma_on_chain_step(chain: Seq<ChainOutput>, hash: Seq<u8>)
    requires
        chain.len() > 0,
    ensures
        on_chain(chain, hash) <==> on_chain(chain.drop_last(), hash)
            || chain.last().found.output_hash@ == hash,
{
    let rest = chain.drop_last();
    if on_chain(rest, hash) {
        let k = choose|k: int|
            0 <= k < rest.len() && (#[trigger] rest[k]).found.output_hash@ == hash;
        assert(chain[k].found.output_hash@ == hash);
    }
    if chain.last().found.output_hash@ == hash {
        assert(chain[chain.len() - 1].found.output_hash@ == hash);
    }
    if on_chain(chain, hash) {
        let k = choose|k: int|
            0 <= k < chain.len() && (#[trigger] chain[k]).found.output_hash@ == hash;
        if k < rest.len() {
            assert(rest[k].found.output_hash@ == hash);
        }
    }
}

proof fn lemma_stored_chain_adds_nothing(
    ledger: PoolLedger,
    entries: Seq<AddressPoolEntryView>,
    chain: Seq<ChainOutput>,
    outcomes: Seq<Result<i64, String>>,
)
    requires
        ledger.answers_all(entries, chain, outcomes),
        forall|k: int|
            0 <= k < chain.len() ==> ledger.outputs.dom().contains(
                (#[trigger] chain[k]).found.output_hash@,
            ),
    ensures
        ledger.scanned(entries, chain, outcomes) == ledger,
    decreases chain.len(),
{
    if chain.len() > 0 {
        let rest = chain.drop_last();
        assert forall|k: int| 0 <= k < rest.len() implies ledger.outputs.dom().contains(
            (#[trigger] rest[k]).found.output_hash@,
        ) by {
            assert(rest[k] == chain[k]);
        }
        lemma_stored_chain_adds_nothing(ledger, entries, rest, outcomes.drop_last());
        assert(chain[chain.len() - 1] == chain.last());
    }
}

/// Scanning the same chain a second time stores nothing and adds no balance
/// change.
pub proof fn law_second_scan_adds_nothing(
    ledger: PoolLedger,
    entries: Seq<AddressPoolEntryView>,
    chain: Seq<ChainOutput>,
    first: Seq<Result<i64, String>>,
    second: Seq<Result<i64, String>>,
)
    requires
        ledger.answers_all(entries, chain, first),
        ledger.scanned(entries, chain, first).answers_all(entries, chain, second),
    ensures
        ledger.scanned(entries, chain, first).scanned(entries, chain, second) == ledger.scanned(
            entries,
            chain,
            first,
        ),
{
    law_scan_credits_new_outputs(ledger, entries, chain, first);
    assert forall|k: int| 0 <= k < chain.len() implies ledger.scanned(
        entries,
        chain,
        first,
    ).outputs.dom().contains((#[trigger] chain[k]).found.output_hash@) by {
        assert(on_chain(chain, chain[k].found.output_hash@));
    }
    lemma_stored_chain_adds_nothing(
        ledger.scanned(entries, chain, first),
        entries,
        chain,
        second,
    );
}

// ---------------------------------------------------------------------------
// Sweeping
// ---------------------------------------------------------------------------

/// A sweep to be prepared.
#[derive(Debug)]
pub struct SweepRequest {
    pub account_name: String,
    pub idempotency_key: String,
    pub amount: u64,
    pub lock_secs: u64,
}

/// What to do about a pool account.
#[derive(Debug)]
pub enum SweepPlan {
    /// There is no account, or nothing in it.
    Skip,
    /// What is in it does not cover the fee reserve and more.
    TooLow,
    /// Send everything but the fee reserve.
    Sweep { request: SweepRequest },
}

/// The amount that a sweep of a balance sends: all but the fee reserve, and
/// nothing where that leaves nothing.
pub open spec fn sweep_amount(available: u64) -> int {
    if available > FEE_RESERVE {
        available - FEE_RESERVE
    } else {
        0
    }
}

/// What was drained so far.
#[derive(Clone, Copy, Debug, PartialEq, Eq, Structural)]
pub struct DrainTotals {
    pub total_drained: u64,
    pub total_fees: u64,
    pub accounts_drained: usize,
}

impl DrainTotals {
    /// One more account can be added.
    pub open spec fn fits(self, amount: u64, fee: u64) -> bool {
        &&& self.total_drained + amount <= u64::MAX
        &&& self.total_fees + fee <= u64::MAX
        &&& self.accounts_drained < usize::MAX
    }

    /// The totals after one more sweep. Only one that was broadcast counts.
    pub open spec fn plus(self, amount: int, fee: u64, broadcast: bool) -> DrainTotals {
        if broadcast {
            DrainTotals {
                total_drained: (self.total_drained + amount) as u64,
                total_fees: (self.total_fees + fee) as u64,
                accounts_drained: (self.accounts_drained + 1) as usize,
            }
        } else {
            self
        }
    }

    /// Nothing yet.
    pub fn new() -> (r: Self)
        ensures
            r == (DrainTotals { total_drained: 0, total_fees: 0, accounts_drained: 0 }),
    {
        DrainTotals { total_drained: 0, total_fees: 0, accounts_drained: 0 }
    }

    /// Whether one more account can be added.
    pub fn can_add(&self, amount: u64, fee: u64) -> (r: bool)
        ensures
            r == self.fits(amount, fee),
    {
        amount <= u64::MAX - self.total_drained && fee <= u64::MAX - self.total_fees
            && self.accounts_drained < usize::MAX
    }

    /// Takes note of a sweep. Only one that was broadcast counts.
    pub fn settle(&mut self, amount: u64, fee: u64, broadcast: bool)
        requires
            broadcast ==> old(self).fits(amount, fee),
        ensures
            *final(self) == old(self).plus(amount as int, fee, broadcast),
    {
        if broadcast {
            self.total_drained = self.total_drained + amount;
            self.total_fees = self.total_fees + fee;
            self.accounts_drained = self.accounts_drained + 1;
        }
    }
}

/// Where the sweep of an account stands: what it waits to hear.
#[derive(Clone, Copy, Debug, PartialEq, Eq, Structural)]
pub enum DrainStage {
    /// What the account holds.
    Looking,
    /// Whether the transaction was prepared.
    Preparing,
    /// Whether it was signed.
    Signing,
    /// Whether it was broadcast.
    Broadcasting,
}

/// What a drain hears.
#[derive(Clone, Copy, Debug, PartialEq, Eq, Structural)]
pub enum DrainEvent {
    /// What the account holds, if there is one.
    Held { available: Option<u64> },
    Prepared { fee: u64 },
    PrepareFailed,
    Signed,
    SignFailed,
    Broadcast,
    BroadcastFailed,
}

/// A drain under way.
#[derive(Clone, Copy, Debug, PartialEq, Eq, Structural)]
pub struct DrainRun {
    /// The entry whose turn it is.
    pub next: usize,
    pub stage: DrainStage,
    /// What the sweep sends.
    pub amount: u64,
    /// What the sweep costs.
    pub fee: u64,
    pub totals: DrainTotals,
}

impl DrainRun {
    /// Before the first account.
    pub open spec fn begun() -> DrainRun {
        DrainRun {
            next: 0,
            stage: DrainStage::Looking,
            amount: 0,
            fee: 0,
            totals: DrainTotals { total_drained: 0, total_fees: 0, accounts_drained: 0 },
        }
    }

    /// The event is one that the stage waits for.
    pub open spec fn expects(self, event: DrainEvent) -> bool {
        match self.stage {
            DrainStage::Looking => event is Held,
            DrainStage::Preparing => event is Prepared || event is PrepareFailed,
            DrainStage::Signing => event is Signed || event is SignFailed,
            DrainStage::Broadcasting => event is Broadcast || event is BroadcastFailed,
        }
    }

    /// On to the next account.
    pub open spec fn moved_on(self) -> DrainRun {
        DrainRun {
            next: (self.next + 1) as usize,
            stage: DrainStage::Looking,
            amount: 0,
            fee: 0,
            ..self
        }
    }

    /// The drain after an event. A failure at any stage only skips the account.
    pub open spec fn after(self, event: DrainEvent) -> DrainRun {
        match event {
            DrainEvent::Held { available } => match available {
                Some(a) if sweep_amount(a) > 0 => DrainRun {
                    stage: DrainStage::Preparing,
                    amount: sweep_amount(a) as u64,
                    ..self
                },
                _ => self.moved_on(),
            },
            DrainEvent::Prepared { fee } => DrainRun { stage: DrainStage::Signing, fee, ..self },
            DrainEvent::Signed => DrainRun { stage: DrainStage::Broadcasting, ..self },
            DrainEvent::Broadcast => DrainRun {
                totals: self.totals.plus(self.amount as int, self.fee, true),
                ..self.moved_on()
            },
            DrainEvent::PrepareFailed | DrainEvent::SignFailed | DrainEvent::BroadcastFailed => {
                self.moved_on()
            },
        }
    }

    /// Before the first account.
    pub fn new() -> (r: Self)
        ensures
            r == DrainRun::begun(),
    {
        DrainRun {
            next: 0,
            stage: DrainStage::Looking,
            amount: 0,
            fee: 0,
            totals: DrainTotals::new(),
        }
    }

    /// Takes note of an event.
    pub fn step(&mut self, event: DrainEvent)
        requires
            old(self).expects(event),
            old(self).next < usize::MAX,
            event is Broadcast ==> old(self).totals.fits(old(self).amount, old(self).fee),
        ensures
            *final(self) == old(self).after(event),
    {
        match event {
            DrainEvent::Held { available } => {
                if let Some(a) = available {
                    if a > FEE_RESERVE {
                        self.amount = a - FEE_RESERVE;
                        self.stage = DrainStage::Preparing;
                        return ;
                    }
                }
            },
            DrainEvent::Prepared { fee } => {
                self.fee = fee;
                self.stage = DrainStage::Signing;
                return ;
            },
            DrainEvent::Signed => {
                self.stage = DrainStage::Broadcasting;
                return ;
            },
            DrainEvent::Broadcast => {
                self.totals.settle(self.amount, self.fee, true);
            },
            DrainEvent::PrepareFailed | DrainEvent::SignFailed | DrainEvent::BroadcastFailed => {},
        }
        self.next = self.next + 1;
        self.stage = DrainStage::Looking;
        self.amount = 0;
        self.fee = 0;
    }
}

/// The drain after a series of events.
pub open spec fn drained_by(events: Seq<DrainEvent>) -> DrainRun
    decreases events.len(),
{
    if events.len() == 0 {
        DrainRun::begun()
    } else {
        drained_by(events.drop_last()).after(events.last())
    }
}

/// Each event is one that the drain was waiting for, and its totals can be
/// computed.
pub open spec fn events_in_order(events: Seq<DrainEvent>) -> bool
    decreases events.len(),
{
    events.len() > 0 ==> {
        let before = drained_by(events.drop_last());
        &&& events_in_order(events.drop_last())
        &&& before.expects(events.last())
        &&& before.next < usize::MAX
        &&& events.last() is Broadcast ==> before.totals.fits(before.amount, before.fee)
    }
}

/// What the accounts were found to hold whose sweeps were broadcast, and the
/// fees of those sweeps, in order, as a series of events tells it.
pub open spec fn sweeps_told(events: Seq<DrainEvent>) -> Seq<(int, int)>
    decreases events.len(),
{
    if events.len() == 0 {
        Seq::empty()
    } else {
        let before = drained_by(events.drop_last());
        if events.last() is Broadcast {
            sweeps_told(events.drop_last()).push(
                (before.amount + FEE_RESERVE, before.fee as int),
            )
        } else {
            sweeps_told(events.drop_last())
        }
    }
}

/// The first numbers of a list of pairs, added up.
pub open spec fn first_sum(list: Seq<(int, int)>) -> int
    decreases list.len(),
{
    if list.len() == 0 {
        0
    } else {
        first_sum(list.drop_last()) + list.last().0
    }
}

/// The second numbers of a list of pairs, added up.
pub open spec fn second_sum(list: Seq<(int, int)>) -> int
    decreases list.len(),
{
    if list.len() == 0 {
        0
    } else {
        second_sum(list.drop_last()) + list.last().1
    }
}

/// A drain's totals account for the sweeps that were broadcast, and for no
/// other, whatever else happened: what was drained, and a fee reserve for each
/// account, are together what those accounts held.
pub proof fn law_drain_totals(events: Seq<DrainEvent>)
    requires
        events_in_order(events),
    ensures
        drained_by(events).totals.accounts_drained == sweeps_told(events).len(),
        drained_by(events).totals.total_drained + FEE_RESERVE * drained_by(
            events,
        ).totals.accounts_drained == first_sum(sweeps_told(events)),
        drained_by(events).totals.total_fees == second_sum(sweeps_told(events)),
        drained_by(events).totals.accounts_drained <= drained_by(events).next,
    decreases events.len(),
{
    if events.len() > 0 {
        let rest = events.drop_last();
        law_drain_totals(rest);
        if events.last() is Broadcast {
            let all = sweeps_told(events);
            assert(all.drop_last() =~= sweeps_told(rest));
        }
    }
}

impl Drainer {
    /// The name of the account of a pool entry.
    pub fn account_name(index: usize) -> (r: String)
        ensures
            r@ == account_name_of(index),
    {
        labelled("pool_", index as u64)
    }

    /// The entries to drain: the first `limit`, or all where that is zero or
    /// no fewer.
    pub fn limit_entries(entries: Vec<AddressPoolEntry>, limit: usize) -> (r: Vec<
        AddressPoolEntry,
    >)
        ensures
            r@ == (if 0 < limit < entries@.len() {
                entries@.take(limit as int)
            } else {
                entries@
            }),
    {
        let mut entries = entries;
        if limit > 0 && limit < entries.len() {
            entries.truncate(limit);
        }
        entries
    }

    /// The birthday for new pool accounts: that of the main account, so that
    /// scanning starts from the right height.
    pub fn pool_birthday(main_account: Option<i64>) -> (r: u16)
        ensures
            r == (match main_account {
                Some(b) => b as u16,
                None => 0,
            }),
    {
        match main_account {
            Some(b) => {
                #[verifier::truncate]
                (b as u16)
            },
            None => 0,
        }
    }

    /// The key managers of all pool entries, in order.
    pub fn pool_key_managers(entries: &Vec<AddressPoolEntry>) -> (r: Result<
        Vec<KeyManager>,
        String,
    >)
        ensures
            match first_key_error(entry_views(entries@)) {
                None => {
                    &&& r matches Ok(managers) && managers.len() == entries.len() && (forall|i: int|
                        0 <= i < entries.len() ==> keys_held(#[trigger] managers@[i]) == (
                            secret_key_of(entries@[i].view_key_hex@)->Some_0,
                            secret_key_of(entries@[i].spend_key_hex@)->Some_0,
                        ))
                },
                Some(t) => r matches Err(e) && e@ == t,
            },
    {
        let ghost views = entry_views(entries@);
        let mut managers: Vec<KeyManager> = Vec::new();
        let mut i: usize = 0;
        assert(views.skip(0) =~= views);
        while i < entries.len()
            invariant
                i <= entries.len(),
                views == entry_views(entries@),
                managers.len() == i,
                first_key_error(views) == first_key_error(views.skip(i as int)),
                forall|j: int|
                    0 <= j < i ==> keys_held(#[trigger] managers@[j]) == (
                        secret_key_of(entries@[j].view_key_hex@)->Some_0,
                        secret_key_of(entries@[j].spend_key_hex@)->Some_0,
                    ),
            decreases entries.len() - i,
        {
            assert(views.skip(i as int)[0] == entries@[i as int]@);
            assert(views.skip(i as int).skip(1) =~= views.skip(i + 1));
            match check_entry_keys(&entries[i]) {
                Ok(()) => {
                    let manager = spend_key_manager(
                        entries[i].view_key_hex.as_str(),
                        entries[i].spend_key_hex.as_str(),
                    );
                    match manager {
                        Ok(m) => {
                            managers.push(m);
                        },
                        Err(e) => {
                            return Err(e);
                        },
                    }
                },
                Err(e) => {
                    return Err(e);
                },
            }
            i = i + 1;
        }
        assert(views.skip(i as int) =~= Seq::empty());
        Ok(managers)
    }

    /// What to store of an output that the key of an entry found, given its
    /// payment reference.
    pub fn plan_output(index: usize, found: FoundOutput, payment_reference: Vec<u8>) -> (r:
        OutputPlan)
        ensures
            r.account_name@ == account_name_of(index),
            r.output_hash == found.output_hash,
            r.payment_reference@ == payment_reference@,
            r.value == found.value,
    {
        OutputPlan {
            account_name: Self::account_name(index),
            output_hash: found.output_hash,
            payment_reference,
            value: found.value,
        }
    }

    /// What to store of the outputs that were found in a block.
    pub fn plan_block(
        entries: &Vec<AddressPoolEntry>,
        block_hash: &[u8; 32],
        found: &Vec<FoundOutput>,
    ) -> (r: Vec<OutputPlan>)
        requires
            forall|i: int|
                0 <= i < found.len() ==> (#[trigger] found@[i]).key_index < entries.len(),
        ensures
            r.len() == found.len(),
            forall|i: int|
                0 <= i < found.len() ==> output_planned(
                    entry_views(entries@),
                    block_hash@,
                    found@[i],
                    #[trigger] r@[i],
                ),
    {
        let mut plans: Vec<OutputPlan> = Vec::new();
        let mut i: usize = 0;
        while i < found.len()
            invariant
                i <= found.len(),
                plans.len() == i,
                forall|j: int|
                    0 <= j < found.len() ==> (#[trigger] found@[j]).key_index < entries.len(),
                forall|j: int|
                    0 <= j < i ==> output_planned(
                        entry_views(entries@),
                        block_hash@,
                        found@[j],
                        #[trigger] plans@[j],
                    ),
            decreases found.len() - i,
        {
            let output = found[i];
            let entry = &entries[output.key_index];
            let reference = payment_reference(block_hash, &output.output_hash);
            plans.push(Self::plan_output(entry.index, output, reference));
            i = i + 1;
        }
        plans
    }

    /// The balance change that lets the wallet see a found output.
    pub fn credit(
        account_id: i64,
        output_id: i64,
        value: u64,
        mined_timestamp: u64,
        height: u64,
        now: Timestamp,
    ) -> (r: BalanceCredit)
        ensures
            r == (BalanceCredit {
                account_id,
                output_id,
                credit: value,
                effective_date: mined_at(mined_timestamp, now),
                effective_height: height,
            }),
    {
        let secs: i64 = #[verifier::truncate]
        (mined_timestamp as i64);
        let effective_date = match from_unix_seconds(secs) {
            Some(t) => t,
            None => now,
        };
        BalanceCredit {
            account_id,
            output_id,
            credit: value,
            effective_date,
            effective_height: height,
        }
    }

    /// Checks where the funds are to go.
    pub fn check_destination(destination: &str) -> (r: Result<(), String>)
        ensures
            match address_error(destination@) {
                None => r is Ok,
                Some(t) => r matches Err(e) && e@ == "Invalid destination address: "@ + t,
            },
    {
        check_address("Invalid destination address: ", destination)
    }

    /// Decides what to do about a pool account, given what it holds, if it
    /// exists.
    pub fn plan_sweep(entry: &AddressPoolEntry, available: Option<u64>) -> (r: SweepPlan)
        ensures
            match available {
                None => r is Skip,
                Some(a) => if a == 0 {
                    r is Skip
                } else if sweep_amount(a) == 0 {
                    r is TooLow
                } else {
                    r matches SweepPlan::Sweep { request } && request.amount == sweep_amount(a)
                        && request.account_name@ == account_name_of(entry.index)
                        && request.idempotency_key@ == sweep_key_of(entry.index)
                        && request.lock_secs == SECONDS_TO_LOCK_UTXO
                },
            },
    {
        let held: u64 = match available {
            Some(a) => a,
            None => 0,
        };
        if held == 0 {
            return SweepPlan::Skip;
        }
        let amount: u64 = held.saturating_sub(FEE_RESERVE);
        if amount == 0 {
            return SweepPlan::TooLow;
        }
        SweepPlan::Sweep {
            request: SweepRequest {
                account_name: Self::account_name(entry.index),
                idempotency_key: labelled("drain_pool_", entry.index as u64),
                amount,
                lock_secs: SECONDS_TO_LOCK_UTXO,
            },
        }
    }

    /// Judges the keys of a sweep, given which of them are in order.
    pub fn judge_sweep_keys(view_ok: bool, spend_ok: bool) -> (r: Result<(), String>)
        ensures
            if !view_ok {
                r matches Err(e) && e@ == "Invalid view key hex"@
            } else if !spend_ok {
                r matches Err(e) && e@ == "Invalid spend key hex"@
            } else {
                r is Ok
            },
    {
        if !view_ok {
            Err("Invalid view key hex".to_owned())
        } else if !spend_ok {
            Err("Invalid spend key hex".to_owned())
        } else {
            Ok(())
        }
    }

    /// Signs a prepared sweep with the keys of its entry. Keys that are no
    /// secret keys end the drain; a signature that fails, which the inner
    /// result tells of, only skips the account. The inner result is one that
    /// signing gives for the keys of the entry, the network and the prepared
    /// transaction; it is not the only one, as signatures are made with random
    /// nonces.
    pub fn sign_sweep(
        entry: &AddressPoolEntry,
        network: Network,
        prepared: PrepareOneSidedTransactionForSigningResult,
    ) -> (r: Result<Result<SignedOneSidedTransactionResult, String>, String>)
        ensures
            if !secret_key_valid(entry.view_key_hex@) {
                r matches Err(e) && e@ == "Invalid view key hex"@
            } else if !secret_key_valid(entry.spend_key_hex@) {
                r matches Err(e) && e@ == "Invalid spend key hex"@
            } else {
                r is Ok && signing_gives(
                    (
                        secret_key_of(entry.view_key_hex@)->Some_0,
                        secret_key_of(entry.spend_key_hex@)->Some_0,
                    ),
                    network,
                    prepared,
                    signing_outcome(r->Ok_0),
                )
            },
    {
        let view_ok = is_secret_key(entry.view_key_hex.as_str());
        let spend_ok = is_secret_key(entry.spend_key_hex.as_str());
        if let Err(e) = Self::judge_sweep_keys(view_ok, spend_ok) {
            return Err(e);
        }
        match spend_key_manager(entry.view_key_hex.as_str(), entry.spend_key_hex.as_str()) {
            Ok(manager) => Ok(sign_prepared(&manager, network, prepared)),
            Err(e) => Err(e),
        }
    }
}

// ---------------------------------------------------------------------------
// What a drain amounts to
// ---------------------------------------------------------------------------

/// Entries are registered in their order. One that has an account is passed
/// over, whatever its keys. For any other an account by its number is created
/// where both of its keys are in order; where one is not, the registration
/// stays where it is and says which entry it was.
pub proof fn law_missing_accounts_are_created(
    fresh: Registration,
    state: &mut Registration,
    entries: Vec<AddressPoolEntry>,
    exists_already: bool,
    r: Result<RegisterStep, String>,
)
    requires
        call_ensures(Registration::new, (), fresh),
        old(state).wf(),
        old(state).next < entries.len(),
        call_ensures(Registration::step, (state, &entries, exists_already), r),
    ensures
        fresh.next == 0 && fresh.registered == 0,
        ({
            let entry = entries@[old(state).next as int];
            let keys_ok = secret_key_of(entry.view_key_hex@) is Some && secret_key_of(
                entry.spend_key_hex@,
            ) is Some;
            &&& r is Ok <==> exists_already || keys_ok
            &&& r is Ok ==> final(state).next == old(state).next + 1
            &&& r is Err ==> *final(state) == *old(state)
            &&& exists_already ==> r->Ok_0 is Skip && final(state).registered == old(state).registered
            &&& !exists_already && keys_ok ==> r->Ok_0 is Create && r->Ok_0->account_name@
                == "pool_"@ + decimal(entry.index as nat) && final(state).registered == old(state).registered + 1
            &&& r is Err ==> r->Err_0@ == if secret_key_of(entry.view_key_hex@) is None {
                "Invalid view key hex for pool entry "@ + decimal(entry.index as nat)
            } else {
                "Invalid spend key hex for pool entry "@ + decimal(entry.index as nat)
            }
        }),
{
}

proof fn lemma_first_key_error(s: Seq<AddressPoolEntryView>)
    ensures
        first_key_error(s) is None <==> forall|i: int|
            0 <= i < s.len() ==> secret_key_of((#[trigger] s[i]).view_key_hex) is Some
                && secret_key_of(s[i].spend_key_hex) is Some,
        first_key_error(s) matches Some(t) ==> exists|k: int|
            0 <= k < s.len() && entry_key_error(#[trigger] s[k]) == Some(t) && forall|i: int|
                0 <= i < k ==> entry_key_error(#[trigger] s[i]) is None,
    decreases s.len(),
{
    if s.len() > 0 {
        let rest = s.skip(1);
        lemma_first_key_error(rest);
        if entry_key_error(s[0]) is None {
            assert(forall|i: int| 0 <= i < rest.len() ==> #[trigger] rest[i] == s[i + 1]);
            if first_key_error(rest) is None {
                assert forall|i: int| 0 <= i < s.len() implies secret_key_of(
                    (#[trigger] s[i]).view_key_hex,
                ) is Some && secret_key_of(s[i].spend_key_hex) is Some by {
                    if i > 0 {
                        assert(rest[i - 1] == s[i]);
                    }
                }
            } else {
                let t = first_key_error(rest)->Some_0;
                let k = choose|k: int|
                    0 <= k < rest.len() && entry_key_error(#[trigger] rest[k]) == Some(t)
                        && forall|i: int| 0 <= i < k ==> entry_key_error(#[trigger] rest[i]) is None;
                assert(entry_key_error(s[k + 1]) == Some(t));
                assert forall|i: int| 0 <= i < k + 1 implies entry_key_error(#[trigger] s[i])
                    is None by {
                    if i > 0 {
                        assert(rest[i - 1] == s[i]);
                    }
                }
                assert(!(secret_key_of(s[k + 1].view_key_hex) is Some && secret_key_of(
                    s[k + 1].spend_key_hex,
                ) is Some));
            }
        } else {
            assert(entry_key_error(s[0]) == first_key_error(s));
            assert(!(secret_key_of(s[0].view_key_hex) is Some && secret_key_of(s[0].spend_key_hex)
                is Some));
        }
    }
}

/// There is a key manager for each entry, in its place and with its keys,
/// exactly where all keys are in order. Else it is told which entry is the
/// first whose keys are not.
pub proof fn law_each_entry_has_its_key_manager(
    entries: Vec<AddressPoolEntry>,
    r: Result<Vec<KeyManager>, String>,
    i: int,
)
    requires
        call_ensures(Drainer::pool_key_managers, (&entries,), r),
        0 <= i < entries.len(),
    ensures
        r is Ok ==> r->Ok_0.len() == entries.len() && Some(keys_held(r->Ok_0@[i]).0)
            == secret_key_of(entries@[i].view_key_hex@) && Some(keys_held(r->Ok_0@[i]).1)
            == secret_key_of(entries@[i].spend_key_hex@),
        secret_key_of(entries@[i].view_key_hex@) is None || secret_key_of(
            entries@[i].spend_key_hex@,
        ) is None ==> r is Err,
        r is Err ==> exists|k: int|
            0 <= k < entries.len() && {
                let entry = #[trigger] entries@[k];
                ||| secret_key_of(entry.view_key_hex@) is None && r->Err_0@
                    == "Invalid view key hex for pool entry "@ + decimal(entry.index as nat)
                ||| secret_key_of(entry.view_key_hex@) is Some && secret_key_of(
                    entry.spend_key_hex@,
                ) is None && r->Err_0@ == "Invalid spend key hex for pool entry "@ + decimal(
                    entry.index as nat,
                )
            } && forall|j: int|
                0 <= j < k ==> secret_key_of((#[trigger] entries@[j]).view_key_hex@) is Some
                    && secret_key_of(entries@[j].spend_key_hex@) is Some,
{
    let views = entry_views(entries@);
    lemma_first_key_error(views);
    assert(views.len() == entries.len());
    assert(forall|j: int| 0 <= j < views.len() ==> #[trigger] views[j] == entries@[j]@);
    assert(views[i] == entries@[i]@);
    if r is Ok {
        assert(keys_held(r->Ok_0@[i]).0 == secret_key_of(entries@[i].view_key_hex@)->Some_0);
    } else {
        let t = first_key_error(views)->Some_0;
        let k = choose|k: int|
            0 <= k < views.len() && entry_key_error(#[trigger] views[k]) == Some(t) && forall|j: int|
                0 <= j < k ==> entry_key_error(#[trigger] views[j]) is None;
        assert(views[k] == entries@[k]@);
        assert forall|j: int| 0 <= j < k implies secret_key_of(
            (#[trigger] entries@[j]).view_key_hex@,
        ) is Some && secret_key_of(entries@[j].spend_key_hex@) is Some by {
            assert(entry_key_error(views[j]) is None);
        }
    }
}

/// The scan begins at height 522,000 with no output found. Each batch that
/// leaves more blocks to come is followed by the one behind its last block; an
/// empty batch, or the last one, ends the scan.
pub proof fn law_scan_takes_up_behind_each_batch(
    tip: Option<u64>,
    fresh: PoolScan,
    blocks: u64,
    scan: &mut PoolScan,
    last_height: Option<u64>,
    more_blocks: bool,
    r: ScanNext,
    later_tip: Option<u64>,
    told: u64,
)
    requires
        call_ensures(PoolScan::new, (tip,), fresh),
        call_ensures(PoolScan::blocks_to_scan, (&fresh,), blocks),
        last_height is Some ==> last_height->Some_0 < u64::MAX,
        call_ensures(PoolScan::batch_done, (scan, last_height, more_blocks), r),
        call_ensures(PoolScan::final_tip_height, (&fresh, later_tip), told),
    ensures
        fresh.start_height == 522_000,
        fresh.total_outputs == 0,
        tip matches Some(h) ==> fresh.tip_height == h && (h >= 522_000 ==> blocks + 522_000 == h)
            && (h < 522_000 ==> blocks == 0),
        tip is None ==> blocks == 0,
        r is FetchFrom <==> last_height is Some && more_blocks,
        r matches ScanNext::FetchFrom { height } ==> height == last_height->Some_0 + 1
            && final(scan).start_height == height,
        r is Stop ==> final(scan).start_height == old(scan).start_height,
        final(scan).tip_height == old(scan).tip_height,
        final(scan).total_outputs == old(scan).total_outputs,
        later_tip matches Some(h) ==> told == h,
        later_tip is None && tip is Some ==> told == tip->Some_0,
{
}

/// An output that was stored is credited and counted. One whose storing breaks
/// a unique constraint was there already; any other failure is one. Neither is
/// counted.
pub proof fn law_only_new_outputs_are_credited(
    scan: &mut PoolScan,
    outcome: Result<i64, String>,
    r: InsertStep,
)
    requires
        old(scan).total_outputs < u64::MAX,
        call_ensures(PoolScan::inserted, (scan, &outcome), r),
    ensures
        outcome matches Ok(id) ==> r == (InsertStep::Credit { output_id: id })
            && final(scan).total_outputs == old(scan).total_outputs + 1,
        outcome is Err ==> !(r is Credit) && final(scan).total_outputs == old(scan).total_outputs,
        outcome matches Err(e) ==> (r == InsertStep::Known <==> exists|i: int, n: int|
            #![trigger e@.subrange(i, n)]
            0 <= i <= n <= e@.len() && e@.subrange(i, n) == "UNIQUE constraint"@),
        final(scan).start_height == old(scan).start_height,
        final(scan).tip_height == old(scan).tip_height,
{
    if outcome is Err {
        let s = outcome->Err_0@;
        let needle = "UNIQUE constraint"@;
        if contains_text(s, needle) {
            let i = choose|i: int| crate::text::occurs_at(s, needle, i);
            assert(s.subrange(i, i + needle.len()) == needle);
        }
        if exists|i: int, n: int|
            #![trigger s.subrange(i, n)]
            0 <= i <= n <= s.len() && s.subrange(i, n) == needle {
            let (i, n) = choose|i: int, n: int|
                #![trigger s.subrange(i, n)]
                0 <= i <= n <= s.len() && s.subrange(i, n) == needle;
            assert(s.subrange(i, n).len() == n - i);
            assert(crate::text::occurs_at(s, needle, i));
        }
    }
}

/// Every output found in a block is stored once, in its place: for the account
/// of the entry whose key found it, with its hash, its value and its payment
/// reference in that block.
pub proof fn law_found_outputs_go_to_their_accounts(
    entries: Vec<AddressPoolEntry>,
    block_hash: [u8; 32],
    found: Vec<FoundOutput>,
    r: Vec<OutputPlan>,
    i: int,
)
    requires
        call_ensures(Drainer::plan_block, (&entries, &block_hash, &found), r),
        0 <= i < found.len(),
        found@[i].key_index < entries.len(),
    ensures
        r.len() == found.len(),
        r@[i].account_name@ == "pool_"@ + decimal(
            entries@[found@[i].key_index as int].index as nat,
        ),
        r@[i].output_hash == found@[i].output_hash,
        r@[i].value == found@[i].value,
        r@[i].payment_reference@ == payment_reference_of(block_hash@, found@[i].output_hash@),
{
    assert(output_planned(entry_views(entries@), block_hash@, found@[i], r@[i]));
    assert(entry_views(entries@)[found@[i].key_index as int]
        == entries@[found@[i].key_index as int]@);
}

/// A credit is of the output's value, for its account and at its height, and
/// dates from when its block was mined, or from now where the calendar does not
/// have that time.
pub proof fn law_credit_is_the_outputs_value(
    account_id: i64,
    output_id: i64,
    value: u64,
    mined_timestamp: u64,
    height: u64,
    now: Timestamp,
    r: BalanceCredit,
)
    requires
        call_ensures(
            Drainer::credit,
            (account_id, output_id, value, mined_timestamp, height, now),
            r,
        ),
    ensures
        r.account_id == account_id,
        r.output_id == output_id,
        r.credit == value,
        r.effective_height == height,
        mined_timestamp <= 8_210_266_876_799 ==> r.effective_date.secs == mined_timestamp
            && r.effective_date.nanos == 0,
        8_210_266_876_799 < mined_timestamp <= i64::MAX ==> r.effective_date == now,
{
}

/// The first entries are drained, as many as the limit says, or all of them
/// where it is zero or there are no more.
pub proof fn law_limit_takes_the_first_entries(
    entries: Vec<AddressPoolEntry>,
    limit: usize,
    r: Vec<AddressPoolEntry>,
    i: int,
)
    requires
        call_ensures(Drainer::limit_entries, (entries, limit), r),
        0 <= i < r.len(),
    ensures
        limit == 0 ==> r.len() == entries.len(),
        limit >= entries.len() ==> r.len() == entries.len(),
        0 < limit < entries.len() ==> r.len() == limit,
        r@[i] == entries@[i],
{
}

/// New pool accounts have the main account's birthday.
pub proof fn law_accounts_share_the_main_birthday(main_account: Option<i64>, r: u16)
    requires
        call_ensures(Drainer::pool_birthday, (main_account,), r),
    ensures
        main_account matches Some(b) ==> (0 <= b <= u16::MAX ==> r == b),
        main_account is None ==> r == 0,
{
}

/// A sweep sends everything that the account holds but 10,000 for the fee,
/// where it holds more than that, and locks its inputs for an hour. It goes by
/// the number of its entry. The drain counts on the same amount.
pub proof fn law_sweep_takes_all_but_the_fee(
    entry: AddressPoolEntry,
    available: Option<u64>,
    r: SweepPlan,
    run: &mut DrainRun,
)
    requires
        call_ensures(Drainer::plan_sweep, (&entry, available), r),
        old(run).stage == DrainStage::Looking,
        old(run).next < usize::MAX,
        call_ensures(DrainRun::step, (run, DrainEvent::Held { available }), ()),
    ensures
        r is Skip <==> available is None || available->Some_0 == 0,
        r is TooLow <==> available is Some && 0 < available->Some_0 <= 10_000,
        r is Sweep <==> available is Some && available->Some_0 > 10_000,
        r matches SweepPlan::Sweep { request } ==> {
            &&& request.amount + 10_000 == available->Some_0
            &&& request.account_name@ == "pool_"@ + decimal(entry.index as nat)
            &&& request.idempotency_key@ == "drain_pool_"@ + decimal(entry.index as nat)
            &&& request.lock_secs == 3600
            &&& final(run).amount == request.amount
            &&& final(run).next == old(run).next
            &&& final(run).stage == DrainStage::Preparing
        },
        !(r is Sweep) ==> final(run).next == old(run).next + 1 && final(run).stage
            == DrainStage::Looking,
        final(run).totals == old(run).totals,
{
}

/// A sweep is prepared, signed and broadcast, in this order, and counts only
/// once it is broadcast: then its amount, its fee and its account are added. A
/// failure at any stage passes on to the next account and adds nothing.
pub proof fn law_only_broadcast_sweeps_count(
    run: &mut DrainRun,
    event: DrainEvent,
)
    requires
        old(run).expects(event),
        !(event is Held),
        old(run).next < usize::MAX,
        event is Broadcast ==> old(run).totals.fits(old(run).amount, old(run).fee),
        call_ensures(DrainRun::step, (run, event), ()),
    ensures
        event matches DrainEvent::Prepared { fee } ==> final(run).stage == DrainStage::Signing
            && final(run).fee == fee,
        event is Signed ==> final(run).stage == DrainStage::Broadcasting && final(run).fee == old(run).fee,
        event is Prepared || event is Signed ==> final(run).next == old(run).next && final(run).amount == old(run).amount,
        event is Broadcast || event is PrepareFailed || event is SignFailed
            || event is BroadcastFailed ==> final(run).next == old(run).next + 1 && final(run).stage
            == DrainStage::Looking,
        event is Broadcast ==> {
            &&& final(run).totals.total_drained == old(run).totals.total_drained + old(run).amount
            &&& final(run).totals.total_fees == old(run).totals.total_fees + old(run).fee
            &&& final(run).totals.accounts_drained == old(run).totals.accounts_drained + 1
        },
        !(event is Broadcast) ==> final(run).totals == old(run).totals,
{
}

/// What the accounts held whose sweeps were broadcast, less 10,000 each, as the
/// events themselves tell it: three events before its broadcast an account was
/// found to hold so much.
pub open spec fn told_drained(events: Seq<DrainEvent>) -> int
    decreases events.len(),
{
    if events.len() == 0 {
        0
    } else if events.last() is Broadcast {
        told_drained(events.drop_last()) + events[events.len() - 4]->available->Some_0 - 10_000
    } else {
        told_drained(events.drop_last())
    }
}

/// The fees of the sweeps that were broadcast, as the events themselves tell
/// them: two events before its broadcast a sweep was prepared at that fee.
pub open spec fn told_fees(events: Seq<DrainEvent>) -> int
    decreases events.len(),
{
    if events.len() == 0 {
        0
    } else if events.last() is Broadcast {
        told_fees(events.drop_last()) + events[events.len() - 3]->fee
    } else {
        told_fees(events.drop_last())
    }
}

/// What the totals of a drain must be can be read off its events: what the
/// broadcast accounts held but for 10,000 each, the fees of their sweeps, and
/// how many there were. A drain whose turn it is to hear of a sweep has heard
/// what led up to it.
pub proof fn law_totals_are_what_the_events_tell(events: Seq<DrainEvent>)
    requires
        events_in_order(events),
    ensures
        drained_by(events).totals.total_drained == told_drained(events),
        drained_by(events).totals.total_fees == told_fees(events),
        drained_by(events).totals.accounts_drained == events.filter(
            |e: DrainEvent| e is Broadcast,
        ).len(),
        ({
            let run = drained_by(events);
            let n = events.len();
            &&& run.stage == DrainStage::Preparing ==> n >= 1 && events[n - 1] == (
            DrainEvent::Held { available: Some((run.amount + 10_000) as u64) }) && run.amount > 0
                && run.amount + 10_000 <= u64::MAX
            &&& run.stage == DrainStage::Signing ==> n >= 2 && events[n - 2] == (
            DrainEvent::Held { available: Some((run.amount + 10_000) as u64) }) && events[n - 1]
                == (DrainEvent::Prepared { fee: run.fee }) && run.amount + 10_000 <= u64::MAX
            &&& run.stage == DrainStage::Broadcasting ==> n >= 3 && events[n - 3] == (
            DrainEvent::Held { available: Some((run.amount + 10_000) as u64) }) && events[n - 2]
                == (DrainEvent::Prepared { fee: run.fee }) && events[n - 1] == DrainEvent::Signed
                && run.amount + 10_000 <= u64::MAX
        }),
    decreases events.len(),
{
    reveal(Seq::filter);
    if events.len() > 0 {
        let rest = events.drop_last();
        law_totals_are_what_the_events_tell(rest);
        let n = events.len();
        assert(forall|i: int| 0 <= i < rest.len() ==> #[trigger] rest[i] == events[i]);
        if rest.len() >= 1 {
            assert(rest[rest.len() - 1] == events[n - 2]);
        }
        if rest.len() >= 2 {
            assert(rest[rest.len() - 2] == events[n - 3]);
        }
        if rest.len() >= 3 {
            assert(rest[rest.len() - 3] == events[n - 4]);
        }
    }
}

/// A destination is refused where it is no address, and a sweep's keys where
/// one of them is no secret key.
pub proof fn law_bad_input_is_refused(
    destination: &str,
    checked: Result<(), String>,
    view_ok: bool,
    spend_ok: bool,
    judged: Result<(), String>,
)
    requires
        call_ensures(Drainer::check_destination, (destination,), checked),
        call_ensures(Drainer::judge_sweep_keys, (view_ok, spend_ok), judged),
    ensures
        checked is Ok <==> address_error(destination@) is None,
        checked is Err ==> checked->Err_0@ == "Invalid destination address: "@ + address_error(
            destination@,
        )->Some_0,
        judged is Ok <==> view_ok && spend_ok,
        !view_ok ==> judged->Err_0@ == "Invalid view key hex"@,
        view_ok && !spend_ok ==> judged->Err_0@ == "Invalid spend key hex"@,
{
}

/// A sweep is signed with the keys of its own entry, for the network and the
/// transaction that it was given, exactly where these keys are in order.
pub proof fn law_sweep_is_signed_with_its_own_keys(
    entry: AddressPoolEntry,
    network: Network,
    prepared: PrepareOneSidedTransactionForSigningResult,
    r: Result<Result<SignedOneSidedTransactionResult, String>, String>,
)
    requires
        call_ensures(Drainer::sign_sweep, (&entry, network, prepared), r),
    ensures
        r is Ok <==> secret_key_of(entry.view_key_hex@) is Some && secret_key_of(
            entry.spend_key_hex@,
        ) is Some,
        r is Ok ==> signing_gives(
            (
                secret_key_of(entry.view_key_hex@)->Some_0,
                secret_key_of(entry.spend_key_hex@)->Some_0,
            ),
            network,
            prepared,
            signing_outcome(r->Ok_0),
        ),
{
}

/// Totals begin at nothing, grow by a sweep only where it was broadcast, and
/// can be added to as long as they fit.
pub proof fn law_totals_add_up(
    fresh: DrainTotals,
    totals: &mut DrainTotals,
    amount: u64,
    fee: u64,
    broadcast: bool,
    fits: bool,
)
    requires
        call_ensures(DrainTotals::new, (), fresh),
        call_ensures(DrainTotals::can_add, (&*old(totals), amount, fee), fits),
        fits,
        call_ensures(DrainTotals::settle, (totals, amount, fee, broadcast), ()),
    ensures
        fresh.total_drained == 0 && fresh.total_fees == 0 && fresh.accounts_drained == 0,
        broadcast ==> final(totals).total_drained == old(totals).total_drained + amount,
        broadcast ==> final(totals).total_fees == old(totals).total_fees + fee,
        broadcast ==> final(totals).accounts_drained == old(totals).accounts_drained + 1,
        !broadcast ==> *final(totals) == *old(totals),
{
}

/// A sweep can be added exactly where none of the totals overflows.
pub proof fn law_totals_can_be_added_to(
    totals: DrainTotals,
    amount: u64,
    fee: u64,
    r: bool,
    run: DrainRun,
)
    requires
        call_ensures(DrainTotals::can_add, (&totals, amount, fee), r),
        call_ensures(DrainRun::new, (), run),
    ensures
        r <==> totals.total_drained + amount <= u64::MAX && totals.total_fees + fee <= u64::MAX
            && totals.accounts_drained < usize::MAX,
        run.next == 0,
        run.stage == DrainStage::Looking,
        run.totals.total_drained == 0,
        run.totals.total_fees == 0,
        run.totals.accounts_drained == 0,
{
}

/// The keys of an entry are judged by both of them, the view key first.
pub proof fn law_both_keys_are_judged(
    index: usize,
    view_ok: bool,
    spend_ok: bool,
    r: Result<(), String>,
    name: String,
)
    requires
        call_ensures(judge_keys, (index, view_ok, spend_ok), r),
        call_ensures(Drainer::account_name, (index,), name),
    ensures
        r is Ok <==> view_ok && spend_ok,
        !view_ok ==> r->Err_0@ == "Invalid view key hex for pool entry "@ + decimal(index as nat),
        view_ok && !spend_ok ==> r->Err_0@ == "Invalid spend key hex for pool entry "@ + decimal(
            index as nat,
        ),
        name@ == "pool_"@ + decimal(index as nat),
{
}

/// An entry that has an account is passed over, and one whose keys were refused
/// stops the registration with what was said of them.
pub proof fn law_judged_keys_decide(
    state: &mut Registration,
    index: usize,
    exists_already: bool,
    keys: Result<(), String>,
    r: Result<RegisterStep, String>,
)
    requires
        old(state).wf(),
        old(state).next < usize::MAX,
        call_ensures(Registration::settle, (state, index, exists_already, keys), r),
    ensures
        r is Ok <==> exists_already || keys is Ok,
        r is Ok ==> final(state).next == old(state).next + 1,
        r is Err ==> *final(state) == *old(state) && r->Err_0@ == keys->Err_0@,
        exists_already ==> r->Ok_0 is Skip && final(state).registered == old(state).registered,
        !exists_already && keys is Ok ==> r->Ok_0 is Create && r->Ok_0->account_name@ == "pool_"@
            + decimal(index as nat) && final(state).registered == old(state).registered + 1,
{
}

/// An output is stored for the account of its entry, with the hash and value
/// that were found and the reference that was given.
pub proof fn law_output_is_stored_as_found(
    index: usize,
    found: FoundOutput,
    payment_reference: Vec<u8>,
    r: OutputPlan,
)
    requires
        call_ensures(Drainer::plan_output, (index, found, payment_reference), r),
    ensures
        r.account_name@ == "pool_"@ + decimal(index as nat),
        r.output_hash == found.output_hash,
        r.value == found.value,
        r.payment_reference@ == payment_reference@,
{
}

/// The pool is scanned 25 blocks at a time, as the wallet is.
pub proof fn law_pool_is_scanned_as_the_wallet_is()
    ensures
        SCAN_BATCH_SIZE == 25,
        SCAN_BATCH_SIZE == crate::driver::new_wallet_driver::SCAN_BATCH_SIZE,
{
}

} // verus!
