//! Wallet drivers: the values they exchange and the decisions they take.
pub mod new_wallet_driver;
pub mod old_wallet_driver;
pub mod old_wallet_process;

use vstd::prelude::*;
use vstd::string::*;

use crate::text::{clone_opt, opt_view};
use crate::time::{is_over, secs_ns};

verus! {

/// Unified balance representation across both wallet implementations.
#[derive(Clone, Copy, Debug, PartialEq, Eq, Structural)]
pub struct WalletBalance {
    pub available: u64,
    pub pending_incoming: u64,
    pub pending_outgoing: u64,
    pub locked: u64,
}

/// Minimal transaction result returned after a send.
#[derive(Debug)]
pub struct SendResult {
    /// Transaction identifier (format varies by wallet)
    pub tx_id: String,
    /// Whether the transaction was accepted
    pub accepted: bool,
    /// Optional error message if not accepted
    pub error: Option<String>,
    /// Fee charged for this transaction (MicroMinotari), if known
    pub fee: Option<u64>,
}

/// The contents of a `SendResult`.
pub struct SendResultView {
    pub tx_id: Seq<char>,
    pub accepted: bool,
    pub error: Option<Seq<char>>,
    pub fee: Option<u64>,
}

impl View for SendResult {
    type V = SendResultView;

    open spec fn view(&self) -> SendResultView {
        SendResultView {
            tx_id: self.tx_id@,
            accepted: self.accepted,
            error: opt_view(self.error),
            fee: self.fee,
        }
    }
}

impl Clone for SendResult {
    fn clone(&self) -> (r: Self)
        ensures
            r@ == self@,
    {
        SendResult {
            tx_id: self.tx_id.clone(),
            accepted: self.accepted,
            error: clone_opt(&self.error),
            fee: self.fee,
        }
    }
}

/// Status of a completed transaction.
#[derive(Debug)]
pub struct TransactionStatus {
    pub tx_id: String,
    pub status: String,
    pub mined_height: Option<u64>,
    pub confirmations: Option<u64>,
}

/// The contents of a `TransactionStatus`.
pub struct TransactionStatusView {
    pub tx_id: Seq<char>,
    pub status: Seq<char>,
    pub mined_height: Option<u64>,
    pub confirmations: Option<u64>,
}

impl View for TransactionStatus {
    type V = TransactionStatusView;

    open spec fn view(&self) -> TransactionStatusView {
        TransactionStatusView {
            tx_id: self.tx_id@,
            status: self.status@,
            mined_height: self.mined_height,
            confirmations: self.confirmations,
        }
    }
}

impl Clone for TransactionStatus {
    fn clone(&self) -> (r: Self)
        ensures
            r@ == self@,
    {
        TransactionStatus {
            tx_id: self.tx_id.clone(),
            status: self.status.clone(),
            mined_height: self.mined_height,
            confirmations: self.confirmations,
        }
    }
}

/// UTXO information.
#[derive(Debug)]
pub struct UtxoInfo {
    pub value: u64,
    pub status: String,
}

/// The contents of a `UtxoInfo`.
pub struct UtxoInfoView {
    pub value: u64,
    pub status: Seq<char>,
}

impl View for UtxoInfo {
    type V = UtxoInfoView;

    open spec fn view(&self) -> UtxoInfoView {
        UtxoInfoView { value: self.value, status: self.status@ }
    }
}

/// The unspent outputs with the given values, in order.
pub open spec fn unspent_views(values: Seq<u64>) -> Seq<UtxoInfoView> {
    values.map_values(|v: u64| UtxoInfoView { value: v, status: "unspent"@ })
}

/// Lists unspent outputs by their values.
pub fn unspent(values: &Vec<u64>) -> (r: Vec<UtxoInfo>)
    ensures
        r@.map_values(|u: UtxoInfo| u@) == unspent_views(values@),
{
    let mut out: Vec<UtxoInfo> = Vec::new();
    let mut i: usize = 0;
    while i < values.len()
        invariant
            i <= values.len(),
            out@.map_values(|u: UtxoInfo| u@) == unspent_views(values@.take(i as int)),
        decreases values.len() - i,
    {
        let ghost before = out@.map_values(|u: UtxoInfo| u@);
        out.push(UtxoInfo { value: values[i], status: "unspent".to_owned() });
        assert(out@.map_values(|u: UtxoInfo| u@) =~= before.push(
            UtxoInfoView { value: values@[i as int], status: "unspent"@ },
        ));
        assert(unspent_views(values@.take(i + 1)) =~= unspent_views(values@.take(i as int)).push(
            UtxoInfoView { value: values@[i as int], status: "unspent"@ },
        ));
        i = i + 1;
    }
    assert(values@.take(i as int) =~= values@);
    out
}

/// What a send comes to when the driver itself fails with a message.
pub open spec fn failed_send_view(message: Seq<char>) -> SendResultView {
    SendResultView { tx_id: Seq::empty(), accepted: false, error: Some(message), fee: None }
}

/// What a driver call came to: its result, or a refusal that carries the
/// driver's message.
pub open spec fn settled_view(outcome: Result<SendResult, String>) -> SendResultView {
    match outcome {
        Ok(r) => r@,
        Err(e) => failed_send_view(e@),
    }
}

/// Turns the outcome of a driver call into a send result.
pub fn settle(outcome: Result<SendResult, String>) -> (r: SendResult)
    ensures
        r@ == settled_view(outcome),
{
    match outcome {
        Ok(r) => r,
        Err(e) => SendResult { tx_id: String::new(), accepted: false, error: Some(e), fee: None },
    }
}

/// The contents of a list of statuses.
pub open spec fn status_views(v: Seq<TransactionStatus>) -> Seq<TransactionStatusView> {
    v.map_values(|t: TransactionStatus| t@)
}

// ---------------------------------------------------------------------------
// Waiting for a stable balance
// ---------------------------------------------------------------------------

/// What a wait for a stable balance does next.
#[derive(Clone, Copy, Debug, PartialEq, Eq, Structural)]
pub enum WatchStep {
    /// Look at the balance again after so many seconds.
    Poll { secs: u64 },
    /// The balance did not change for long enough.
    Stable { balance: WalletBalance },
    /// The time is up; this is the balance last noted.
    TimedOut { balance: WalletBalance },
}

/// A wait for a stable balance under way. Times are nanoseconds since its
/// start.
#[derive(Clone, Copy, Debug, PartialEq, Eq, Structural)]
pub struct BalanceWatch {
    pub poll_secs: u64,
    pub stable_secs: u64,
    pub timeout_secs: u64,
    pub last_balance: WalletBalance,
    pub last_change_ns: u128,
}

/// Two balances differ in what is available or coming in. What goes out or is
/// locked does not count.
pub open spec fn differs(a: WalletBalance, b: WalletBalance) -> bool {
    a.available != b.available || a.pending_incoming != b.pending_incoming
}

impl BalanceWatch {
    /// The end of the wait, or another look.
    pub open spec fn poll_step(self, elapsed_ns: u128) -> WatchStep {
        if elapsed_ns > secs_ns(self.timeout_secs) {
            WatchStep::TimedOut { balance: self.last_balance }
        } else {
            WatchStep::Poll { secs: self.poll_secs }
        }
    }

    /// The wait after a look at the balance.
    pub open spec fn observed(self, current: WalletBalance, elapsed_ns: u128) -> BalanceWatch {
        if differs(current, self.last_balance) {
            BalanceWatch { last_balance: current, last_change_ns: elapsed_ns, ..self }
        } else {
            self
        }
    }

    /// What a look at the balance leads to.
    pub open spec fn observe_step(self, current: WalletBalance, elapsed_ns: u128) -> WatchStep {
        if !differs(current, self.last_balance) && elapsed_ns - self.last_change_ns > secs_ns(
            self.stable_secs,
        ) {
            WatchStep::Stable { balance: self.last_balance }
        } else {
            self.observed(current, elapsed_ns).poll_step(elapsed_ns)
        }
    }

    /// Starts a wait with a first look at the balance, taken `elapsed_ns`
    /// after its start.
    pub fn new(
        poll_secs: u64,
        stable_secs: u64,
        timeout_secs: u64,
        first: WalletBalance,
        elapsed_ns: u128,
    ) -> (r: Self)
        ensures
            r == (BalanceWatch {
                poll_secs,
                stable_secs,
                timeout_secs,
                last_balance: first,
                last_change_ns: elapsed_ns,
            }),
    {
        BalanceWatch {
            poll_secs,
            stable_secs,
            timeout_secs,
            last_balance: first,
            last_change_ns: elapsed_ns,
        }
    }

    /// Decides whether to look again.
    pub fn poll(&self, elapsed_ns: u128) -> (r: WatchStep)
        ensures
            r == self.poll_step(elapsed_ns),
    {
        if is_over(elapsed_ns, self.timeout_secs) {
            WatchStep::TimedOut { balance: self.last_balance }
        } else {
            WatchStep::Poll { secs: self.poll_secs }
        }
    }

    /// Takes note of a look at the balance. A change starts the stable time
    /// anew.
    pub fn observe(&mut self, current: WalletBalance, elapsed_ns: u128) -> (r: WatchStep)
        ensures
            r == old(self).observe_step(current, elapsed_ns),
            *final(self) == old(self).observed(current, elapsed_ns),
    {
        if current.available != self.last_balance.available || current.pending_incoming
            != self.last_balance.pending_incoming {
            self.last_balance = current;
            self.last_change_ns = elapsed_ns;
        } else {
            let since: u128 = if elapsed_ns > self.last_change_ns {
                elapsed_ns - self.last_change_ns
            } else {
                0
            };
            if is_over(since, self.stable_secs) {
                return WatchStep::Stable { balance: self.last_balance };
            }
        }
        self.poll(elapsed_ns)
    }
}

/// A balance is called stable only where it was the same at the latest look as
/// at an earlier one, and the last change lies further back than the stable
/// time.
pub proof fn law_stable_means_unchanged(
    watch: BalanceWatch,
    current: WalletBalance,
    elapsed_ns: u128,
)
    ensures
        watch.observe_step(current, elapsed_ns) matches WatchStep::Stable { balance } ==> balance
            == watch.last_balance && !differs(current, balance) && elapsed_ns
            > watch.last_change_ns + secs_ns(watch.stable_secs),
        watch.observe_step(current, elapsed_ns) is Poll ==> elapsed_ns <= secs_ns(
            watch.timeout_secs,
        ),
{
}

/// A look at a balance, `elapsed_ns` after the start of the wait.
pub struct BalanceLook {
    pub balance: WalletBalance,
    pub elapsed_ns: u128,
}

/// A wait after a series of looks.
pub open spec fn watch_after(first: BalanceWatch, looks: Seq<BalanceLook>) -> BalanceWatch
    decreases looks.len(),
{
    if looks.len() == 0 {
        first
    } else {
        watch_after(first, looks.drop_last()).observed(
            looks.last().balance,
            looks.last().elapsed_ns,
        )
    }
}

/// No look lies before an earlier one, nor before `from_ns`.
pub open spec fn balance_looks_in_time(from_ns: u128, looks: Seq<BalanceLook>) -> bool {
    forall|i: int, j: int|
        #![trigger looks[i], looks[j]]
        0 <= i <= j < looks.len() ==> from_ns <= looks[i].elapsed_ns <= looks[j].elapsed_ns
}

/// What a wait has noted: the amounts of the latest look, and a change that
/// lies no further back than any look that found other amounts.
proof fn lemma_watch_notes(first: BalanceWatch, looks: Seq<BalanceLook>)
    requires
        balance_looks_in_time(first.last_change_ns, looks),
    ensures
        ({
            let w = watch_after(first, looks);
            let (available, incoming) = if looks.len() == 0 {
                (first.last_balance.available, first.last_balance.pending_incoming)
            } else {
                (looks.last().balance.available, looks.last().balance.pending_incoming)
            };
            &&& w.last_balance.available == available
            &&& w.last_balance.pending_incoming == incoming
            &&& w.poll_secs == first.poll_secs
            &&& w.stable_secs == first.stable_secs
            &&& w.timeout_secs == first.timeout_secs
            &&& w.last_change_ns >= first.last_change_ns
            &&& looks.len() == 0 ==> w.last_change_ns == first.last_change_ns
            &&& looks.len() > 0 ==> w.last_change_ns <= looks.last().elapsed_ns
            &&& forall|k: int|
                0 <= k < looks.len() && ((#[trigger] looks[k]).balance.available != available
                    || looks[k].balance.pending_incoming != incoming) ==> w.last_change_ns
                    >= looks[k].elapsed_ns
        }),
    decreases looks.len(),
{
    if looks.len() > 0 {
        let rest = looks.drop_last();
        assert(balance_looks_in_time(first.last_change_ns, rest)) by {
            assert forall|i: int, j: int|
                #![trigger rest[i], rest[j]]
                0 <= i <= j < rest.len() implies first.last_change_ns <= rest[i].elapsed_ns
                <= rest[j].elapsed_ns by {
                assert(rest[i] == looks[i] && rest[j] == looks[j]);
            }
        }
        lemma_watch_notes(first, rest);
        let last = looks.len() - 1;
        assert(looks[last] == looks.last());
        assert(first.last_change_ns <= looks[last].elapsed_ns);
        let w = watch_after(first, looks);
        if rest.len() > 0 {
            assert(rest.last() == looks[last - 1]);
            assert(looks[last - 1].elapsed_ns <= looks[last].elapsed_ns);
        }
        assert forall|k: int|
            0 <= k < looks.len() && ((#[trigger] looks[k]).balance.available
                != looks.last().balance.available || looks[k].balance.pending_incoming
                != looks.last().balance.pending_incoming) implies w.last_change_ns
            >= looks[k].elapsed_ns by {
            assert(k < last);
            assert(rest[k] == looks[k]);
            assert(looks[k].elapsed_ns <= looks[last].elapsed_ns);
        }
    }
}

/// A balance is called stable only where every look of the stable time found
/// what the latest one found, available and coming in; the balance handed back
/// holds these amounts. While such a change lies no further back than the
/// stable time, the wait goes on until its time is up.
pub proof fn law_stable_balance_held_still(
    first: BalanceWatch,
    looks: Seq<BalanceLook>,
    now: BalanceLook,
    k: int,
    watch: &mut BalanceWatch,
    r: WatchStep,
)
    requires
        balance_looks_in_time(first.last_change_ns, looks),
        0 <= k < looks.len(),
        *old(watch) == watch_after(first, looks),
        call_ensures(BalanceWatch::observe, (watch, now.balance, now.elapsed_ns), r),
    ensures
        *final(watch) == watch_after(first, looks.push(now)),
        r matches WatchStep::Stable { balance } ==> {
            &&& balance.available == now.balance.available
            &&& balance.pending_incoming == now.balance.pending_incoming
            &&& now.elapsed_ns > first.last_change_ns + first.stable_secs * 1_000_000_000
            &&& looks[k].elapsed_ns + first.stable_secs * 1_000_000_000 >= now.elapsed_ns
                ==> looks[k].balance.available == now.balance.available
                && looks[k].balance.pending_incoming == now.balance.pending_incoming
        },
        (now.balance.available != looks.last().balance.available
            || now.balance.pending_incoming != looks.last().balance.pending_incoming)
            ==> !(r is Stable),
        r is Poll ==> now.elapsed_ns <= first.timeout_secs * 1_000_000_000,
        r is TimedOut ==> now.elapsed_ns > first.timeout_secs * 1_000_000_000,
        r matches WatchStep::Poll { secs } ==> secs == first.poll_secs,
        r matches WatchStep::TimedOut { balance } ==> balance.available == now.balance.available
            && balance.pending_incoming == now.balance.pending_incoming,
{
    assert(looks.push(now).drop_last() =~= looks);
    lemma_watch_notes(first, looks);
}

proof fn lemma_watch_is_still(first: BalanceWatch, looks: Seq<BalanceLook>, m: int)
    requires
        balance_looks_in_time(first.last_change_ns, looks),
        0 <= m < looks.len(),
        forall|k: int|
            m <= k < looks.len() ==> (#[trigger] looks[k]).balance.available
                == looks[m].balance.available && looks[k].balance.pending_incoming
                == looks[m].balance.pending_incoming,
    ensures
        watch_after(first, looks).last_change_ns <= looks[m].elapsed_ns,
    decreases looks.len(),
{
    lemma_watch_notes(first, looks);
    if m < looks.len() - 1 {
        let rest = looks.drop_last();
        assert(balance_looks_in_time(first.last_change_ns, rest)) by {
            assert forall|i: int, j: int|
                #![trigger rest[i], rest[j]]
                0 <= i <= j < rest.len() implies first.last_change_ns <= rest[i].elapsed_ns
                <= rest[j].elapsed_ns by {
                assert(rest[i] == looks[i] && rest[j] == looks[j]);
            }
        }
        assert forall|k: int| m <= k < rest.len() implies (#[trigger] rest[k]).balance.available
            == rest[m].balance.available && rest[k].balance.pending_incoming
            == rest[m].balance.pending_incoming by {
            assert(rest[k] == looks[k]);
        }
        lemma_watch_is_still(first, rest, m);
        lemma_watch_notes(first, rest);
        let last = looks.len() - 1;
        assert(rest.last() == looks[last - 1]);
        assert(looks[last].balance.available == looks[m].balance.available);
    }
}

/// A balance that every look since look `m` has found is called stable once
/// more than the stable time has passed since look `m`, whatever goes out or
/// is locked meanwhile.
pub proof fn law_still_balance_is_stable(
    first: BalanceWatch,
    looks: Seq<BalanceLook>,
    now: BalanceLook,
    m: int,
    watch: &mut BalanceWatch,
    r: WatchStep,
)
    requires
        balance_looks_in_time(first.last_change_ns, looks),
        0 <= m < looks.len(),
        forall|k: int|
            m <= k < looks.len() ==> (#[trigger] looks[k]).balance.available
                == now.balance.available && looks[k].balance.pending_incoming
                == now.balance.pending_incoming,
        now.elapsed_ns > looks[m].elapsed_ns + first.stable_secs * 1_000_000_000,
        *old(watch) == watch_after(first, looks),
        call_ensures(BalanceWatch::observe, (watch, now.balance, now.elapsed_ns), r),
    ensures
        r is Stable,
{
    assert(looks[m].balance.available == now.balance.available);
    lemma_watch_notes(first, looks);
    lemma_watch_is_still(first, looks, m);
    assert(looks[looks.len() - 1].balance.available == now.balance.available);
}

/// A wait begins with its first look, and a look that is put off counts for
/// nothing: until the time is up the balance is looked at again.
pub proof fn law_watch_begins_with_a_look(
    poll_secs: u64,
    stable_secs: u64,
    timeout_secs: u64,
    balance: WalletBalance,
    elapsed_ns: u128,
    watch: BalanceWatch,
    later_ns: u128,
    r: WatchStep,
)
    requires
        call_ensures(
            BalanceWatch::new,
            (poll_secs, stable_secs, timeout_secs, balance, elapsed_ns),
            watch,
        ),
        call_ensures(BalanceWatch::poll, (&watch, later_ns), r),
    ensures
        watch.last_balance == balance,
        watch.last_change_ns == elapsed_ns,
        watch.stable_secs == stable_secs,
        watch.timeout_secs == timeout_secs,
        watch.poll_secs == poll_secs,
        later_ns <= timeout_secs * 1_000_000_000 ==> r == (WatchStep::Poll { secs: poll_secs }),
        later_ns > timeout_secs * 1_000_000_000 ==> r == (WatchStep::TimedOut { balance }),
{
}

/// A driver's answer stands as it is. A driver that fails leaves a refusal,
/// with its message, without an identifier and without a fee.
pub proof fn law_failed_driver_is_a_refusal(outcome: Result<SendResult, String>, r: SendResult)
    requires
        call_ensures(settle, (outcome,), r),
    ensures
        outcome matches Ok(sent) ==> {
            &&& r.tx_id@ == sent.tx_id@
            &&& r.accepted == sent.accepted
            &&& r.fee == sent.fee
            &&& r.error is Some <==> sent.error is Some
            &&& r.error is Some ==> r.error->Some_0@ == sent.error->Some_0@
        },
        outcome matches Err(message) ==> {
            &&& !r.accepted
            &&& r.tx_id@.len() == 0
            &&& r.fee is None
            &&& r.error is Some
            &&& r.error->Some_0@ == message@
        },
{
}

/// Each output is listed once, in its place, with its value.
pub proof fn law_outputs_are_listed_by_value(values: Vec<u64>, r: Vec<UtxoInfo>)
    requires
        call_ensures(unspent, (&values,), r),
    ensures
        r.len() == values.len(),
        forall|i: int|
            0 <= i < values.len() ==> (#[trigger] r@[i]).value == values@[i] && r@[i].status@
                == "unspent"@,
{
    let views = r@.map_values(|u: UtxoInfo| u@);
    assert(views.len() == r.len());
    assert forall|i: int| 0 <= i < values.len() implies (#[trigger] r@[i]).value == values@[i]
        && r@[i].status@ == "unspent"@ by {
        assert(views[i] == r@[i]@);
        assert(unspent_views(values@)[i].value == values@[i]);
    }
}

/// A look that finds another amount, available or coming in, is noted as it is
/// and starts the stable time anew. One that finds the same changes nothing, and
/// hands back what was noted once the stable time has passed.
pub proof fn law_watch_notes_each_change(
    watch: &mut BalanceWatch,
    current: WalletBalance,
    elapsed_ns: u128,
    r: WatchStep,
)
    requires
        call_ensures(BalanceWatch::observe, (watch, current, elapsed_ns), r),
    ensures
        ({
            let noted = old(watch).last_balance;
            let changed = current.available != noted.available || current.pending_incoming
                != noted.pending_incoming;
            let stable = !changed && elapsed_ns > old(watch).last_change_ns
                + old(watch).stable_secs * 1_000_000_000;
            let late = elapsed_ns > old(watch).timeout_secs * 1_000_000_000;
            &&& changed ==> final(watch).last_balance == current && final(watch).last_change_ns
                == elapsed_ns
            &&& !changed ==> final(watch).last_balance == noted && final(watch).last_change_ns
                == old(watch).last_change_ns
            &&& final(watch).poll_secs == old(watch).poll_secs
            &&& final(watch).stable_secs == old(watch).stable_secs
            &&& final(watch).timeout_secs == old(watch).timeout_secs
            &&& stable ==> r == (WatchStep::Stable { balance: noted })
            &&& !stable && late ==> r == (WatchStep::TimedOut {
                balance: final(watch).last_balance,
            })
            &&& !stable && !late ==> r == (WatchStep::Poll { secs: old(watch).poll_secs })
        }),
{
}

} // verus!
