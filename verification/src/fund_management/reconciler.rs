//! Balance verification between scenarios and at the end of a run.
use vstd::prelude::*;

use crate::driver::WalletBalance;
use crate::metrics::recorder::{
    fee_sum, MetricsCollector, MetricsView, TransactionRecord, TransactionRecordView,
};

verus! {

/// Verifies balances between scenarios and at end of test.
pub struct Reconciler;

/// What a wallet should hold: what it began with, less the fees paid, and
/// nothing where the fees are more than that.
pub open spec fn expected_balance(initial_balance: u64, fees: int) -> int {
    if fees <= initial_balance {
        initial_balance - fees
    } else {
        0
    }
}

/// Two amounts differ by no more than the tolerance.
pub open spec fn close(a: int, b: int, tolerance: u64) -> bool {
    -tolerance <= a - b <= tolerance
}

impl Reconciler {
    /// Check that wallet balance matches expected value (initial - cumulative fees).
    /// Returns (actual_balance, expected_balance, matches).
    pub fn verify_balance(
        balance: WalletBalance,
        initial_balance: u64,
        collector: &MetricsCollector,
        tolerance: u64,
    ) -> (r: (u64, u64, bool))
        requires
            collector.wf(),
            balance.available + balance.pending_incoming <= u64::MAX,
        ensures
            r.0 == balance.available + balance.pending_incoming,
            r.1 == expected_balance(initial_balance, fee_sum(collector@.transactions) as int),
            r.2 == close(r.0 as int, r.1 as int, tolerance),
    {
        let actual: u64 = balance.available + balance.pending_incoming;
        let expected: u64 = initial_balance.saturating_sub(collector.total_fees());
        let apart: u64 = if actual < expected {
            expected - actual
        } else {
            actual - expected
        };
        (actual, expected, apart <= tolerance)
    }

    /// Inter-scenario checkpoint: the stable balance is handed back whether or
    /// not the balance now is as expected; the flag tells of a drift.
    pub fn checkpoint(
        stable: WalletBalance,
        now: WalletBalance,
        initial_balance: u64,
        collector: &MetricsCollector,
        tolerance: u64,
    ) -> (r: (WalletBalance, bool))
        requires
            collector.wf(),
            now.available + now.pending_incoming <= u64::MAX,
        ensures
            r.0 == stable,
            r.1 == !close(
                now.available + now.pending_incoming,
                expected_balance(initial_balance, fee_sum(collector@.transactions) as int),
                tolerance,
            ),
    {
        let (_actual, _expected, ok) = Self::verify_balance(
            now,
            initial_balance,
            collector,
            tolerance,
        );
        (stable, !ok)
    }
}

/// A wallet that lost exactly the recorded fees reconciles at any tolerance.
pub proof fn law_exact_fees_reconcile(initial_balance: u64, fees: nat, tolerance: u64)
    requires
        fees <= initial_balance,
    ensures
        close(initial_balance - fees, expected_balance(initial_balance, fees as int), tolerance),
{
}

/// One more recorded fee lowers the expected balance by that fee, as long as
/// the fees do not exceed what the wallet began with.
pub proof fn law_fee_lowers_expectation(
    metrics: MetricsView,
    record: TransactionRecordView,
    initial_balance: u64,
)
    requires
        record.fee is Some,
        fee_sum(metrics.transactions.push(record)) <= initial_balance,
    ensures
        expected_balance(initial_balance, fee_sum(metrics.transactions.push(record)) as int)
            == expected_balance(initial_balance, fee_sum(metrics.transactions) as int)
            - record.fee->Some_0,
{
    assert(metrics.transactions.push(record).drop_last() =~= metrics.transactions);
}

/// A balance reconciles where it differs from what is expected by no more than
/// the tolerance, above or below, and nowhere else. What is held against the
/// expectation is all that the wallet has or is about to receive.
pub proof fn law_drift_beyond_tolerance_is_told(
    balance: WalletBalance,
    initial_balance: u64,
    collector: MetricsCollector,
    tolerance: u64,
    r: (u64, u64, bool),
)
    requires
        call_ensures(
            Reconciler::verify_balance,
            (balance, initial_balance, &collector, tolerance),
            r,
        ),
    ensures
        r.0 == balance.available + balance.pending_incoming,
        r.0 - r.1 > tolerance ==> !r.2,
        r.1 - r.0 > tolerance ==> !r.2,
        r.0 - r.1 <= tolerance && r.1 - r.0 <= tolerance ==> r.2,
{
}

/// Two amounts further apart than the tolerance, in either direction, are not
/// close, and all others are.
pub proof fn law_close_is_within_tolerance(a: int, b: int, tolerance: u64)
    ensures
        a - b > tolerance ==> !close(a, b, tolerance),
        b - a > tolerance ==> !close(a, b, tolerance),
        a - b <= tolerance && b - a <= tolerance ==> close(a, b, tolerance),
{
}

/// A wallet with nothing recorded is expected to hold what it began with. With
/// each record the expectation falls by the record's fee, down to nothing, and
/// the tolerance and the balance have no part in it.
pub proof fn law_expectation_follows_the_fees(
    balance: WalletBalance,
    later: WalletBalance,
    initial_balance: u64,
    tolerance: u64,
    later_tolerance: u64,
    fresh: MetricsCollector,
    first: (u64, u64, bool),
    collector: &mut MetricsCollector,
    record: TransactionRecord,
    before: (u64, u64, bool),
    after: (u64, u64, bool),
)
    requires
        call_ensures(MetricsCollector::new, (), fresh),
        call_ensures(
            Reconciler::verify_balance,
            (balance, initial_balance, &fresh, tolerance),
            first,
        ),
        call_ensures(MetricsCollector::record_transaction, (collector, record), ()),
        call_ensures(
            Reconciler::verify_balance,
            (balance, initial_balance, &*old(collector), tolerance),
            before,
        ),
        call_ensures(
            Reconciler::verify_balance,
            (later, initial_balance, &*final(collector), later_tolerance),
            after,
        ),
    ensures
        first.1 == initial_balance,
        record.fee is None ==> after.1 == before.1,
        record.fee matches Some(fee) ==> after.1 == if before.1 >= fee {
            before.1 - fee
        } else {
            0
        },
{
    let s = old(collector)@.transactions;
    assert(s.push(record@).drop_last() =~= s);
}

/// A checkpoint hands back the stable balance as it came, and warns exactly
/// where the balance now does not reconcile.
pub proof fn law_checkpoint_warns_of_drift(
    stable: WalletBalance,
    now: WalletBalance,
    initial_balance: u64,
    collector: MetricsCollector,
    tolerance: u64,
    check: (u64, u64, bool),
    r: (WalletBalance, bool),
)
    requires
        call_ensures(
            Reconciler::verify_balance,
            (now, initial_balance, &collector, tolerance),
            check,
        ),
        call_ensures(
            Reconciler::checkpoint,
            (stable, now, initial_balance, &collector, tolerance),
            r,
        ),
    ensures
        r.0 == stable,
        r.1 == !check.2,
        r.1 <==> now.available + now.pending_incoming - check.1 > tolerance || check.1
            - now.available - now.pending_incoming > tolerance,
{
}

} // verus!
