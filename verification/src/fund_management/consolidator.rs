//! Sweeping a wallet's funds into a single UTXO.
use vstd::prelude::*;
use vstd::string::*;

use crate::driver::{SendResult, TransactionStatus, WalletBalance};
use crate::text::{concat, debug_form, debug_opt, opt_view};
use crate::time::{is_within, secs_ns};

verus! {

/// What is kept back for fees (estimate, in MicroMinotari).
pub const FEE_RESERVE: u64 = 10_000;

/// Seconds between two looks at the consolidation transaction.
pub const MINED_POLL_SECS: u64 = 30;

/// Consolidates UTXOs back into a single UTXO by sending total balance to self.
pub struct Consolidator;

/// What a consolidation does with a balance.
#[derive(Clone, Copy, Debug, PartialEq, Eq, Structural)]
pub enum ConsolidationPlan {
    /// There is nothing to consolidate.
    NoFunds,
    /// What is there does not cover the fee reserve and more.
    TooLow,
    /// Send `amount` to self.
    Send { amount: u64 },
}

/// Everything is sent but the fee reserve.
pub open spec fn consolidation_plan(available: u64) -> ConsolidationPlan {
    if available == 0 {
        ConsolidationPlan::NoFunds
    } else if available <= FEE_RESERVE {
        ConsolidationPlan::TooLow
    } else {
        ConsolidationPlan::Send { amount: (available - FEE_RESERVE) as u64 }
    }
}

/// Why a consolidation stopped.
#[derive(Debug)]
pub enum ConsolidateError {
    /// The driver failed.
    SendFailed { cause: String },
    /// The wallet turned the transaction down.
    Rejected { error: Option<String> },
}

/// What a consolidation error says.
pub open spec fn consolidate_error_text(e: ConsolidateError) -> Seq<char> {
    match e {
        ConsolidateError::SendFailed { .. } => "Consolidation send failed"@,
        ConsolidateError::Rejected { error } => "Consolidation rejected: "@ + debug_form(
            opt_view(error),
        ),
    }
}

/// What is said of a consolidation that the wallet turned down, with its error
/// in debug form.
pub fn rejected_text(error: &str) -> (r: String)
    ensures
        r@ == "Consolidation rejected: "@ + error@,
{
    concat("Consolidation rejected: ", error)
}

impl ConsolidateError {
    /// What the error says.
    pub fn message(&self) -> (r: String)
        ensures
            r@ == consolidate_error_text(*self),
    {
        match self {
            ConsolidateError::SendFailed { .. } => "Consolidation send failed".to_owned(),
            ConsolidateError::Rejected { error } => rejected_text(debug_opt(error).as_str()),
        }
    }
}

impl Consolidator {
    /// Sweep all funds to a single UTXO.
    pub fn consolidate(balance: WalletBalance) -> (r: ConsolidationPlan)
        ensures
            r == consolidation_plan(balance.available),
    {
        if balance.available == 0 {
            return ConsolidationPlan::NoFunds;
        }
        let amount: u64 = balance.available.saturating_sub(FEE_RESERVE);
        if amount == 0 {
            ConsolidationPlan::TooLow
        } else {
            ConsolidationPlan::Send { amount }
        }
    }

    /// The transaction to wait for, where the send was accepted.
    pub fn settle_send(outcome: Result<SendResult, String>) -> (r: Result<String, ConsolidateError>)
        ensures
            match outcome {
                Ok(s) => if s.accepted {
                    r matches Ok(tx_id) && tx_id@ == s.tx_id@
                } else {
                    r matches Err(ConsolidateError::Rejected { error }) && opt_view(error)
                        == s@.error
                },
                Err(cause) => r matches Err(ConsolidateError::SendFailed { cause: c }) && c@
                    == cause@,
            },
    {
        match outcome {
            Ok(s) => if s.accepted {
                Ok(s.tx_id)
            } else {
                Err(ConsolidateError::Rejected { error: s.error })
            },
            Err(cause) => Err(ConsolidateError::SendFailed { cause }),
        }
    }

    /// Whether to go on waiting for the transaction to be mined: it was not
    /// seen mined at the last look, if there was one, and the time is not up.
    pub fn keeps_waiting(
        elapsed_ns: u128,
        confirmation_wait_secs: u64,
        last: &Option<TransactionStatus>,
    ) -> (r: bool)
        ensures
            r == (elapsed_ns < secs_ns(confirmation_wait_secs) && !(last matches Some(s)
                && s.mined_height is Some)),
    {
        let mined = match last {
            Some(s) => s.mined_height.is_some(),
            None => false,
        };
        !mined && is_within(elapsed_ns, confirmation_wait_secs)
    }
}

/// A consolidation keeps back exactly the fee reserve.
pub proof fn law_reserve_is_kept(available: u64)
    ensures
        consolidation_plan(available) matches ConsolidationPlan::Send { amount } ==> amount > 0
            && amount + FEE_RESERVE == available,
        consolidation_plan(available) is Send <==> available > FEE_RESERVE,
{
}

/// A consolidation sends everything that is available but 10,000 for the fee,
/// where more than that is available. What is pending or locked has no part in
/// it.
pub proof fn law_all_but_the_fee_is_swept(balance: WalletBalance, r: ConsolidationPlan)
    requires
        call_ensures(Consolidator::consolidate, (balance,), r),
    ensures
        r == ConsolidationPlan::NoFunds <==> balance.available == 0,
        r == ConsolidationPlan::TooLow <==> 0 < balance.available <= 10_000,
        r is Send <==> balance.available > 10_000,
        r matches ConsolidationPlan::Send { amount } ==> amount + 10_000 == balance.available,
{
}

/// Of two balances the larger is swept with the difference more.
pub proof fn law_larger_balance_is_swept_with_the_difference(
    one: WalletBalance,
    other: WalletBalance,
    a: ConsolidationPlan,
    b: ConsolidationPlan,
)
    requires
        call_ensures(Consolidator::consolidate, (one,), a),
        call_ensures(Consolidator::consolidate, (other,), b),
        a is Send,
        one.available <= other.available,
    ensures
        b is Send,
        b->amount - a->amount == other.available - one.available,
{
}

/// A send is waited for exactly where it was accepted, under its identifier.
/// One that was turned down, and a driver that failed, end the consolidation
/// with what they said.
pub proof fn law_only_an_accepted_sweep_is_waited_for(
    outcome: Result<SendResult, String>,
    r: Result<String, ConsolidateError>,
)
    requires
        call_ensures(Consolidator::settle_send, (outcome,), r),
    ensures
        r is Ok <==> outcome is Ok && outcome->Ok_0.accepted,
        r is Ok ==> r->Ok_0@ == outcome->Ok_0.tx_id@,
        outcome is Err ==> r->Err_0 is SendFailed && r->Err_0->cause@ == outcome->Err_0@,
        outcome is Ok && !outcome->Ok_0.accepted ==> r->Err_0 is Rejected && (
        r->Err_0->error is Some <==> outcome->Ok_0.error is Some) && (outcome->Ok_0.error is Some
            ==> r->Err_0->error->Some_0@ == outcome->Ok_0.error->Some_0@),
{
}

/// The wait goes on while its time is not up and the transaction was not seen
/// mined, and only then.
pub proof fn law_wait_ends_mined_or_in_time(
    elapsed_ns: u128,
    confirmation_wait_secs: u64,
    last: Option<TransactionStatus>,
    r: bool,
)
    requires
        call_ensures(Consolidator::keeps_waiting, (elapsed_ns, confirmation_wait_secs, &last), r),
    ensures
        elapsed_ns >= confirmation_wait_secs * 1_000_000_000 ==> !r,
        last is Some && last->Some_0.mined_height is Some ==> !r,
        elapsed_ns < confirmation_wait_secs * 1_000_000_000 && (last is None
            || last->Some_0.mined_height is None) ==> r,
{
}

/// What a consolidation error says: what the wallet said where it turned the
/// transaction down.
pub proof fn law_consolidate_error_says_what_was_said(
    e: ConsolidateError,
    r: String,
    error: &str,
    rejected: String,
)
    requires
        call_ensures(ConsolidateError::message, (&e,), r),
        call_ensures(rejected_text, (error,), rejected),
    ensures
        rejected@ == "Consolidation rejected: "@ + error@,
        e is SendFailed ==> r@ == "Consolidation send failed"@,
        e matches ConsolidateError::Rejected { error } ==> r@ == "Consolidation rejected: "@
            + debug_form(opt_view(error)),
{
}

/// A consolidation transaction is looked at every 30 seconds.
pub proof fn law_sweep_is_looked_at_every_half_minute()
    ensures
        MINED_POLL_SECS == 30,
{
}

} // verus!
