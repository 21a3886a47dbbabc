//! UTXO splitting in rounds.
use vstd::arithmetic::div_mod::{lemma_fundamental_div_mod, lemma_fundamental_div_mod_converse};
use vstd::prelude::*;
use vstd::string::*;

use crate::driver::{SendResult, WalletBalance};
use crate::metrics::recorder::{
    fee_sum, send_record, MetricsCollector, MetricsView, Timing, TransactionRecord,
};
use crate::text::{debug_form, debug_opt, decimal, labelled, opt_view};
use crate::time::{is_over, secs_ns};

verus! {

/// Seconds between two looks at a wallet with pending transactions.
pub const PENDING_POLL_SECS: u64 = 30;

/// What to do about a wallet that may have pending transactions.
#[derive(Clone, Copy, Debug, PartialEq, Eq, Structural)]
pub enum PendingStep {
    /// Nothing is pending.
    Clear,
    /// Something is pending, and the wait is over all the same.
    TimedOut,
    /// Look again after so many seconds.
    Wait { secs: u64 },
}

/// Nothing is on its way into or out of the wallet.
pub open spec fn nothing_pending(balance: WalletBalance) -> bool {
    balance.pending_incoming == 0 && balance.pending_outgoing == 0
}

/// Wait until nothing is pending, at most `max_wait_secs`.
pub open spec fn pending_step(
    balance: WalletBalance,
    elapsed_ns: u128,
    max_wait_secs: u64,
) -> PendingStep {
    if nothing_pending(balance) {
        PendingStep::Clear
    } else if elapsed_ns > secs_ns(max_wait_secs) {
        PendingStep::TimedOut
    } else {
        PendingStep::Wait { secs: PENDING_POLL_SECS }
    }
}

/// Poll until both pending_incoming and pending_outgoing are zero.
pub fn wait_for_pending_clear(
    balance: WalletBalance,
    elapsed_ns: u128,
    max_wait_secs: u64,
) -> (r: PendingStep)
    ensures
        r == pending_step(balance, elapsed_ns, max_wait_secs),
{
    if balance.pending_incoming == 0 && balance.pending_outgoing == 0 {
        PendingStep::Clear
    } else if is_over(elapsed_ns, max_wait_secs) {
        PendingStep::TimedOut
    } else {
        PendingStep::Wait { secs: PENDING_POLL_SECS }
    }
}

/// Why a split stopped.
#[derive(Debug)]
pub enum SplitError {
    /// The driver failed.
    Failed { round: u64, cause: String },
    /// The wallet turned the split down.
    Rejected { round: u64, error: Option<String> },
}

/// What a split error says.
pub open spec fn split_error_text(e: SplitError) -> Seq<char> {
    match e {
        SplitError::Failed { round, .. } => "Split round "@ + decimal(round as nat) + " failed"@,
        SplitError::Rejected { round, error } => "Split round "@ + decimal(round as nat)
            + " rejected: "@ + debug_form(opt_view(error)),
    }
}

/// What is said of a round that the wallet turned down, with its error in
/// debug form.
pub fn rejected_round_text(round: u64, error: &str) -> (r: String)
    ensures
        r@ == "Split round "@ + decimal(round as nat) + " rejected: "@ + error@,
{
    let mut text = labelled("Split round ", round);
    text.append(" rejected: ");
    text.append(error);
    text
}

impl SplitError {
    /// What the error says.
    pub fn message(&self) -> (r: String)
        ensures
            r@ == split_error_text(*self),
    {
        match self {
            SplitError::Failed { round, .. } => {
                let mut text = labelled("Split round ", *round);
                text.append(" failed");
                text
            },
            SplitError::Rejected { round, error } => rejected_round_text(
                *round,
                debug_opt(error).as_str(),
            ),
        }
    }
}

/// What a split does next.
#[derive(Clone, Copy, Debug, PartialEq, Eq, Structural)]
pub enum SplitAction {
    /// Create `count` UTXOs of `amount_per_utxo`.
    Split { round: u64, amount_per_utxo: u64, count: u64 },
    /// Wait until the outputs of the round are confirmed, at most so long.
    AwaitConfirmation { max_wait_secs: u64 },
    /// All rounds are done.
    Done { rounds: u64 },
}

/// A split under way.
#[derive(Clone, Copy, Debug, PartialEq, Eq, Structural)]
pub struct SplitRun {
    pub amount_per_utxo: u64,
    pub max_per_round: u64,
    pub confirmation_wait_secs: u64,
    /// UTXOs still to be created.
    pub remaining: u64,
    /// Rounds that were accepted.
    pub round: u64,
    /// The last round is waiting to be confirmed.
    pub awaiting: bool,
}

impl SplitRun {
    /// How many UTXOs the next round creates.
    pub open spec fn batch(self) -> u64 {
        if self.remaining < self.max_per_round {
            self.remaining
        } else {
            self.max_per_round
        }
    }

    /// Where there are rounds to come, they make progress, and their amounts can
    /// be computed; where one is to be waited for, so can the wait; and the
    /// rounds can be counted.
    pub open spec fn wf(self) -> bool {
        &&& self.round + self.remaining <= u64::MAX
        &&& self.remaining > 0 ==> self.max_per_round > 0 && self.amount_per_utxo * self.batch()
            <= u64::MAX
        &&& self.remaining > 0 || self.awaiting ==> self.confirmation_wait_secs * 10 <= u64::MAX
    }

    /// What is to be done now.
    pub open spec fn action(self) -> SplitAction {
        if self.awaiting {
            SplitAction::AwaitConfirmation {
                max_wait_secs: (self.confirmation_wait_secs * 10) as u64,
            }
        } else if self.remaining == 0 {
            SplitAction::Done { rounds: self.round }
        } else {
            SplitAction::Split {
                round: (self.round + 1) as u64,
                amount_per_utxo: self.amount_per_utxo,
                count: self.batch(),
            }
        }
    }

    /// The split after an accepted round.
    pub open spec fn accepted(self) -> SplitRun {
        SplitRun {
            remaining: (self.remaining - self.batch()) as u64,
            round: (self.round + 1) as u64,
            awaiting: true,
            ..self
        }
    }

    /// The split after a wait for confirmation.
    pub open spec fn confirmed(self) -> SplitRun {
        SplitRun { awaiting: false, ..self }
    }

    /// Decides what to do now.
    pub fn next(&self) -> (r: SplitAction)
        requires
            self.wf(),
        ensures
            r == self.action(),
    {
        if self.awaiting {
            SplitAction::AwaitConfirmation { max_wait_secs: self.confirmation_wait_secs * 10 }
        } else if self.remaining == 0 {
            SplitAction::Done { rounds: self.round }
        } else {
            let count: u64 = if self.remaining < self.max_per_round {
                self.remaining
            } else {
                self.max_per_round
            };
            SplitAction::Split {
                round: self.round + 1,
                amount_per_utxo: self.amount_per_utxo,
                count,
            }
        }
    }

    /// Takes note of the outcome of a round. A round that the driver carried
    /// out is recorded, accepted or not; one that is not accepted ends the
    /// split.
    pub fn settle_round(
        &mut self,
        collector: &mut MetricsCollector,
        wallet: &str,
        outcome: Result<SendResult, String>,
        timing: Timing,
    ) -> (r: Result<(), SplitError>)
        requires
            old(self).wf(),
            !old(self).awaiting,
            old(self).remaining > 0,
            old(collector).wf(),
            outcome matches Ok(s) ==> (s.fee matches Some(f) ==> fee_sum(
                old(collector)@.transactions,
            ) + f <= u64::MAX),
        ensures
            final(self).wf(),
            final(collector).wf(),
            match outcome {
                Ok(s) => {
                    &&& final(collector)@ == (MetricsView {
                        transactions: old(collector)@.transactions.push(
                            send_record(
                                wallet@,
                                "utxo_split"@,
                                "split_round_"@ + decimal((old(self).round + 1) as nat),
                                (old(self).amount_per_utxo * old(self).batch()) as u64,
                                s@,
                                timing,
                            ),
                        ),
                        ..old(collector)@
                    })
                    &&& s.accepted ==> r is Ok && *final(self) == old(self).accepted()
                    &&& !s.accepted ==> *final(self) == *old(self)
                    &&& !s.accepted ==> (r matches Err(SplitError::Rejected { round, error })
                        && round == old(self).round + 1 && opt_view(error) == s@.error)
                },
                Err(cause) => {
                    &&& final(collector)@ == old(collector)@
                    &&& *final(self) == *old(self)
                    &&& r matches Err(SplitError::Failed { round, cause: c }) && round == old(
                        self,
                    ).round + 1 && c@ == cause@
                },
            },
    {
        let round: u64 = self.round + 1;
        let count: u64 = if self.remaining < self.max_per_round {
            self.remaining
        } else {
            self.max_per_round
        };
        match outcome {
            Ok(s) => {
                let tx_type = labelled("split_round_", round);
                collector.record_transaction(
                    TransactionRecord::of_send(
                        wallet,
                        "utxo_split",
                        tx_type.as_str(),
                        self.amount_per_utxo * count,
                        &s,
                        timing,
                    ),
                );
                if s.accepted {
                    proof {
                        let after = self.accepted();
                        assert(after.batch() <= self.batch());
                        assert(self.amount_per_utxo * after.batch() <= self.amount_per_utxo
                            * self.batch()) by (nonlinear_arith)
                            requires
                                after.batch() <= self.batch(),
                        ;
                    }
                    self.remaining = self.remaining - count;
                    self.round = round;
                    self.awaiting = true;
                    Ok(())
                } else {
                    Err(SplitError::Rejected { round, error: s.error })
                }
            },
            Err(cause) => Err(SplitError::Failed { round, cause }),
        }
    }

    /// Takes note that the wait for confirmation is over.
    pub fn settle_confirmation(&mut self)
        requires
            old(self).wf(),
        ensures
            final(self).wf(),
            *final(self) == old(self).confirmed(),
    {
        self.awaiting = false;
    }
}

/// Handles UTXO splitting with confirmation waits between rounds.
pub struct Splitter;

impl Splitter {
    /// Whether a split can be carried out: its rounds, if there are any, make
    /// progress, and their amounts and waits can be computed.
    pub fn accepts(
        amount_per_utxo: u64,
        target_count: u64,
        max_per_round: u64,
        confirmation_wait_secs: u64,
    ) -> (r: bool)
        ensures
            r == Self::started(
                amount_per_utxo,
                target_count,
                max_per_round,
                confirmation_wait_secs,
            ).wf(),
    {
        let batch: u64 = if target_count < max_per_round {
            target_count
        } else {
            max_per_round
        };
        target_count == 0 || (max_per_round > 0 && confirmation_wait_secs <= u64::MAX / 10
            && amount_per_utxo.checked_mul(batch).is_some())
    }

    /// A split that is about to begin.
    pub open spec fn started(
        amount_per_utxo: u64,
        target_count: u64,
        max_per_round: u64,
        confirmation_wait_secs: u64,
    ) -> SplitRun {
        SplitRun {
            amount_per_utxo,
            max_per_round,
            confirmation_wait_secs,
            remaining: target_count,
            round: 0,
            awaiting: false,
        }
    }

    /// Split funds into `target_count` UTXOs of `amount_per_utxo` each.
    ///
    /// Performs cascading splits if `target_count` exceeds the max split per
    /// round, with a wait for confirmation after each.
    pub fn split(
        amount_per_utxo: u64,
        target_count: u64,
        max_per_round: u64,
        confirmation_wait_secs: u64,
    ) -> (r: SplitRun)
        requires
            Self::started(
                amount_per_utxo,
                target_count,
                max_per_round,
                confirmation_wait_secs,
            ).wf(),
        ensures
            r == Self::started(
                amount_per_utxo,
                target_count,
                max_per_round,
                confirmation_wait_secs,
            ),
    {
        SplitRun {
            amount_per_utxo,
            max_per_round,
            confirmation_wait_secs,
            remaining: target_count,
            round: 0,
            awaiting: false,
        }
    }
}

/// The sizes of the rounds of a split, where each is accepted and confirmed.
pub open spec fn round_sizes(run: SplitRun) -> Seq<u64>
    decreases run.remaining,
{
    if run.remaining == 0 || run.max_per_round == 0 {
        Seq::empty()
    } else {
        seq![run.batch()] + round_sizes(run.accepted().confirmed())
    }
}

/// A list of numbers added up.
pub open spec fn total(list: Seq<u64>) -> int
    decreases list.len(),
{
    if list.len() == 0 {
        0
    } else {
        list[0] + total(list.skip(1))
    }
}

/// A split creates exactly what it was asked for: its rounds add up to the
/// number still to be created, none is empty or larger than allowed, and there
/// are no more of them than needed.
pub proof fn law_rounds_reach_target(run: SplitRun)
    requires
        run.wf(),
        !run.awaiting,
    ensures
        total(round_sizes(run)) == run.remaining,
        forall|i: int|
            0 <= i < round_sizes(run).len() ==> 0 < #[trigger] round_sizes(run)[i]
                <= run.max_per_round,
        run.max_per_round > 0 ==> round_sizes(run).len() == (run.remaining + run.max_per_round - 1)
            / (run.max_per_round as int),
    decreases run.remaining,
{
    let m = run.max_per_round as int;
    if m == 0 {
    } else if run.remaining == 0 {
        lemma_fundamental_div_mod_converse(m - 1, m, 0, m - 1);
    } else {
        let after = run.accepted().confirmed();
        assert(after.wf()) by {
            assert(run.amount_per_utxo * after.batch() <= run.amount_per_utxo * run.batch())
                by (nonlinear_arith)
                requires
                    after.batch() <= run.batch(),
            ;
        }
        law_rounds_reach_target(after);
        let rest = round_sizes(after);
        let all = round_sizes(run);
        assert(all == seq![run.batch()] + rest);
        assert(all.skip(1) =~= rest);
        assert forall|i: int| 0 <= i < all.len() implies 0 < #[trigger] all[i] <= m by {
            if i > 0 {
                assert(all[i] == rest[i - 1]);
            }
        }
        let n = run.remaining as int;
        lemma_fundamental_div_mod(n + m - 1, m);
        if n < m {
            lemma_fundamental_div_mod_converse(n + m - 1, m, 1, n - 1);
            lemma_fundamental_div_mod_converse(m - 1, m, 0, m - 1);
        } else {
            let q = (n + m - 1) / m;
            let r = (n + m - 1) % m;
            assert(m * (q - 1) == m * q - m) by (nonlinear_arith);
            lemma_fundamental_div_mod_converse(n - 1, m, q - 1, r);
        }
    }
}

/// After each accepted round comes a wait for confirmation, before the next
/// round and before the end.
pub proof fn law_rounds_are_confirmed(run: SplitRun)
    requires
        run.wf(),
        run.action() is Split,
    ensures
        run.accepted().action() is AwaitConfirmation,
        run.accepted().confirmed().action() !is AwaitConfirmation,
{
}

/// The wait is clear exactly where nothing comes in or goes out. Until then it
/// looks every 30 seconds, for as long as it may.
pub proof fn law_wait_is_clear_when_nothing_is_pending(
    balance: WalletBalance,
    elapsed_ns: u128,
    max_wait_secs: u64,
    r: PendingStep,
)
    requires
        call_ensures(wait_for_pending_clear, (balance, elapsed_ns, max_wait_secs), r),
    ensures
        r == PendingStep::Clear <==> balance.pending_incoming == 0 && balance.pending_outgoing
            == 0,
        r == PendingStep::TimedOut <==> (balance.pending_incoming > 0 || balance.pending_outgoing
            > 0) && elapsed_ns > max_wait_secs * 1_000_000_000,
        r is Wait ==> r == (PendingStep::Wait { secs: 30 }),
{
}

/// A round creates as many outputs as are still to be made, or as many as a
/// round may make where that is less, each of the amount asked for. Between two
/// rounds there is a wait of ten times the confirmation time, and after the last
/// the split is done.
pub proof fn law_split_goes_round_by_round(run: SplitRun, r: SplitAction)
    requires
        run.wf(),
        call_ensures(SplitRun::next, (&run,), r),
    ensures
        run.awaiting ==> (r matches SplitAction::AwaitConfirmation { max_wait_secs }
            && max_wait_secs == 10 * run.confirmation_wait_secs),
        !run.awaiting && run.remaining == 0 ==> r == (SplitAction::Done { rounds: run.round }),
        !run.awaiting && run.remaining > 0 ==> (r matches SplitAction::Split {
            round,
            amount_per_utxo,
            count,
        } && {
            &&& round == run.round + 1
            &&& amount_per_utxo == run.amount_per_utxo
            &&& 0 < count <= run.remaining
            &&& count <= run.max_per_round
            &&& count == run.remaining || count == run.max_per_round
        }),
{
}

/// A split begins with everything still to be made, and with no round behind
/// it. It can be carried out where it has no round, or where a round may make
/// some, what its largest round holds fits, and so does the wait.
pub proof fn law_split_begins_with_everything_to_make(
    amount_per_utxo: u64,
    target_count: u64,
    max_per_round: u64,
    confirmation_wait_secs: u64,
    r: SplitRun,
    accepted: bool,
)
    requires
        call_ensures(
            Splitter::split,
            (amount_per_utxo, target_count, max_per_round, confirmation_wait_secs),
            r,
        ),
        call_ensures(
            Splitter::accepts,
            (amount_per_utxo, target_count, max_per_round, confirmation_wait_secs),
            accepted,
        ),
    ensures
        r.remaining == target_count,
        r.amount_per_utxo == amount_per_utxo,
        r.max_per_round == max_per_round,
        r.confirmation_wait_secs == confirmation_wait_secs,
        r.round == 0,
        !r.awaiting,
        accepted <==> target_count == 0 || (max_per_round > 0 && confirmation_wait_secs * 10
            <= u64::MAX && amount_per_utxo * (if target_count < max_per_round {
            target_count
        } else {
            max_per_round
        }) <= u64::MAX),
{
}

/// A round counts only where it was accepted: then as many outputs fewer are to
/// be made as the round was asked for. What the driver carried out is recorded
/// once, by what the outputs of the round hold together; a driver that failed
/// leaves no record. A split goes on only after an accepted round.
pub proof fn law_only_accepted_rounds_count(
    run: &mut SplitRun,
    asked: SplitAction,
    collector: &mut MetricsCollector,
    wallet: &str,
    outcome: Result<SendResult, String>,
    timing: Timing,
    r: Result<(), SplitError>,
)
    requires
        old(run).wf(),
        !old(run).awaiting,
        old(run).remaining > 0,
        call_ensures(SplitRun::next, (&*old(run),), asked),
        call_ensures(SplitRun::settle_round, (run, collector, wallet, outcome, timing), r),
    ensures
        ({
            let count = asked->count;
            let before = old(collector)@.transactions;
            let after = final(collector)@.transactions;
            &&& r is Ok <==> outcome is Ok && outcome->Ok_0.accepted
            &&& r is Ok ==> {
                &&& final(run).remaining == old(run).remaining - count
                &&& final(run).round == old(run).round + 1
                &&& final(run).awaiting
                &&& final(run).amount_per_utxo == old(run).amount_per_utxo
                &&& final(run).max_per_round == old(run).max_per_round
                &&& final(run).confirmation_wait_secs == old(run).confirmation_wait_secs
            }
            &&& r is Err ==> *final(run) == *old(run)
            &&& outcome is Err ==> after == before && r->Err_0 is Failed && r->Err_0->Failed_round
                == old(run).round + 1 && r->Err_0->cause@ == outcome->Err_0@
            &&& outcome is Ok && !outcome->Ok_0.accepted ==> r->Err_0 is Rejected
                && r->Err_0->Rejected_round == old(run).round + 1
            &&& outcome is Ok ==> {
                let told = after.last();
                &&& after == before.push(told)
                &&& told.wallet == wallet@
                &&& told.scenario == "utxo_split"@
                &&& told.tx_type == "split_round_"@ + decimal((old(run).round + 1) as nat)
                &&& told.amount == old(run).amount_per_utxo * count
                &&& told.accepted == outcome->Ok_0.accepted
                &&& told.fee == outcome->Ok_0.fee
                &&& told.tx_id == outcome->Ok_0.tx_id@
                &&& told.start_time == timing.start
                &&& told.end_time == timing.end
                &&& told.duration_ms == timing.duration_ms
            }
        }),
        final(collector)@.scans == old(collector)@.scans,
        final(collector)@.snapshots == old(collector)@.snapshots,
{
}

/// The end of a wait lets the next round begin, and changes nothing else.
pub proof fn law_confirmation_lets_the_split_go_on(run: &mut SplitRun)
    requires
        call_ensures(SplitRun::settle_confirmation, (run,), ()),
    ensures
        !final(run).awaiting,
        final(run).remaining == old(run).remaining,
        final(run).round == old(run).round,
        final(run).amount_per_utxo == old(run).amount_per_utxo,
        final(run).max_per_round == old(run).max_per_round,
        final(run).confirmation_wait_secs == old(run).confirmation_wait_secs,
{
}

/// What a split error says: its round, and what the wallet said where it turned
/// the round down.
pub proof fn law_split_error_names_its_round(
    e: SplitError,
    r: String,
    round: u64,
    error: &str,
    rejected: String,
)
    requires
        call_ensures(SplitError::message, (&e,), r),
        call_ensures(rejected_round_text, (round, error), rejected),
    ensures
        rejected@ == "Split round "@ + decimal(round as nat) + " rejected: "@ + error@,
        e matches SplitError::Failed { round, .. } ==> r@ == "Split round "@ + decimal(
            round as nat,
        ) + " failed"@,
        e matches SplitError::Rejected { round, error } ==> r@ == "Split round "@ + decimal(
            round as nat,
        ) + " rejected: "@ + debug_form(opt_view(error)),
{
}

} // verus!
