//! Load patterns and the generator that paces them.
use vstd::arithmetic::div_mod::{lemma_fundamental_div_mod, lemma_fundamental_div_mod_converse};
use vstd::prelude::*;
use vstd::string::*;

use crate::address_pool::{
    amount_sum, law_address_in_turn, law_asks_run_on, recipient_views, total_amount,
    AddressPoolView, Recipient, RecipientView,
};
use crate::driver::{settle, settled_view, SendResult, SendResultView};
use crate::metrics::recorder::{
    fee_sum, send_record, MetricsCollector, MetricsView, Timing, TransactionRecord,
    TransactionRecordView,
};
use crate::text::{decimal, labelled};
use crate::time::{is_over, is_within, secs_ns};

verus! {

/// Nanoseconds in one second.
pub const NANOS: u128 = 1_000_000_000;

/// A rate of transactions: `txs` of them in every `per_secs` seconds.
#[derive(Clone, Copy, Debug, PartialEq, Eq, Structural)]
pub struct Rate {
    pub txs: u64,
    pub per_secs: u64,
}

impl Rate {
    /// The rate is positive and finite.
    pub open spec fn wf(self) -> bool {
        self.txs > 0 && self.per_secs > 0
    }

    /// The interval between sends of `recipients` each can be computed.
    pub open spec fn fits(self, recipients: int) -> bool {
        self.wf() && recipients * self.per_secs <= u64::MAX
    }

    /// Whether the rate is positive and finite, and the interval between sends
    /// of `recipients` each can be computed.
    pub fn is_usable(self, recipients: usize) -> (r: bool)
        ensures
            r == self.fits(recipients as int),
    {
        proof {
            assert(recipients as u64 as int == recipients);
            assert(0 <= recipients * self.per_secs) by (nonlinear_arith);
        }
        if self.txs == 0 || self.per_secs == 0 {
            return false;
        }
        match (recipients as u64).checked_mul(self.per_secs) {
            Some(_) => true,
            None => false,
        }
    }
}

/// Defines a load pattern for generating transactions.
#[derive(Clone, Copy, Debug, PartialEq, Eq, Structural)]
pub enum LoadPattern {
    /// Constant rate: transactions at `rate` for `duration_secs`.
    Constant { rate: Rate, duration_secs: u64 },
    /// Ramp: start at `start_txs` in every `per_secs`, increase by `step_txs`
    /// every `step_interval_secs`, up to `max_txs`.
    Ramp {
        start_txs: u64,
        max_txs: u64,
        step_txs: u64,
        per_secs: u64,
        step_interval_secs: u64,
        duration_secs: u64,
    },
    /// Burst: send `count` transactions as fast as possible.
    Burst { count: u64 },
    /// Poisson: random intervals averaging `rate` for `duration_secs`.
    Poisson { rate: Rate, duration_secs: u64 },
}

/// How many recipients one full send has.
pub open spec fn send_size(batch_size: usize) -> usize {
    if batch_size <= 1 {
        1
    } else {
        batch_size
    }
}

/// The pattern's rates are positive and finite, and its intervals can be
/// computed for sends of up to `batch_size` recipients. A ramp or a Poisson
/// pattern that lasts no time has no interval.
pub open spec fn pattern_fits(pattern: LoadPattern, batch_size: usize) -> bool {
    match pattern {
        LoadPattern::Constant { rate, .. } => rate.fits(send_size(batch_size) as int),
        LoadPattern::Ramp { start_txs, per_secs, duration_secs, .. } => duration_secs == 0 || (Rate {
            txs: start_txs,
            per_secs,
        }).fits(send_size(batch_size) as int),
        LoadPattern::Burst { .. } => true,
        LoadPattern::Poisson { rate, duration_secs } => duration_secs == 0 || rate.fits(
            send_size(batch_size) as int,
        ),
    }
}

/// The time that `recipients` transactions take at a rate, to the nearest
/// nanosecond.
pub open spec fn interval_ns(recipients: int, rate: Rate) -> int {
    (2 * (recipients * rate.per_secs * NANOS) + rate.txs) / (2 * rate.txs)
}

/// The time that `recipients` transactions take at a rate.
pub fn interval(recipients: usize, rate: Rate) -> (r: u128)
    requires
        rate.fits(recipients as int),
    ensures
        r == interval_ns(recipients as int, rate),
{
    proof {
        assert(0 <= recipients * rate.per_secs) by (nonlinear_arith);
        assert(recipients * rate.per_secs <= u64::MAX);
    }
    let secs: u128 = recipients as u128 * rate.per_secs as u128;
    (2 * (secs * NANOS) + rate.txs as u128) / (2 * rate.txs as u128)
}

/// A rounded interval is off by at most half a nanosecond.
pub proof fn law_interval_is_nearest(recipients: nat, rate: Rate)
    requires
        rate.wf(),
    ensures
        2 * (interval_ns(recipients as int, rate) * rate.txs - recipients * rate.per_secs * NANOS)
            <= rate.txs,
        -rate.txs < 2 * (interval_ns(recipients as int, rate) * rate.txs - recipients
            * rate.per_secs * NANOS),
{
    let n = recipients * rate.per_secs * NANOS;
    let d = 2 * rate.txs;
    let x = 2 * n + rate.txs;
    let q = x / d;
    lemma_fundamental_div_mod(x, d);
    assert(0 <= x % d < d);
    assert(d * q == 2 * (q * rate.txs)) by (nonlinear_arith)
        requires
            d == 2 * rate.txs,
    ;
}

/// The pace is the same whatever the batch size: the interval of a batch is
/// that of its transactions one by one, to within half a nanosecond for each
/// of them and half for the batch.
pub proof fn law_batches_keep_pace(batch: nat, rate: Rate)
    requires
        rate.wf(),
        batch > 0,
    ensures
        -(batch + 1) <= 2 * (interval_ns(batch as int, rate) - batch * interval_ns(1, rate)) <= batch
            + 1,
{
    let t = rate.txs as int;
    let p = rate.per_secs * NANOS;
    let whole = interval_ns(batch as int, rate);
    let one = interval_ns(1, rate);
    law_interval_is_nearest(batch, rate);
    law_interval_is_nearest(1, rate);
    assert(batch * rate.per_secs * NANOS == batch * p) by (nonlinear_arith)
        requires
            p == rate.per_secs * NANOS,
    ;
    assert(1 * rate.per_secs * NANOS == p);
    assert(-(batch + 1) <= 2 * (whole - batch * one) <= batch + 1) by (nonlinear_arith)
        requires
            t > 0,
            batch > 0,
            2 * (whole * t - batch * p) <= t,
            -t < 2 * (whole * t - batch * p),
            2 * (one * t - p) <= t,
            -t < 2 * (one * t - p),
    {
        let d = 2 * (whole - batch * one);
        assert(d * t == 2 * (whole * t - batch * p) - batch * (2 * (one * t - p)));
        assert(batch * (2 * (one * t - p)) <= batch * t);
        assert(-(batch * t) <= batch * (2 * (one * t - p)));
        assert(d * t <= (batch + 1) * t);
        assert(-((batch + 1) * t) <= d * t);
    }
}

/// What the generator does next.
#[derive(Clone, Copy, Debug, PartialEq, Eq, Structural)]
pub enum LoadAction {
    /// Send to the next `recipients` addresses, then pause. `batched` tells a
    /// batch send, of however many recipients, from a single send.
    Send { recipients: usize, batched: bool, pause_ns: u128 },
    /// Draw a random wait with the mean that `recipients` transactions take at
    /// `rate`, and sleep for it.
    Draw { recipients: usize, rate: Rate },
    /// The pattern is over.
    Finish,
}

/// A pattern under way.
#[derive(Clone, Copy, Debug, PartialEq, Eq, Structural)]
pub struct LoadRun {
    pub pattern: LoadPattern,
    pub batch_size: usize,
    /// The ramp's present rate.
    pub current_txs: u64,
    /// When the ramp last stepped up.
    pub last_step_ns: u128,
    /// Recipients of the burst so far.
    pub sent: u64,
    /// A random wait has been slept through, and its send is due.
    pub drawn: bool,
}

impl LoadRun {
    /// Whether the next step can be taken: the pattern is usable, and what was
    /// sent so far is part of it.
    pub open spec fn wf(self) -> bool {
        &&& pattern_fits(self.pattern, self.batch_size)
        &&& self.pattern matches LoadPattern::Ramp { start_txs, max_txs, .. } ==> start_txs
            <= self.current_txs && (self.current_txs <= max_txs || self.current_txs == start_txs)
        &&& self.pattern matches LoadPattern::Burst { count } ==> self.sent <= count
    }

    /// A run that is about to begin.
    pub open spec fn begun(pattern: LoadPattern, batch_size: usize) -> LoadRun {
        LoadRun {
            pattern,
            batch_size,
            current_txs: match pattern {
                LoadPattern::Ramp { start_txs, .. } => start_txs,
                _ => 0,
            },
            last_step_ns: 0,
            sent: 0,
            drawn: false,
        }
    }

    /// A full send at a rate.
    pub open spec fn paced_send(self, rate: Rate) -> LoadAction {
        let recipients = send_size(self.batch_size);
        LoadAction::Send {
            recipients,
            batched: self.batch_size > 1,
            pause_ns: interval_ns(recipients as int, rate) as u128,
        }
    }

    /// The ramp steps up now: the step interval has passed and the maximum is
    /// not reached.
    pub open spec fn steps_up(self, elapsed_ns: u128) -> bool {
        self.pattern matches LoadPattern::Ramp { max_txs, step_interval_secs, .. }
            && elapsed_ns - self.last_step_ns > secs_ns(step_interval_secs) && self.current_txs
            < max_txs
    }

    /// The ramp's rate from `elapsed_ns` on.
    pub open spec fn ramp_txs(self, elapsed_ns: u128) -> u64 {
        match self.pattern {
            LoadPattern::Ramp { max_txs, step_txs, .. } if self.steps_up(elapsed_ns) => {
                if self.current_txs + step_txs < max_txs {
                    (self.current_txs + step_txs) as u64
                } else {
                    max_txs
                }
            },
            _ => self.current_txs,
        }
    }

    /// How many recipients the next send of a burst has.
    pub open spec fn burst_part(self) -> int {
        match self.pattern {
            LoadPattern::Burst { count } => {
                let left = count - self.sent;
                if left < send_size(self.batch_size) {
                    left
                } else {
                    send_size(self.batch_size) as int
                }
            },
            _ => 0,
        }
    }

    /// What is to be done at `elapsed_ns` since the start.
    pub open spec fn action_at(self, elapsed_ns: u128) -> LoadAction {
        match self.pattern {
            LoadPattern::Constant { rate, duration_secs } => {
                if elapsed_ns < secs_ns(duration_secs) {
                    self.paced_send(rate)
                } else {
                    LoadAction::Finish
                }
            },
            LoadPattern::Ramp { per_secs, duration_secs, .. } => {
                if elapsed_ns < secs_ns(duration_secs) {
                    self.paced_send(Rate { txs: self.ramp_txs(elapsed_ns), per_secs })
                } else {
                    LoadAction::Finish
                }
            },
            LoadPattern::Burst { count } => {
                if self.sent < count {
                    LoadAction::Send {
                        recipients: self.burst_part() as usize,
                        batched: self.batch_size > 1,
                        pause_ns: 0,
                    }
                } else {
                    LoadAction::Finish
                }
            },
            LoadPattern::Poisson { rate, duration_secs } => {
                if elapsed_ns >= secs_ns(duration_secs) {
                    LoadAction::Finish
                } else if self.drawn {
                    LoadAction::Send {
                        recipients: send_size(self.batch_size),
                        batched: self.batch_size > 1,
                        pause_ns: 0,
                    }
                } else {
                    LoadAction::Draw { recipients: send_size(self.batch_size), rate }
                }
            },
        }
    }

    /// The run once that is done.
    pub open spec fn state_after(self, elapsed_ns: u128) -> LoadRun {
        match self.pattern {
            LoadPattern::Constant { .. } => self,
            LoadPattern::Ramp { duration_secs, .. } => {
                if elapsed_ns < secs_ns(duration_secs) && self.steps_up(elapsed_ns) {
                    LoadRun {
                        current_txs: self.ramp_txs(elapsed_ns),
                        last_step_ns: elapsed_ns,
                        ..self
                    }
                } else {
                    self
                }
            },
            LoadPattern::Burst { .. } => LoadRun {
                sent: (self.sent + self.burst_part()) as u64,
                ..self
            },
            LoadPattern::Poisson { duration_secs, .. } => {
                if elapsed_ns < secs_ns(duration_secs) {
                    LoadRun { drawn: !self.drawn, ..self }
                } else {
                    self
                }
            },
        }
    }

    /// Starts a pattern, with sends of `batch_size` recipients.
    pub fn new(pattern: LoadPattern, batch_size: usize) -> (r: LoadRun)
        requires
            pattern_fits(pattern, batch_size),
        ensures
            r == LoadRun::begun(pattern, batch_size),
            r.wf(),
    {
        let current_txs: u64 = match pattern {
            LoadPattern::Ramp { start_txs, .. } => start_txs,
            _ => 0,
        };
        LoadRun { pattern, batch_size, current_txs, last_step_ns: 0, sent: 0, drawn: false }
    }

    /// Decides what to do at `elapsed_ns` since the start.
    pub fn next(&mut self, elapsed_ns: u128) -> (r: LoadAction)
        requires
            old(self).wf(),
        ensures
            r == old(self).action_at(elapsed_ns),
            *final(self) == old(self).state_after(elapsed_ns),
            final(self).wf(),
    {
        let recipients: usize = if self.batch_size <= 1 {
            1
        } else {
            self.batch_size
        };
        let batched = self.batch_size > 1;
        match self.pattern {
            LoadPattern::Constant { rate, duration_secs } => {
                if is_within(elapsed_ns, duration_secs) {
                    LoadAction::Send { recipients, batched, pause_ns: interval(recipients, rate) }
                } else {
                    LoadAction::Finish
                }
            },
            LoadPattern::Ramp {
                max_txs,
                step_txs,
                per_secs,
                step_interval_secs,
                duration_secs,
                ..
            } => {
                if is_within(elapsed_ns, duration_secs) {
                    let since: u128 = if elapsed_ns > self.last_step_ns {
                        elapsed_ns - self.last_step_ns
                    } else {
                        0
                    };
                    if is_over(since, step_interval_secs) && self.current_txs < max_txs {
                        if step_txs < max_txs - self.current_txs {
                            self.current_txs = self.current_txs + step_txs;
                        } else {
                            self.current_txs = max_txs;
                        }
                        self.last_step_ns = elapsed_ns;
                    }
                    let rate = Rate { txs: self.current_txs, per_secs };
                    LoadAction::Send { recipients, batched, pause_ns: interval(recipients, rate) }
                } else {
                    LoadAction::Finish
                }
            },
            LoadPattern::Burst { count } => {
                if self.sent < count {
                    let left: u64 = count - self.sent;
                    let part: usize = if left < recipients as u64 {
                        left as usize
                    } else {
                        recipients
                    };
                    self.sent = self.sent + part as u64;
                    LoadAction::Send { recipients: part, batched, pause_ns: 0 }
                } else {
                    LoadAction::Finish
                }
            },
            LoadPattern::Poisson { rate, duration_secs } => {
                if !is_within(elapsed_ns, duration_secs) {
                    LoadAction::Finish
                } else if self.drawn {
                    self.drawn = false;
                    LoadAction::Send { recipients, batched, pause_ns: 0 }
                } else {
                    self.drawn = true;
                    LoadAction::Draw { recipients, rate }
                }
            },
        }
    }
}

/// The seconds for which a pattern runs, for those that run for a time.
pub open spec fn duration_of(pattern: LoadPattern) -> Option<u64> {
    match pattern {
        LoadPattern::Constant { duration_secs, .. } => Some(duration_secs),
        LoadPattern::Ramp { duration_secs, .. } => Some(duration_secs),
        LoadPattern::Burst { .. } => None,
        LoadPattern::Poisson { duration_secs, .. } => Some(duration_secs),
    }
}

/// A pattern with a duration is over exactly from its end on: nothing is sent
/// at or after it, and it does not finish before.
pub proof fn law_duration_is_kept(run: LoadRun, elapsed_ns: u128)
    requires
        duration_of(run.pattern) is Some,
    ensures
        run.action_at(elapsed_ns) is Finish <==> elapsed_ns >= secs_ns(
            duration_of(run.pattern)->Some_0,
        ),
        run.state_after(elapsed_ns).pattern == run.pattern,
{
}

/// A Poisson pattern sends only after a random wait, and waits anew after each
/// send.
pub proof fn law_poisson_alternates(run: LoadRun, elapsed_ns: u128)
    requires
        run.pattern is Poisson,
    ensures
        run.action_at(elapsed_ns) is Send ==> run.drawn && !run.state_after(elapsed_ns).drawn,
        run.action_at(elapsed_ns) is Draw ==> !run.drawn && run.state_after(elapsed_ns).drawn,
{
}

/// A ramp's rate never falls, never passes the maximum, rises by no more than
/// a step at once, and only after a step interval at the old rate.
pub proof fn law_ramp_rises(run: LoadRun, elapsed_ns: u128)
    requires
        run.wf(),
        run.pattern is Ramp,
    ensures
        run.state_after(elapsed_ns).wf(),
        run.current_txs <= run.state_after(elapsed_ns).current_txs,
        run.state_after(elapsed_ns).current_txs <= run.current_txs + run.pattern->step_txs,
        run.pattern->start_txs <= run.pattern->max_txs ==> run.state_after(elapsed_ns).current_txs
            <= run.pattern->max_txs,
        run.state_after(elapsed_ns).current_txs > run.current_txs ==> elapsed_ns - run.last_step_ns
            > secs_ns(run.pattern->step_interval_secs),
{
}

/// A constant pattern keeps its rate: where it is asked again only after the
/// pause that it gave, it makes its `k`-th send, counted from 0, only if `k`
/// pauses fit in before its end.
pub proof fn law_constant_rate_is_kept(
    rate: Rate,
    duration_secs: u64,
    batch_size: usize,
    times: Seq<u128>,
    k: int,
)
    requires
        0 <= k < times.len(),
        forall|i: int|
            0 <= i < k ==> #[trigger] times[i] + interval_ns(send_size(batch_size) as int, rate)
                <= times[i + 1],
        LoadRun::begun(LoadPattern::Constant { rate, duration_secs }, batch_size).action_at(
            times[k],
        ) is Send,
    ensures
        k * interval_ns(send_size(batch_size) as int, rate) < secs_ns(duration_secs),
{
    lemma_times_are_spaced(times, interval_ns(send_size(batch_size) as int, rate), k);
}

proof fn lemma_times_are_spaced(times: Seq<u128>, pause: int, k: int)
    requires
        0 <= k < times.len(),
        forall|i: int| 0 <= i < k ==> #[trigger] times[i] + pause <= times[i + 1],
    ensures
        k * pause <= times[k],
    decreases k,
{
    if k > 0 {
        lemma_times_are_spaced(times, pause, k - 1);
        assert(times[k - 1] + pause <= times[k - 1 + 1]);
        assert((k - 1) * pause + pause == k * pause) by (nonlinear_arith);
    } else {
        assert(k * pause == 0) by (nonlinear_arith)
            requires
                k == 0,
        ;
    }
}

/// What the run does when it is asked at the given times.
pub open spec fn trace(run: LoadRun, times: Seq<u128>) -> Seq<LoadAction>
    decreases times.len(),
{
    if times.len() == 0 {
        Seq::empty()
    } else {
        seq![run.action_at(times[0])] + trace(run.state_after(times[0]), times.skip(1))
    }
}

/// The recipients of an action.
pub open spec fn recipients_of(action: LoadAction) -> int {
    match action {
        LoadAction::Send { recipients, .. } => recipients as int,
        _ => 0,
    }
}

/// The recipients of a series of actions, added up.
pub open spec fn total_recipients(actions: Seq<LoadAction>) -> int
    decreases actions.len(),
{
    if actions.len() == 0 {
        0
    } else {
        recipients_of(actions[0]) + total_recipients(actions.skip(1))
    }
}

/// How many sends of up to `size` recipients it takes to reach `count`.
pub open spec fn sends_needed(count: int, size: int) -> int {
    (count + size - 1) / size
}

proof fn lemma_sends_needed(count: int, size: int)
    requires
        size > 0,
        count >= 0,
    ensures
        count == 0 ==> sends_needed(count, size) == 0,
        0 < count < size ==> sends_needed(count, size) == 1,
        count >= size ==> sends_needed(count, size) == sends_needed(count - size, size) + 1,
        sends_needed(count, size) >= 0,
{
    lemma_fundamental_div_mod(count + size - 1, size);
    if count == 0 {
        lemma_fundamental_div_mod_converse(size - 1, size, 0, size - 1);
    } else if count < size {
        lemma_fundamental_div_mod_converse(count + size - 1, size, 1, count - 1);
    } else {
        let q = sends_needed(count, size);
        let r = (count + size - 1) % size;
        assert(size * (q - 1) == size * q - size) by (nonlinear_arith);
        lemma_fundamental_div_mod_converse(count - 1, size, q - 1, r);
    }
    vstd::arithmetic::div_mod::lemma_div_pos_is_pos(count + size - 1, size);
}

/// Every action of a series is a send, of between one and `size` recipients.
pub open spec fn all_sends(actions: Seq<LoadAction>, size: int) -> bool {
    forall|i: int|
        0 <= i < actions.len() ==> (#[trigger] actions[i]) is Send && 1 <= recipients_of(actions[i])
            <= size
}

/// How many recipients the send at place `i` of a burst has: a full send, or
/// what is left.
pub open spec fn burst_part_at(count: int, size: int, i: int) -> int {
    if count - i * size < size {
        count - i * size
    } else {
        size
    }
}

proof fn lemma_burst_from(run: LoadRun, times: Seq<u128>)
    requires
        run.wf(),
        run.pattern is Burst,
        times.len() == sends_needed(run.pattern->count - run.sent, send_size(run.batch_size) as int)
            + 1,
    ensures
        trace(run, times).len() == times.len(),
        trace(run, times).last() is Finish,
        all_sends(trace(run, times).drop_last(), send_size(run.batch_size) as int),
        total_recipients(trace(run, times)) == run.pattern->count - run.sent,
        forall|i: int|
            0 <= i < times.len() - 1 ==> (#[trigger] trace(run, times)[i]) == (LoadAction::Send {
                recipients: burst_part_at(
                    run.pattern->count - run.sent,
                    send_size(run.batch_size) as int,
                    i,
                ) as usize,
                batched: run.batch_size > 1,
                pause_ns: 0,
            }),
    decreases run.pattern->count - run.sent,
{
    let left = run.pattern->count - run.sent;
    let size = send_size(run.batch_size) as int;
    lemma_sends_needed(left, size);
    let head = run.action_at(times[0]);
    let after = run.state_after(times[0]);
    let rest = trace(after, times.skip(1));
    let all = trace(run, times);
    assert(all == seq![head] + rest);
    assert(all.skip(1) =~= rest);
    if left == 0 {
        assert(times.skip(1) =~= Seq::empty());
        assert(rest =~= Seq::empty());
        assert(total_recipients(rest) == 0);
        assert(all.drop_last() =~= Seq::empty());
    } else {
        if left < size {
            lemma_sends_needed(0, size);
        }
        lemma_burst_from(after, times.skip(1));
        assert(all.drop_last() =~= seq![head] + rest.drop_last());
        assert forall|i: int| 0 <= i < all.drop_last().len() implies (
        #[trigger] all.drop_last()[i]) is Send && 1 <= recipients_of(all.drop_last()[i])
            <= size by {
            if i > 0 {
                assert(all.drop_last()[i] == rest.drop_last()[i - 1]);
            }
        }
        assert forall|i: int| 0 <= i < times.len() - 1 implies (#[trigger] all[i]) == (
        LoadAction::Send {
            recipients: burst_part_at(left, size, i) as usize,
            batched: run.batch_size > 1,
            pause_ns: 0,
        }) by {
            if i > 0 {
                assert(all[i] == rest[i - 1]);
                assert((i - 1) * size + size == i * size) by (nonlinear_arith);
            } else {
                assert(0 * size == 0) by (nonlinear_arith);
            }
        }
    }
}

/// A burst reaches exactly as many recipients as it counts, whatever the batch
/// size and whenever it is asked, in the fewest sends of that size; then it is
/// over. With a batch size of more than one it makes batch sends only, and else
/// single sends only.
pub proof fn law_burst_reaches_count(count: u64, batch_size: usize, times: Seq<u128>)
    requires
        times.len() == sends_needed(count as int, send_size(batch_size) as int) + 1,
    ensures
        trace(LoadRun::begun(LoadPattern::Burst { count }, batch_size), times).len() == times.len(),
        trace(LoadRun::begun(LoadPattern::Burst { count }, batch_size), times).last() is Finish,
        all_sends(
            trace(LoadRun::begun(LoadPattern::Burst { count }, batch_size), times).drop_last(),
            send_size(batch_size) as int,
        ),
        total_recipients(trace(LoadRun::begun(LoadPattern::Burst { count }, batch_size), times))
            == count,
        forall|i: int|
            0 <= i < times.len() - 1 ==> (#[trigger] trace(
                LoadRun::begun(LoadPattern::Burst { count }, batch_size),
                times,
            )[i])->batched == (batch_size > 1),
{
    lemma_burst_from(LoadRun::begun(LoadPattern::Burst { count }, batch_size), times);
}

/// What a series of actions pays, in the order of its sends, with addresses
/// from a pool. What the sends come to has no part in it.
pub open spec fn paid(pool: AddressPoolView, actions: Seq<LoadAction>, amount: u64) -> Seq<
    RecipientView,
>
    decreases actions.len(),
{
    if actions.len() == 0 {
        Seq::empty()
    } else {
        let n = recipients_of(actions[0]);
        pool.recipients(n, amount) + paid(pool.advanced(n), actions.skip(1), amount)
    }
}

/// A series of actions pays the addresses of the pool in turn, each recipient
/// of each send once: cutting them into sends changes nothing.
pub proof fn law_sends_pay_in_turn(pool: AddressPoolView, actions: Seq<LoadAction>, amount: u64)
    ensures
        total_recipients(actions) >= 0,
        paid(pool, actions, amount) == pool.recipients(total_recipients(actions), amount),
    decreases actions.len(),
{
    if actions.len() > 0 {
        let n = recipients_of(actions[0]);
        let rest = actions.skip(1);
        law_sends_pay_in_turn(pool.advanced(n), rest, amount);
        law_asks_run_on(pool, n as nat, total_recipients(rest) as nat, amount);
    } else {
        assert(pool.recipients(0, amount) =~= Seq::empty());
    }
}

/// A burst pays the addresses of the pool in turn, one after the other from
/// where the pool stands, as often as it counts. Each of its sends is a full
/// one, but for the last, which has what is left; with a batch size of more
/// than one each is a batch send, even the last, and else each is a single
/// send. A send that fails does not keep the others from being made.
pub proof fn law_burst_pays_in_turn(
    pool: AddressPoolView,
    count: u64,
    batch_size: usize,
    amount: u64,
    times: Seq<u128>,
)
    requires
        pool.addresses.len() > 0,
        pool.counter + count <= usize::MAX,
        times.len() == sends_needed(count as int, send_size(batch_size) as int) + 1,
    ensures
        paid(pool, trace(LoadRun::begun(LoadPattern::Burst { count }, batch_size), times), amount)
            == Seq::new(
            count as nat,
            |k: int|
                RecipientView {
                    address: pool.addresses[(pool.counter + k) % (pool.addresses.len() as int)],
                    amount,
                },
        ),
        forall|i: int|
            0 <= i < times.len() - 1 ==> (#[trigger] trace(
                LoadRun::begun(LoadPattern::Burst { count }, batch_size),
                times,
            )[i]) == (LoadAction::Send {
                recipients: burst_part_at(count as int, send_size(batch_size) as int, i) as usize,
                batched: batch_size > 1,
                pause_ns: 0,
            }),
        forall|i: int|
            0 <= i < times.len() - 1 ==> 1 <= #[trigger] burst_part_at(
                count as int,
                send_size(batch_size) as int,
                i,
            ) <= send_size(batch_size) && (i < times.len() - 2 ==> burst_part_at(
                count as int,
                send_size(batch_size) as int,
                i,
            ) == send_size(batch_size)),
        trace(LoadRun::begun(LoadPattern::Burst { count }, batch_size), times).last() is Finish,
{
    let run = LoadRun::begun(LoadPattern::Burst { count }, batch_size);
    let actions = trace(run, times);
    let size = send_size(batch_size) as int;
    lemma_burst_from(run, times);
    law_sends_pay_in_turn(pool, actions, amount);
    let told = Seq::new(
        count as nat,
        |k: int|
            RecipientView {
                address: pool.addresses[(pool.counter + k) % (pool.addresses.len() as int)],
                amount,
            },
    );
    assert forall|k: int| 0 <= k < count implies pool.recipients(count as int, amount)[k]
        == told[k] by {
        law_address_in_turn(pool, k);
    }
    assert(pool.recipients(count as int, amount) =~= told);
    lemma_fundamental_div_mod(count + size - 1, size);
    assert forall|i: int| 0 <= i < times.len() - 1 implies 1 <= #[trigger] burst_part_at(
        count as int,
        size,
        i,
    ) <= size && (i < times.len() - 2 ==> burst_part_at(count as int, size, i) == size) by {
        let n = times.len() - 1;
        assert(i * size <= size * (n - 1)) by (nonlinear_arith)
            requires
                0 <= i <= n - 1,
                size > 0,
        ;
        assert(size * (n - 1) == size * n - size) by (nonlinear_arith);
        if i < n - 1 {
            assert(i * size <= size * (n - 2)) by (nonlinear_arith)
                requires
                    0 <= i <= n - 2,
                    size > 0,
            ;
            assert(size * (n - 2) == size * n - 2 * size) by (nonlinear_arith);
        }
    }
}

/// The recipients and amounts that a burst pays, and their order, are the same
/// for any two batch sizes; there are as many as it counts.
pub proof fn law_batch_size_changes_no_payment(
    pool: AddressPoolView,
    count: u64,
    one: usize,
    other: usize,
    amount: u64,
    one_times: Seq<u128>,
    other_times: Seq<u128>,
)
    requires
        one_times.len() == sends_needed(count as int, send_size(one) as int) + 1,
        other_times.len() == sends_needed(count as int, send_size(other) as int) + 1,
    ensures
        paid(pool, trace(LoadRun::begun(LoadPattern::Burst { count }, one), one_times), amount)
            == paid(
            pool,
            trace(LoadRun::begun(LoadPattern::Burst { count }, other), other_times),
            amount,
        ),
        paid(
            pool,
            trace(LoadRun::begun(LoadPattern::Burst { count }, one), one_times),
            amount,
        ).len() == count,
{
    let a = LoadRun::begun(LoadPattern::Burst { count }, one);
    let b = LoadRun::begun(LoadPattern::Burst { count }, other);
    lemma_burst_from(a, one_times);
    lemma_burst_from(b, other_times);
    law_sends_pay_in_turn(pool, trace(a, one_times), amount);
    law_sends_pay_in_turn(pool, trace(b, other_times), amount);
}

/// What a send is called in its record.
pub open spec fn send_label(batched: bool, recipients: nat) -> Seq<char> {
    if batched {
        "batch_"@ + decimal(recipients)
    } else {
        "send"@
    }
}

/// The sends among a series of actions.
pub open spec fn sends_of(actions: Seq<LoadAction>) -> Seq<LoadAction>
    decreases actions.len(),
{
    if actions.len() == 0 {
        Seq::empty()
    } else if actions[0] is Send {
        seq![actions[0]] + sends_of(actions.skip(1))
    } else {
        sends_of(actions.skip(1))
    }
}

/// A run as its records tell of it: who sends, in which scenario, and how much
/// to each recipient.
pub struct RecordedRun {
    pub wallet: Seq<char>,
    pub scenario: Seq<char>,
    pub amount: u64,
}

impl RecordedRun {
    /// The record of a send of the run that came to `result`.
    pub open spec fn record(
        self,
        send: LoadAction,
        result: SendResultView,
        timing: Timing,
    ) -> TransactionRecordView {
        let recipients = recipients_of(send);
        send_record(
            self.wallet,
            self.scenario,
            send_label(send->batched, recipients as nat),
            (recipients * self.amount) as u64,
            result,
            timing,
        )
    }

    /// What the collector holds once the actions of the run are done, where its
    /// sends came to `results`, each settled and recorded before the next.
    pub open spec fn recorded(
        self,
        metrics: MetricsView,
        actions: Seq<LoadAction>,
        results: Seq<(SendResultView, Timing)>,
    ) -> MetricsView
        decreases actions.len(),
    {
        if actions.len() == 0 {
            metrics
        } else if actions[0] is Send {
            self.recorded(
                metrics.with_record(self.record(actions[0], results[0].0, results[0].1)),
                actions.skip(1),
                results.skip(1),
            )
        } else {
            self.recorded(metrics, actions.skip(1), results)
        }
    }
}

/// Over a whole run the collector gains one record for each send, in order,
/// whether the send was accepted or not: it tells the wallet, the scenario and
/// what the send came to. Nothing else that the collector holds changes.
pub proof fn law_each_send_is_recorded(
    run: RecordedRun,
    metrics: MetricsView,
    actions: Seq<LoadAction>,
    results: Seq<(SendResultView, Timing)>,
)
    requires
        results.len() == sends_of(actions).len(),
    ensures
        run.recorded(metrics, actions, results).transactions == metrics.transactions + Seq::new(
            results.len(),
            |k: int| run.record(sends_of(actions)[k], results[k].0, results[k].1),
        ),
        run.recorded(metrics, actions, results).snapshots == metrics.snapshots,
        run.recorded(metrics, actions, results).scans == metrics.scans,
        forall|k: int|
            0 <= k < results.len() ==> {
                let told = #[trigger] run.recorded(
                    metrics,
                    actions,
                    results,
                ).transactions[metrics.transactions.len() + k];
                &&& told.wallet == run.wallet
                &&& told.scenario == run.scenario
                &&& told.tx_id == results[k].0.tx_id
                &&& told.accepted == results[k].0.accepted
                &&& told.error == results[k].0.error
                &&& told.fee == results[k].0.fee
            },
    decreases actions.len(),
{
    let records = Seq::new(
        results.len(),
        |k: int| run.record(sends_of(actions)[k], results[k].0, results[k].1),
    );
    if actions.len() == 0 {
        assert(metrics.transactions + records =~= metrics.transactions);
    } else {
        let rest = actions.skip(1);
        if actions[0] is Send {
            let record = run.record(actions[0], results[0].0, results[0].1);
            let later = results.skip(1);
            law_each_send_is_recorded(run, metrics.with_record(record), rest, later);
            let tail = Seq::new(
                later.len(),
                |k: int| run.record(sends_of(rest)[k], later[k].0, later[k].1),
            );
            assert(sends_of(actions).skip(1) =~= sends_of(rest));
            assert(records =~= seq![record] + tail);
            assert(metrics.transactions.push(record) + tail =~= metrics.transactions + records);
        } else {
            law_each_send_is_recorded(run, metrics, rest, results);
        }
    }
    assert forall|k: int| 0 <= k < results.len() implies (metrics.transactions
        + records)[metrics.transactions.len() + k] == records[k] by {}
}

/// Settles a send and records what it came to.
pub fn settle_and_record(
    collector: &mut MetricsCollector,
    wallet: &str,
    scenario: &str,
    tx_type: &str,
    amount: u64,
    outcome: Result<SendResult, String>,
    timing: Timing,
) -> (r: SendResult)
    requires
        old(collector).wf(),
        outcome matches Ok(s) ==> (s.fee matches Some(f) ==> fee_sum(old(collector)@.transactions)
            + f <= u64::MAX),
    ensures
        r@ == settled_view(outcome),
        final(collector).wf(),
        final(collector)@ == old(collector)@.with_record(
            send_record(wallet@, scenario@, tx_type@, amount, settled_view(outcome), timing),
        ),
{
    let result = settle(outcome);
    collector.record_transaction(
        TransactionRecord::of_send(wallet, scenario, tx_type, amount, &result, timing),
    );
    result
}

/// Generates load according to a pattern, sending transactions and recording metrics.
pub struct LoadGenerator;

impl LoadGenerator {
    /// Whether a pattern can be run with sends of `batch_size` recipients.
    pub fn accepts(pattern: LoadPattern, batch_size: usize) -> (r: bool)
        ensures
            r == pattern_fits(pattern, batch_size),
    {
        let recipients: usize = if batch_size <= 1 {
            1
        } else {
            batch_size
        };
        match pattern {
            LoadPattern::Constant { rate, .. } => rate.is_usable(recipients),
            LoadPattern::Ramp { start_txs, per_secs, duration_secs, .. } => duration_secs == 0 || (
            Rate { txs: start_txs, per_secs }).is_usable(recipients),
            LoadPattern::Burst { .. } => true,
            LoadPattern::Poisson { rate, duration_secs } => duration_secs == 0 || rate.is_usable(
                recipients,
            ),
        }
    }

    /// Execute a load pattern one transaction at a time.
    pub fn execute(pattern: LoadPattern) -> (r: LoadRun)
        requires
            pattern_fits(pattern, 1),
        ensures
            r == LoadRun::begun(pattern, 1),
            r.wf(),
    {
        Self::execute_with_batch(pattern, 1)
    }

    /// Execute a load pattern.
    ///
    /// When `batch_size > 1`, recipients are collected and sent as one batch
    /// (payment processor pattern). The total number of recipients is the same
    /// either way, so results are comparable. When `batch_size == 1`, sends
    /// individually (user pattern). The run that comes back is asked for each
    /// next action.
    pub fn execute_with_batch(pattern: LoadPattern, batch_size: usize) -> (r: LoadRun)
        requires
            pattern_fits(pattern, batch_size),
        ensures
            r == LoadRun::begun(pattern, batch_size),
            r.wf(),
    {
        LoadRun::new(pattern, batch_size)
    }

    /// Settles and records a single send.
    pub fn send_and_record(
        collector: &mut MetricsCollector,
        wallet: &str,
        scenario: &str,
        amount: u64,
        outcome: Result<SendResult, String>,
        timing: Timing,
    ) -> (r: SendResult)
        requires
            old(collector).wf(),
            outcome matches Ok(s) ==> (s.fee matches Some(f) ==> fee_sum(
                old(collector)@.transactions,
            ) + f <= u64::MAX),
        ensures
            r@ == settled_view(outcome),
            final(collector).wf(),
            final(collector)@ == old(collector)@.with_record(
                send_record(
                    wallet@,
                    scenario@,
                    send_label(false, 1),
                    amount,
                    settled_view(outcome),
                    timing,
                ),
            ),
    {
        settle_and_record(collector, wallet, scenario, "send", amount, outcome, timing)
    }

    /// Settles and records a batch send.
    pub fn send_batch_and_record(
        collector: &mut MetricsCollector,
        wallet: &str,
        scenario: &str,
        recipients: &Vec<Recipient>,
        outcome: Result<SendResult, String>,
        timing: Timing,
    ) -> (r: SendResult)
        requires
            old(collector).wf(),
            amount_sum(recipient_views(recipients@)) <= u64::MAX,
            outcome matches Ok(s) ==> (s.fee matches Some(f) ==> fee_sum(
                old(collector)@.transactions,
            ) + f <= u64::MAX),
        ensures
            r@ == settled_view(outcome),
            final(collector).wf(),
            final(collector)@ == old(collector)@.with_record(
                send_record(
                    wallet@,
                    scenario@,
                    send_label(true, recipients@.len()),
                    amount_sum(recipient_views(recipients@)) as u64,
                    settled_view(outcome),
                    timing,
                ),
            ),
    {
        let total: u64 = match total_amount(recipients) {
            Some(t) => t,
            None => 0,
        };
        let tx_type = labelled("batch_", recipients.len() as u64);
        settle_and_record(collector, wallet, scenario, tx_type.as_str(), total, outcome, timing)
    }
}

// ---------------------------------------------------------------------------
// What the patterns amount to
// ---------------------------------------------------------------------------

/// A pause that fits in its type is the interval itself.
proof fn lemma_interval_fits(recipients: usize, rate: Rate)
    requires
        rate.fits(recipients as int),
    ensures
        0 <= interval_ns(recipients as int, rate) <= u128::MAX,
{
    let n = recipients * rate.per_secs * NANOS;
    assert(0 <= recipients * rate.per_secs) by (nonlinear_arith);
    assert(0 <= n <= u64::MAX * 1_000_000_000);
    let x = 2 * n + rate.txs;
    let d = 2 * rate.txs;
    assert(0 <= x / d <= x) by (nonlinear_arith)
        requires
            x >= 0,
            d >= 1,
    ;
}

/// A pause is the time that so many transactions take at a rate, to half a
/// nanosecond.
pub open spec fn keeps_pace(pause_ns: int, recipients: int, txs: int, per_secs: int) -> bool {
    -txs < 2 * (pause_ns * txs - recipients * per_secs * 1_000_000_000) <= txs
}

/// At a rate, so many recipients at once keep the pace that they would keep
/// one by one.
pub proof fn law_interval_keeps_pace(recipients: usize, rate: Rate, r: u128)
    requires
        rate.fits(recipients as int),
        call_ensures(interval, (recipients, rate), r),
    ensures
        keeps_pace(r as int, recipients as int, rate.txs as int, rate.per_secs as int),
{
    lemma_interval_fits(recipients, rate);
    law_interval_is_nearest(recipients as nat, rate);
}

/// A constant pattern sends until its time is over, each time to a full batch,
/// or to one recipient where there are no batches, and pauses for the time that
/// its rate allows them.
pub proof fn law_constant_pattern_sends_at_its_rate(
    run: &mut LoadRun,
    elapsed_ns: u128,
    r: LoadAction,
)
    requires
        old(run).wf(),
        old(run).pattern is Constant,
        call_ensures(LoadRun::next, (run, elapsed_ns), r),
    ensures
        ({
            let duration_secs = old(run).pattern->Constant_duration_secs;
            let rate = old(run).pattern->Constant_rate;
            &&& elapsed_ns >= duration_secs * 1_000_000_000 <==> r == LoadAction::Finish
            &&& elapsed_ns < duration_secs * 1_000_000_000 ==> (r matches LoadAction::Send {
                recipients,
                batched,
                pause_ns,
            } && {
                &&& recipients >= 1
                &&& recipients == 1 || recipients == old(run).batch_size
                &&& recipients >= old(run).batch_size
                &&& batched == (old(run).batch_size > 1)
                &&& keeps_pace(
                    pause_ns as int,
                    recipients as int,
                    rate.txs as int,
                    rate.per_secs as int,
                )
            })
            &&& *final(run) == *old(run)
        }),
{
    let rate = old(run).pattern->Constant_rate;
    let size = send_size(old(run).batch_size);
    lemma_interval_fits(size, rate);
    law_interval_is_nearest(size as nat, rate);
}

/// A ramp sends until its time is over, at the rate it has come to. Once more
/// than a step interval has passed since it last stepped up, it steps up by one
/// step, to no more than its maximum; before that, and at its maximum, it keeps
/// its rate.
pub proof fn law_ramp_steps_up_in_time(run: &mut LoadRun, elapsed_ns: u128, r: LoadAction)
    requires
        old(run).wf(),
        old(run).pattern is Ramp,
        call_ensures(LoadRun::next, (run, elapsed_ns), r),
    ensures
        ({
            let step_txs = old(run).pattern->step_txs;
            let max_txs = old(run).pattern->max_txs;
            let per_secs = old(run).pattern->per_secs;
            let step_ns = old(run).pattern->step_interval_secs * 1_000_000_000;
            let over_ns = old(run).pattern->Ramp_duration_secs * 1_000_000_000;
            let now = old(run).current_txs;
            let rate = final(run).current_txs;
            &&& elapsed_ns >= over_ns <==> r == LoadAction::Finish
            &&& elapsed_ns < over_ns && elapsed_ns - old(run).last_step_ns > step_ns && now
                < max_txs ==> {
                &&& now + step_txs <= max_txs ==> rate == now + step_txs
                &&& now + step_txs > max_txs ==> rate == max_txs
                &&& final(run).last_step_ns == elapsed_ns
            }
            &&& elapsed_ns >= over_ns || elapsed_ns - old(run).last_step_ns <= step_ns || now
                >= max_txs ==> {
                &&& rate == now
                &&& final(run).last_step_ns == old(run).last_step_ns
            }
            &&& elapsed_ns < over_ns ==> (r matches LoadAction::Send {
                recipients,
                batched,
                pause_ns,
            } && {
                &&& recipients >= 1
                &&& recipients == 1 || recipients == old(run).batch_size
                &&& recipients >= old(run).batch_size
                &&& batched == (old(run).batch_size > 1)
                &&& keeps_pace(pause_ns as int, recipients as int, rate as int, per_secs as int)
            })
            &&& final(run).pattern == old(run).pattern
            &&& final(run).batch_size == old(run).batch_size
        }),
{
    if elapsed_ns < secs_ns(old(run).pattern->Ramp_duration_secs) {
        let rate = Rate {
            txs: final(run).current_txs,
            per_secs: old(run).pattern->per_secs,
        };
        let size = send_size(old(run).batch_size);
        assert(final(run).current_txs == old(run).ramp_txs(elapsed_ns));
        assert(rate.fits(size as int));
        lemma_interval_fits(size, rate);
        law_interval_is_nearest(size as nat, rate);
    }
}

/// A burst sends without a pause until it has reached its count, each time to
/// a full batch or to what is left, and counts what it sends to.
pub proof fn law_burst_counts_its_recipients(run: &mut LoadRun, elapsed_ns: u128, r: LoadAction)
    requires
        old(run).wf(),
        old(run).pattern is Burst,
        call_ensures(LoadRun::next, (run, elapsed_ns), r),
    ensures
        ({
            let left = old(run).pattern->count - old(run).sent;
            &&& left == 0 <==> r == LoadAction::Finish
            &&& left > 0 ==> (r matches LoadAction::Send { recipients, batched, pause_ns } && {
                &&& 1 <= recipients <= left
                &&& recipients == left || recipients == 1 || recipients == old(run).batch_size
                &&& recipients <= 1 || recipients <= old(run).batch_size
                &&& recipients == left || recipients >= old(run).batch_size
                &&& batched == (old(run).batch_size > 1)
                &&& pause_ns == 0
                &&& final(run).sent == old(run).sent + recipients
            })
            &&& left == 0 ==> final(run).sent == old(run).sent
            &&& final(run).pattern == old(run).pattern
            &&& final(run).batch_size == old(run).batch_size
        }),
{
}

/// A Poisson pattern draws a random wait and then sends, in turn, until its
/// time is over: the wait has the mean that the recipients of the send take at
/// the pattern's rate, and the send has no further pause.
pub proof fn law_poisson_waits_before_each_send(
    run: &mut LoadRun,
    elapsed_ns: u128,
    r: LoadAction,
)
    requires
        old(run).wf(),
        old(run).pattern is Poisson,
        call_ensures(LoadRun::next, (run, elapsed_ns), r),
    ensures
        ({
            let over_ns = old(run).pattern->Poisson_duration_secs * 1_000_000_000;
            let size = if old(run).batch_size > 1 {
                old(run).batch_size
            } else {
                1
            };
            &&& elapsed_ns >= over_ns <==> r == LoadAction::Finish
            &&& elapsed_ns < over_ns && !old(run).drawn ==> r == (LoadAction::Draw {
                recipients: size,
                rate: old(run).pattern->Poisson_rate,
            }) && final(run).drawn
            &&& elapsed_ns < over_ns && old(run).drawn ==> r == (LoadAction::Send {
                recipients: size,
                batched: old(run).batch_size > 1,
                pause_ns: 0,
            }) && !final(run).drawn
            &&& elapsed_ns >= over_ns ==> *final(run) == *old(run)
            &&& final(run).pattern == old(run).pattern
            &&& final(run).batch_size == old(run).batch_size
        }),
{
}

/// A run begins at its pattern's lowest rate, with nothing sent and no wait
/// behind it. Without a batch size it makes single sends.
pub proof fn law_run_begins_at_the_start(
    pattern: LoadPattern,
    batch_size: usize,
    r: LoadRun,
    single: LoadRun,
    plain: LoadRun,
)
    requires
        call_ensures(LoadRun::new, (pattern, batch_size), plain),
        call_ensures(LoadGenerator::execute_with_batch, (pattern, batch_size), r),
        call_ensures(LoadGenerator::execute, (pattern,), single),
    ensures
        plain == r,
        r.pattern == pattern,
        r.batch_size == batch_size,
        r.sent == 0,
        !r.drawn,
        r.last_step_ns == 0,
        pattern matches LoadPattern::Ramp { start_txs, .. } ==> r.current_txs == start_txs,
        single.pattern == pattern,
        single.batch_size == 1,
        single.sent == 0,
        !single.drawn,
        single.last_step_ns == 0,
        pattern matches LoadPattern::Ramp { start_txs, .. } ==> single.current_txs == start_txs,
{
}

/// A run once it was asked at the given times.
pub open spec fn run_after(run: LoadRun, times: Seq<u128>) -> LoadRun
    decreases times.len(),
{
    if times.len() == 0 {
        run
    } else {
        run_after(run, times.drop_last()).state_after(times.last())
    }
}

/// Neighbouring times lie in order and no more than `gap_ns` apart, the first
/// of them no more than that after the start.
pub open spec fn asked_often(times: Seq<u128>, gap_ns: int) -> bool {
    &&& times.len() > 0 ==> times[0] <= gap_ns
    &&& forall|i: int|
        0 <= i < times.len() - 1 ==> #[trigger] times[i] <= times[i + 1] <= times[i] + gap_ns
}

/// A ramp below its maximum has made as many steps as it could, each of them
/// no more than a step interval and a gap after the one before.
proof fn lemma_ramp_keeps_up(pattern: LoadPattern, batch_size: usize, times: Seq<u128>, gap_ns: int) -> (
    k: int)
    requires
        pattern is Ramp,
        pattern->start_txs <= pattern->max_txs,
        asked_often(times, gap_ns),
        gap_ns >= 0,
        times.len() > 0 ==> times.last() < pattern->Ramp_duration_secs * 1_000_000_000,
    ensures
        ({
            let w = run_after(LoadRun::begun(pattern, batch_size), times);
            let step_ns = pattern->step_interval_secs * 1_000_000_000;
            &&& k >= 0
            &&& w.pattern == pattern
            &&& w.batch_size == batch_size
            &&& w.current_txs <= pattern->max_txs
            &&& w.current_txs < pattern->max_txs ==> {
                &&& w.current_txs == pattern->start_txs + k * pattern->step_txs
                &&& w.last_step_ns <= k * (step_ns + gap_ns)
                &&& times.len() > 0 ==> times.last() <= w.last_step_ns + step_ns
            }
        }),
    decreases times.len(),
{
    let step_ns = pattern->step_interval_secs * 1_000_000_000;
    let step = pattern->step_txs as int;
    let each = step_ns + gap_ns;
    if times.len() == 0 {
        assert(0 * step == 0 && 0 * each == 0) by (nonlinear_arith);
        0
    } else {
        let rest = times.drop_last();
        let last = times.len() - 1;
        assert(asked_often(rest, gap_ns)) by {
            assert forall|i: int| 0 <= i < rest.len() - 1 implies #[trigger] rest[i] <= rest[i + 1]
                <= rest[i] + gap_ns by {
                assert(rest[i] == times[i]);
                assert(rest[i + 1] == times[i + 1]);
            }
        }
        if rest.len() > 0 {
            assert(rest.last() == times[last - 1]);
            assert(times[last - 1] <= times[last - 1 + 1] <= times[last - 1] + gap_ns);
        }
        let k = lemma_ramp_keeps_up(pattern, batch_size, rest, gap_ns);
        let before = run_after(LoadRun::begun(pattern, batch_size), rest);
        assert((k + 1) * step == k * step + step) by (nonlinear_arith);
        assert((k + 1) * each == k * each + each) by (nonlinear_arith);
        if before.steps_up(times.last()) {
            k + 1
        } else {
            k
        }
    }
}

/// A ramp that is asked often enough reaches its maximum: where `steps` steps
/// make up the difference, and no two asks lie further apart than `gap_ns`, it
/// is at its maximum at any ask later than `steps` step intervals, with a gap
/// between each two.
pub proof fn law_ramp_reaches_its_maximum(
    pattern: LoadPattern,
    batch_size: usize,
    times: Seq<u128>,
    gap_ns: int,
    steps: int,
)
    requires
        pattern is Ramp,
        pattern->start_txs <= pattern->max_txs,
        asked_often(times, gap_ns),
        gap_ns >= 0,
        times.len() > 0,
        times.last() < pattern->Ramp_duration_secs * 1_000_000_000,
        steps >= 1,
        pattern->start_txs + steps * pattern->step_txs >= pattern->max_txs,
        times.last() > steps * (pattern->step_interval_secs * 1_000_000_000) + (steps - 1) * gap_ns,
    ensures
        run_after(LoadRun::begun(pattern, batch_size), times).current_txs == pattern->max_txs,
        run_after(LoadRun::begun(pattern, batch_size), times).pattern == pattern,
        run_after(LoadRun::begun(pattern, batch_size), times).batch_size == batch_size,
{
    let k = lemma_ramp_keeps_up(pattern, batch_size, times, gap_ns);
    let w = run_after(LoadRun::begun(pattern, batch_size), times);
    let step_ns = pattern->step_interval_secs * 1_000_000_000;
    let step = pattern->step_txs as int;
    if w.current_txs < pattern->max_txs {
        assert(k < steps) by (nonlinear_arith)
            requires
                k * step < steps * step,
                step >= 0,
        ;
        assert(k * (step_ns + gap_ns) + step_ns <= steps * step_ns + (steps - 1) * gap_ns)
            by (nonlinear_arith)
            requires
                k <= steps - 1,
                step_ns >= 0,
                gap_ns >= 0,
        ;
    }
}

/// What a load pattern sends is recorded as it went: a single send by its
/// amount as `send`, a batch by what its recipients get together as `batch_`
/// and their number. The collector gains that one record, whatever came of the
/// send, and the result is handed on.
pub proof fn law_load_records_each_send(
    collector: &mut MetricsCollector,
    wallet: &str,
    scenario: &str,
    amount: u64,
    outcome: Result<SendResult, String>,
    timing: Timing,
    r: SendResult,
)
    requires
        call_ensures(
            LoadGenerator::send_and_record,
            (collector, wallet, scenario, amount, outcome, timing),
            r,
        ),
    ensures
        ({
            let told = final(collector)@.transactions.last();
            &&& final(collector)@.transactions == old(collector)@.transactions.push(told)
            &&& told.wallet == wallet@
            &&& told.scenario == scenario@
            &&& told.tx_type == "send"@
            &&& told.amount == amount
            &&& told.accepted == (outcome is Ok && outcome->Ok_0.accepted)
            &&& told.fee == match outcome {
                Ok(sent) => sent.fee,
                Err(_) => None,
            }
            &&& outcome is Err ==> told.error == Some(outcome->Err_0@)
            &&& outcome is Ok ==> told.tx_id == outcome->Ok_0.tx_id@
            &&& told.start_time == timing.start
            &&& told.end_time == timing.end
            &&& told.duration_ms == timing.duration_ms
            &&& r.accepted == told.accepted
            &&& r.fee == told.fee
            &&& r.tx_id@ == told.tx_id
        }),
        final(collector)@.snapshots == old(collector)@.snapshots,
        final(collector)@.scans == old(collector)@.scans,
{
}

/// A batch is recorded once, by what its recipients get together as `batch_`
/// and their number.
pub proof fn law_load_records_each_batch(
    collector: &mut MetricsCollector,
    wallet: &str,
    scenario: &str,
    recipients: Vec<Recipient>,
    outcome: Result<SendResult, String>,
    timing: Timing,
    r: SendResult,
)
    requires
        call_ensures(
            LoadGenerator::send_batch_and_record,
            (collector, wallet, scenario, &recipients, outcome, timing),
            r,
        ),
        recipient_views(recipients@).fold_left(
            0int,
            |sum: int, one: RecipientView| sum + one.amount,
        ) <= u64::MAX,
    ensures
        ({
            let told = final(collector)@.transactions.last();
            &&& final(collector)@.transactions == old(collector)@.transactions.push(told)
            &&& told.wallet == wallet@
            &&& told.scenario == scenario@
            &&& told.tx_type == "batch_"@ + decimal(recipients@.len())
            &&& told.amount == recipient_views(recipients@).fold_left(
                0int,
                |sum: int, one: RecipientView| sum + one.amount,
            )
            &&& told.accepted == (outcome is Ok && outcome->Ok_0.accepted)
            &&& told.fee == match outcome {
                Ok(sent) => sent.fee,
                Err(_) => None,
            }
            &&& outcome is Err ==> told.error == Some(outcome->Err_0@)
            &&& outcome is Ok ==> told.tx_id == outcome->Ok_0.tx_id@
            &&& told.start_time == timing.start
            &&& told.end_time == timing.end
            &&& told.duration_ms == timing.duration_ms
            &&& r.accepted == told.accepted
            &&& r.fee == told.fee
            &&& r.tx_id@ == told.tx_id
        }),
        final(collector)@.snapshots == old(collector)@.snapshots,
        final(collector)@.scans == old(collector)@.scans,
{
    lemma_amounts_fold(recipient_views(recipients@));
}

proof fn lemma_amounts_fold(s: Seq<RecipientView>)
    ensures
        amount_sum(s) == s.fold_left(0int, |sum: int, one: RecipientView| sum + one.amount),
    decreases s.len(),
{
    reveal(Seq::fold_left);
    if s.len() > 0 {
        lemma_amounts_fold(s.drop_last());
    }
}

/// A rate can be used where it is positive and finite and the seconds of a full
/// send can be counted. A pattern can be run where its rate can be used, or
/// where it needs none.
pub proof fn law_positive_rates_are_accepted(
    rate: Rate,
    recipients: usize,
    usable: bool,
    pattern: LoadPattern,
    batch_size: usize,
    accepted: bool,
)
    requires
        call_ensures(Rate::is_usable, (rate, recipients), usable),
        call_ensures(LoadGenerator::accepts, (pattern, batch_size), accepted),
    ensures
        usable <==> rate.txs > 0 && rate.per_secs > 0 && recipients * rate.per_secs <= u64::MAX,
        pattern is Burst ==> accepted,
        pattern is Ramp && pattern->Ramp_duration_secs == 0 ==> accepted,
        pattern is Poisson && pattern->Poisson_duration_secs == 0 ==> accepted,
        accepted && pattern is Constant ==> pattern->Constant_rate.txs > 0
            && pattern->Constant_rate.per_secs > 0,
        pattern is Constant && pattern->Constant_rate == rate && usable && recipients >= 1
            && recipients >= batch_size ==> accepted,
        pattern is Poisson && pattern->Poisson_rate == rate && usable && recipients >= 1
            && recipients >= batch_size ==> accepted,
        pattern is Ramp && pattern->start_txs == rate.txs && pattern->per_secs == rate.per_secs
            && usable && recipients >= 1 && recipients >= batch_size ==> accepted,
        accepted && pattern is Ramp && pattern->Ramp_duration_secs > 0 ==> pattern->start_txs > 0
            && pattern->per_secs > 0,
        accepted && pattern is Poisson && pattern->Poisson_duration_secs > 0
            ==> pattern->Poisson_rate.txs > 0 && pattern->Poisson_rate.per_secs > 0,
{
    let size = send_size(batch_size);
    if recipients >= 1 && recipients >= batch_size {
        assert(size * rate.per_secs <= recipients * rate.per_secs) by (nonlinear_arith)
            requires
                size <= recipients,
        ;
    }
}

/// Whatever a send is called and whatever came of it, the collector gains one
/// record that tells who sent how much, in which scenario, and when.
pub proof fn law_settled_send_is_recorded(
    collector: &mut MetricsCollector,
    wallet: &str,
    scenario: &str,
    tx_type: &str,
    amount: u64,
    outcome: Result<SendResult, String>,
    timing: Timing,
    r: SendResult,
)
    requires
        call_ensures(
            settle_and_record,
            (collector, wallet, scenario, tx_type, amount, outcome, timing),
            r,
        ),
    ensures
        ({
            let told = final(collector)@.transactions.last();
            &&& final(collector)@.transactions == old(collector)@.transactions.push(told)
            &&& told.wallet == wallet@
            &&& told.scenario == scenario@
            &&& told.tx_type == tx_type@
            &&& told.amount == amount
            &&& told.accepted == (outcome is Ok && outcome->Ok_0.accepted)
            &&& told.fee == match outcome {
                Ok(sent) => sent.fee,
                Err(_) => None,
            }
            &&& outcome is Err ==> told.error == Some(outcome->Err_0@)
            &&& outcome is Ok ==> told.tx_id == outcome->Ok_0.tx_id@
            &&& told.start_time == timing.start
            &&& told.end_time == timing.end
            &&& told.duration_ms == timing.duration_ms
            &&& r.accepted == told.accepted
            &&& r.fee == told.fee
            &&& r.tx_id@ == told.tx_id
        }),
        final(collector)@.snapshots == old(collector)@.snapshots,
        final(collector)@.scans == old(collector)@.scans,
{
}

} // verus!
