//! Lifecycle of a minotari_console_wallet child process.
use vstd::prelude::*;
use vstd::string::*;

use crate::text::{concat, decimal, labelled, lowercased, str_eq, texts, to_lowercase};
use crate::time::{is_over, secs_ns};

verus! {

/// How long to wait for gRPC, and for the scan. Recovery can take a while.
pub const MAX_WAIT_SECS: u64 = 3600;

/// The first pause between two attempts to connect.
pub const FIRST_BACKOFF_MS: u64 = 100;

/// The longest pause between two attempts to connect.
pub const MAX_BACKOFF_MS: u64 = 5000;

/// Seconds between two looks at the balance during the scan.
pub const SCAN_POLL_SECS: u64 = 10;

/// How long the balance must not change for the scan to be complete.
pub const SCAN_STABLE_SECS: u64 = 30;

/// How long a process that was asked to end may take.
pub const KILL_GRACE_SECS: u64 = 5;

/// Pause between two looks at a process that was asked to end.
pub const KILL_POLL_MS: u64 = 100;

/// Configuration for spawning a minotari_console_wallet process.
#[derive(Debug)]
pub struct OldWalletProcessConfig {
    pub binary_path: String,
    pub base_dir: String,
    pub grpc_port: u16,
    pub network: String,
    pub seed_words: String,
    pub password: String,
}

/// The old wallet's name for a network, given in lowercase. It uses short
/// names (e.g. "esme" not "esmeralda").
pub open spec fn network_arg_of(lower: Seq<char>) -> Seq<char> {
    if lower == "esmeralda"@ {
        "esme"@
    } else {
        lower
    }
}

/// The old wallet's name for a network, given in lowercase.
pub fn network_arg(lower: String) -> (r: String)
    ensures
        r@ == network_arg_of(lower@),
{
    if str_eq(lower.as_str(), "esmeralda") {
        "esme".to_owned()
    } else {
        lower
    }
}

/// The address at which the wallet is to listen.
pub open spec fn grpc_multiaddr_of(port: u16) -> Seq<char> {
    "/ip4/127.0.0.1/tcp/"@ + decimal(port as nat)
}

/// The URL at which the wallet is reached.
pub open spec fn grpc_url_of(port: u16) -> Seq<char> {
    "http://127.0.0.1:"@ + decimal(port as nat)
}

/// The arguments with which the wallet is started.
pub open spec fn spawn_args_of(c: OldWalletProcessConfig) -> Seq<Seq<char>> {
    seq![
        "-b"@,
        c.base_dir@,
        "--network"@,
        network_arg_of(lowercased(c.network@)),
        "--grpc-enabled"@,
        "--grpc-address"@,
        grpc_multiaddr_of(c.grpc_port),
        "--password"@,
        c.password@,
        "--seed-words"@,
        c.seed_words@,
        "--non-interactive-mode"@,
    ]
}

impl OldWalletProcessConfig {
    /// The URL at which the wallet is reached.
    pub fn grpc_url(&self) -> (r: String)
        ensures
            r@ == grpc_url_of(self.grpc_port),
    {
        labelled("http://127.0.0.1:", self.grpc_port as u64)
    }

    /// The arguments with which the wallet is started.
    pub fn spawn_args(&self) -> (r: Vec<String>)
        ensures
            texts(r@) == spawn_args_of(*self),
    {
        let mut args: Vec<String> = Vec::new();
        args.push("-b".to_owned());
        args.push(self.base_dir.clone());
        args.push("--network".to_owned());
        args.push(network_arg(to_lowercase(self.network.as_str())));
        args.push("--grpc-enabled".to_owned());
        args.push("--grpc-address".to_owned());
        args.push(labelled("/ip4/127.0.0.1/tcp/", self.grpc_port as u64));
        args.push("--password".to_owned());
        args.push(self.password.clone());
        args.push("--seed-words".to_owned());
        args.push(self.seed_words.clone());
        args.push("--non-interactive-mode".to_owned());
        assert(texts(args@) =~= spawn_args_of(*self));
        args
    }

    /// What is said where the process cannot be started.
    pub fn spawn_error(&self) -> (r: String)
        ensures
            r@ == "Failed to spawn minotari_console_wallet at '"@ + self.binary_path@ + "'"@,
    {
        let mut text = concat(
            "Failed to spawn minotari_console_wallet at '",
            self.binary_path.as_str(),
        );
        text.append("'");
        text
    }
}

// ---------------------------------------------------------------------------
// Waiting for gRPC
// ---------------------------------------------------------------------------

/// What a wait for gRPC does next.
#[derive(Clone, Copy, Debug, PartialEq, Eq, Structural)]
pub enum GrpcStep {
    /// The wallet answers.
    Ready,
    /// The time is up.
    TimedOut,
    /// Try again after so many milliseconds.
    Retry { after_ms: u64 },
}

/// A wait for gRPC under way.
#[derive(Clone, Copy, Debug, PartialEq, Eq, Structural)]
pub struct GrpcWait {
    pub backoff_ms: u64,
}

/// The pause after so many failed attempts: it doubles each time, up to the
/// longest.
pub open spec fn backoff_after(attempts: nat) -> u64
    decreases attempts,
{
    if attempts == 0 {
        FIRST_BACKOFF_MS
    } else {
        doubled(backoff_after((attempts - 1) as nat))
    }
}

/// Twice a pause, but no more than the longest.
pub open spec fn doubled(ms: u64) -> u64 {
    if ms * 2 < MAX_BACKOFF_MS {
        (ms * 2) as u64
    } else {
        MAX_BACKOFF_MS
    }
}

impl GrpcWait {
    /// The pause stays within its bound.
    pub open spec fn wf(self) -> bool {
        FIRST_BACKOFF_MS <= self.backoff_ms <= MAX_BACKOFF_MS
    }

    /// Before the first attempt.
    pub fn new() -> (r: Self)
        ensures
            r.wf(),
            r == (GrpcWait { backoff_ms: backoff_after(0) }),
    {
        GrpcWait { backoff_ms: FIRST_BACKOFF_MS }
    }

    /// Ends the wait where the process has ended, with the status that it left.
    pub fn check_child(exit_status: &Option<String>) -> (r: Result<(), String>)
        ensures
            match exit_status {
                None => r is Ok,
                Some(status) => r matches Err(e) && e@
                    == "minotari_console_wallet exited prematurely with status: "@ + status@,
            },
    {
        match exit_status {
            None => Ok(()),
            Some(status) => Err(
                concat(
                    "minotari_console_wallet exited prematurely with status: ",
                    status.as_str(),
                ),
            ),
        }
    }

    /// Decides how to go on after an attempt.
    pub fn attempted(&mut self, ready: bool, elapsed_ns: u128) -> (r: GrpcStep)
        requires
            old(self).wf(),
        ensures
            final(self).wf(),
            r == (if ready {
                GrpcStep::Ready
            } else if elapsed_ns > secs_ns(MAX_WAIT_SECS) {
                GrpcStep::TimedOut
            } else {
                GrpcStep::Retry { after_ms: old(self).backoff_ms }
            }),
            final(self).backoff_ms == (if r is Retry {
                doubled(old(self).backoff_ms)
            } else {
                old(self).backoff_ms
            }),
    {
        if ready {
            return GrpcStep::Ready;
        }
        if is_over(elapsed_ns, MAX_WAIT_SECS) {
            return GrpcStep::TimedOut;
        }
        let after_ms: u64 = self.backoff_ms;
        self.backoff_ms =
        if after_ms * 2 < MAX_BACKOFF_MS {
            after_ms * 2
        } else {
            MAX_BACKOFF_MS
        };
        GrpcStep::Retry { after_ms }
    }

    /// What is said where the time is up.
    pub fn timeout_error(grpc_addr: &str) -> (r: String)
        ensures
            r@ == "Timed out after 3600s waiting for old wallet gRPC at "@ + grpc_addr@,
    {
        concat("Timed out after 3600s waiting for old wallet gRPC at ", grpc_addr)
    }
}

/// Two to the power of `n`.
pub open spec fn power_of_two(n: nat) -> nat
    decreases n,
{
    if n == 0 {
        1
    } else {
        2 * power_of_two((n - 1) as nat)
    }
}

/// The pause after `n` failed attempts is 100 ms times two to the power of
/// `n`, or 5 s where that is more; it never falls.
pub proof fn law_backoff_doubles(n: nat)
    ensures
        backoff_after(n) == (if FIRST_BACKOFF_MS * power_of_two(n) < MAX_BACKOFF_MS {
            FIRST_BACKOFF_MS * power_of_two(n)
        } else {
            MAX_BACKOFF_MS as int
        }),
        backoff_after(n) <= backoff_after(n + 1) <= MAX_BACKOFF_MS,
    decreases n,
{
    if n > 0 {
        law_backoff_doubles((n - 1) as nat);
    }
}

// ---------------------------------------------------------------------------
// Waiting for the scan
// ---------------------------------------------------------------------------

/// What a wait for the scan does next.
#[derive(Clone, Copy, Debug, PartialEq, Eq, Structural)]
pub enum ScanWaitStep {
    /// The scan is complete.
    Complete,
    /// Look again after so many seconds.
    Poll { secs: u64 },
}

/// A wait for the blockchain scan under way. Times are nanoseconds since its
/// start.
#[derive(Clone, Copy, Debug, PartialEq, Eq, Structural)]
pub struct ScanWait {
    pub last_balance: Option<u64>,
    pub last_change_ns: u128,
    pub seen_positive_balance: bool,
}

impl ScanWait {
    /// Before the first look.
    pub open spec fn begun() -> ScanWait {
        ScanWait { last_balance: None, last_change_ns: 0, seen_positive_balance: false }
    }

    /// The wait after a look at the balance.
    pub open spec fn observed(self, available: u64, pending: u64, elapsed_ns: u128) -> ScanWait {
        ScanWait {
            last_balance: Some(available),
            last_change_ns: match self.last_balance {
                Some(prev) if prev != available => elapsed_ns,
                _ => self.last_change_ns,
            },
            seen_positive_balance: self.seen_positive_balance || available > 0 || pending > 0,
        }
    }

    /// The balance is the same as at the look before, some balance was seen,
    /// and the last change lies far enough back.
    pub open spec fn complete(self, available: u64, pending: u64, elapsed_ns: u128) -> bool {
        &&& self.last_balance == Some(available)
        &&& self.seen_positive_balance || available > 0 || pending > 0
        &&& elapsed_ns - self.last_change_ns > secs_ns(SCAN_STABLE_SECS)
    }

    /// Before the first look.
    pub fn new() -> (r: Self)
        ensures
            r == ScanWait::begun(),
    {
        ScanWait { last_balance: None, last_change_ns: 0, seen_positive_balance: false }
    }

    /// Whether the time is up.
    pub fn is_timed_out(elapsed_ns: u128) -> (r: bool)
        ensures
            r == (elapsed_ns > secs_ns(MAX_WAIT_SECS)),
    {
        is_over(elapsed_ns, MAX_WAIT_SECS)
    }

    /// Takes note of a look at the balance. A look that failed is not noted.
    pub fn observe(&mut self, available: u64, pending: u64, elapsed_ns: u128) -> (r: ScanWaitStep)
        requires
            available + pending <= u64::MAX,
        ensures
            *final(self) == old(self).observed(available, pending, elapsed_ns),
            r == (if old(self).complete(available, pending, elapsed_ns) {
                ScanWaitStep::Complete
            } else {
                ScanWaitStep::Poll { secs: SCAN_POLL_SECS }
            }),
    {
        if available + pending > 0 {
            self.seen_positive_balance = true;
        }
        let mut done = false;
        if let Some(prev) = self.last_balance {
            if prev != available {
                self.last_change_ns = elapsed_ns;
            } else if self.seen_positive_balance && elapsed_ns > self.last_change_ns && is_over(
                elapsed_ns - self.last_change_ns,
                SCAN_STABLE_SECS,
            ) {
                done = true;
            }
        }
        self.last_balance = Some(available);
        if done {
            ScanWaitStep::Complete
        } else {
            ScanWaitStep::Poll { secs: SCAN_POLL_SECS }
        }
    }
}

/// A look at the balance.
pub struct Look {
    pub available: u64,
    pub pending: u64,
    pub elapsed_ns: u128,
}

/// The wait after a series of looks.
pub open spec fn after_looks(looks: Seq<Look>) -> ScanWait
    decreases looks.len(),
{
    if looks.len() == 0 {
        ScanWait::begun()
    } else {
        after_looks(looks.drop_last()).observed(
            looks.last().available,
            looks.last().pending,
            looks.last().elapsed_ns,
        )
    }
}

/// An empty wallet never counts as scanned: the scan is complete only where
/// some look, the latest included, found a balance.
pub proof fn law_scan_needs_a_balance(looks: Seq<Look>, now: Look)
    requires
        after_looks(looks).complete(now.available, now.pending, now.elapsed_ns),
    ensures
        now.available > 0 || now.pending > 0 || exists|i: int|
            0 <= i < looks.len() && (#[trigger] looks[i].available > 0 || looks[i].pending > 0),
{
    if now.available == 0 && now.pending == 0 {
        lemma_positive_was_seen(looks);
    }
}

proof fn lemma_positive_was_seen(looks: Seq<Look>)
    requires
        after_looks(looks).seen_positive_balance,
    ensures
        exists|i: int|
            0 <= i < looks.len() && (#[trigger] looks[i].available > 0 || looks[i].pending > 0),
    decreases looks.len(),
{
    let rest = looks.drop_last();
    let last = looks.len() - 1;
    if looks[last].available > 0 || looks[last].pending > 0 {
    } else {
        lemma_positive_was_seen(rest);
        let i = choose|i: int|
            0 <= i < rest.len() && (#[trigger] rest[i].available > 0 || rest[i].pending > 0);
        assert(looks[i] == rest[i]);
        assert(looks[i].available > 0 || looks[i].pending > 0);
    }
}

// ---------------------------------------------------------------------------
// Ending the process
// ---------------------------------------------------------------------------

/// What is known of a process.
#[derive(Clone, Copy, Debug, PartialEq, Eq, Structural)]
pub enum ChildState {
    Exited,
    Running,
    /// The process could not be asked.
    Unknown,
}

/// What to do about a process that was asked to end.
#[derive(Clone, Copy, Debug, PartialEq, Eq, Structural)]
pub enum KillStep {
    /// It has ended.
    Done,
    /// Look again after so many milliseconds.
    Poll { ms: u64 },
    /// End it by force.
    Force,
}

/// What is done about a process that was asked to end `elapsed_ns` ago.
pub open spec fn kill_step_of(child: ChildState, elapsed_ns: u128) -> KillStep {
    match child {
        ChildState::Exited => KillStep::Done,
        ChildState::Unknown => KillStep::Force,
        ChildState::Running => if elapsed_ns > secs_ns(KILL_GRACE_SECS) {
            KillStep::Force
        } else {
            KillStep::Poll { ms: KILL_POLL_MS }
        },
    }
}

/// Decides about a process that was asked to end `elapsed_ns` ago.
pub fn kill_step(child: ChildState, elapsed_ns: u128) -> (r: KillStep)
    ensures
        r == kill_step_of(child, elapsed_ns),
{
    match child {
        ChildState::Exited => KillStep::Done,
        ChildState::Unknown => KillStep::Force,
        ChildState::Running => if is_over(elapsed_ns, KILL_GRACE_SECS) {
            KillStep::Force
        } else {
            KillStep::Poll { ms: KILL_POLL_MS }
        },
    }
}

/// A signal to a process.
#[derive(Clone, Copy, Debug, PartialEq, Eq, Structural)]
pub enum Signal {
    /// Asks it to end.
    Terminate,
    /// Ends it by force.
    Kill,
}

/// Whether there is a child process to end.
#[derive(Clone, Copy, Debug, PartialEq, Eq, Structural)]
pub struct ChildHold {
    pub held: bool,
}

/// Whether looks at a process that was asked to end, each with the time since,
/// come to ending it by force.
pub open spec fn forced_by(looks: Seq<(ChildState, u128)>) -> bool
    decreases looks.len(),
{
    looks.len() > 0 && match kill_step_of(looks[0].0, looks[0].1) {
        KillStep::Done => false,
        KillStep::Poll { .. } => forced_by(looks.skip(1)),
        KillStep::Force => true,
    }
}

impl ChildHold {
    /// The hold after an attempt to end the process.
    pub open spec fn after_kill(self) -> ChildHold {
        ChildHold { held: false }
    }

    /// The signals that an attempt to end the process sends, given what is seen
    /// of it meanwhile.
    pub open spec fn signals(self, looks: Seq<(ChildState, u128)>) -> Seq<Signal> {
        if !self.held {
            Seq::empty()
        } else if forced_by(looks) {
            seq![Signal::Terminate, Signal::Kill]
        } else {
            seq![Signal::Terminate]
        }
    }

    /// A process that was just started.
    pub fn new() -> (r: Self)
        ensures
            r == (ChildHold { held: true }),
    {
        ChildHold { held: true }
    }

    /// The process has ended on its own.
    pub fn lost(&mut self)
        ensures
            *final(self) == (ChildHold { held: false }),
    {
        self.held = false;
    }

    /// Begins to end the process, and gives the signal to begin with, if there
    /// is a process. From then on there is none.
    pub fn begin_kill(&mut self) -> (r: Option<Signal>)
        ensures
            *final(self) == old(self).after_kill(),
            r == (if old(self).held {
                Some(Signal::Terminate)
            } else {
                None
            }),
    {
        let held = self.held;
        self.held = false;
        if held {
            Some(Signal::Terminate)
        } else {
            None
        }
    }
}

/// Ending the process a second time signals nothing, whatever was seen the
/// first time; and a process that has ended on its own is not signalled either.
pub proof fn law_second_kill_signals_nothing(
    hold: ChildHold,
    looks: Seq<(ChildState, u128)>,
)
    ensures
        hold.after_kill().signals(looks) == Seq::<Signal>::empty(),
        hold.after_kill().after_kill() == hold.after_kill(),
        !hold.held ==> hold.signals(looks) == Seq::<Signal>::empty(),
{
}

/// A process is asked to end before it is ended by force, and one that is seen
/// to have ended, with every look before it in time, is not ended by force.
pub proof fn law_force_comes_last(
    hold: ChildHold,
    looks: Seq<(ChildState, u128)>,
    k: int,
)
    requires
        hold.held,
    ensures
        hold.signals(looks)[0] == Signal::Terminate,
        0 <= k < looks.len() && looks[k].0 == ChildState::Exited && (forall|i: int|
            0 <= i < k ==> (#[trigger] looks[i]).0 == ChildState::Running && looks[i].1 <= secs_ns(
                KILL_GRACE_SECS,
            )) ==> hold.signals(looks) == seq![Signal::Terminate],
    decreases k,
{
    if 0 < k < looks.len() && forall|i: int|
        0 <= i < k ==> (#[trigger] looks[i]).0 == ChildState::Running && looks[i].1 <= secs_ns(
            KILL_GRACE_SECS,
        ) {
        let rest = looks.skip(1);
        assert(looks[0].0 == ChildState::Running);
        assert(rest[k - 1] == looks[k]);
        assert forall|i: int| 0 <= i < k - 1 implies (#[trigger] rest[i]).0 == ChildState::Running
            && rest[i].1 <= secs_ns(KILL_GRACE_SECS) by {
            assert(rest[i] == looks[i + 1]);
        }
        law_force_comes_last(hold, rest, k - 1);
    }
}

// ---------------------------------------------------------------------------
// What the waits amount to
// ---------------------------------------------------------------------------

/// No look lies before an earlier one.
pub open spec fn looks_in_time(looks: Seq<Look>) -> bool {
    forall|i: int, j: int|
        #![trigger looks[i], looks[j]]
        0 <= i <= j < looks.len() ==> looks[i].elapsed_ns <= looks[j].elapsed_ns
}

/// What a wait has noted of its looks: the last one, and a change that lies no
/// further back than any look that found something else and any that found a
/// change.
proof fn lemma_last_change(looks: Seq<Look>)
    requires
        looks_in_time(looks),
        looks.len() > 0,
    ensures
        after_looks(looks).last_balance == Some(looks.last().available),
        after_looks(looks).last_change_ns <= looks.last().elapsed_ns,
        forall|k: int|
            0 <= k < looks.len() && (#[trigger] looks[k]).available != looks.last().available
                ==> after_looks(looks).last_change_ns >= looks[k].elapsed_ns,
        forall|k: int|
            0 <= k < looks.len() - 1 && (#[trigger] looks[k]).available != looks[k + 1].available
                ==> after_looks(looks).last_change_ns >= looks[k + 1].elapsed_ns,
    decreases looks.len(),
{
    let rest = looks.drop_last();
    assert(looks_in_time(rest)) by {
        assert forall|i: int, j: int|
            #![trigger rest[i], rest[j]]
            0 <= i <= j < rest.len() implies rest[i].elapsed_ns <= rest[j].elapsed_ns by {
            assert(rest[i] == looks[i] && rest[j] == looks[j]);
        }
    }
    let w = after_looks(looks);
    if rest.len() > 0 {
        lemma_last_change(rest);
        let m = rest.len() - 1;
        assert(rest.last() == looks[m]);
        assert(looks.last() == looks[m + 1]);
        assert forall|k: int|
            0 <= k < looks.len() && (#[trigger] looks[k]).available
                != looks.last().available implies w.last_change_ns >= looks[k].elapsed_ns by {
            assert(k < rest.len());
            assert(rest[k] == looks[k]);
            assert(looks[k].elapsed_ns <= looks[m + 1].elapsed_ns);
        }
        assert forall|k: int|
            0 <= k < looks.len() - 1 && (#[trigger] looks[k]).available != looks[k
                + 1].available implies w.last_change_ns >= looks[k + 1].elapsed_ns by {
            assert(looks[k + 1].elapsed_ns <= looks[m + 1].elapsed_ns);
            if k < m {
                assert(rest[k] == looks[k]);
                assert(rest[k + 1] == looks[k + 1]);
            }
        }
    } else {
        assert(after_looks(rest) == ScanWait::begun());
    }
}

/// The last change lies no further on than a look from which on every look
/// found the same.
proof fn lemma_unchanged_since(looks: Seq<Look>, m: int)
    requires
        looks_in_time(looks),
        0 <= m < looks.len(),
        forall|k: int|
            m <= k < looks.len() ==> (#[trigger] looks[k]).available == looks[m].available,
    ensures
        after_looks(looks).last_change_ns <= looks[m].elapsed_ns,
    decreases looks.len(),
{
    lemma_last_change(looks);
    if m < looks.len() - 1 {
        let rest = looks.drop_last();
        assert(looks_in_time(rest)) by {
            assert forall|i: int, j: int|
                #![trigger rest[i], rest[j]]
                0 <= i <= j < rest.len() implies rest[i].elapsed_ns <= rest[j].elapsed_ns by {
                assert(rest[i] == looks[i] && rest[j] == looks[j]);
            }
        }
        assert forall|k: int|
            m <= k < rest.len() implies (#[trigger] rest[k]).available == rest[m].available by {
            assert(rest[k] == looks[k]);
        }
        lemma_unchanged_since(rest, m);
        lemma_last_change(rest);
        let last = looks.len() - 1;
        assert(rest.last() == looks[last - 1]);
        assert(looks[last].available == looks[last - 1].available);
    }
}

proof fn lemma_positive_is_kept(looks: Seq<Look>, p: int)
    requires
        0 <= p < looks.len(),
        looks[p].available > 0 || looks[p].pending > 0,
    ensures
        after_looks(looks).seen_positive_balance,
    decreases looks.len(),
{
    if p < looks.len() - 1 {
        assert(looks.drop_last()[p] == looks[p]);
        lemma_positive_is_kept(looks.drop_last(), p);
    }
}

/// Two neighbouring looks that found different balances keep the scan from
/// being complete for half a minute: no look within 30 seconds of the second
/// of them ends the wait. It asks for another look 10 seconds later.
pub proof fn law_change_holds_the_scan_open(
    looks: Seq<Look>,
    now: Look,
    i: int,
    wait: &mut ScanWait,
    r: ScanWaitStep,
)
    requires
        looks_in_time(looks.push(now)),
        0 <= i < looks.len(),
        looks[i].available != looks.push(now)[i + 1].available,
        now.elapsed_ns <= looks.push(now)[i + 1].elapsed_ns + 30_000_000_000,
        *old(wait) == after_looks(looks),
        call_ensures(
            ScanWait::observe,
            (wait, now.available, now.pending, now.elapsed_ns),
            r,
        ),
    ensures
        !after_looks(looks).complete(now.available, now.pending, now.elapsed_ns),
        r == (ScanWaitStep::Poll { secs: 10 }),
        *final(wait) == after_looks(looks.push(now)),
{
    let all = looks.push(now);
    assert(all.drop_last() =~= looks);
    assert(looks_in_time(looks)) by {
        assert forall|a: int, b: int|
            #![trigger looks[a], looks[b]]
            0 <= a <= b < looks.len() implies looks[a].elapsed_ns <= looks[b].elapsed_ns by {
            assert(all[a] == looks[a] && all[b] == looks[b]);
        }
    }
    lemma_last_change(looks);
    if i < looks.len() - 1 {
        assert(all[i + 1] == looks[i + 1]);
        assert(after_looks(looks).last_change_ns >= looks[i + 1].elapsed_ns);
    } else {
        assert(looks[i] == looks.last());
    }
}

/// Where the scan is called complete, every look of the last 30 seconds found
/// the balance that the latest one found, there was a look before it, and some
/// look found more than nothing.
pub proof fn law_complete_scan_is_still(looks: Seq<Look>, now: Look, k: int)
    requires
        looks_in_time(looks.push(now)),
        after_looks(looks).complete(now.available, now.pending, now.elapsed_ns),
    ensures
        looks.len() > 0,
        now.elapsed_ns > 30_000_000_000,
        0 <= k < looks.len() && looks[k].elapsed_ns >= now.elapsed_ns - 30_000_000_000
            ==> looks[k].available == now.available,
        now.available > 0 || now.pending > 0 || exists|i: int|
            0 <= i < looks.len() && (#[trigger] looks[i].available > 0 || looks[i].pending > 0),
{
    let all = looks.push(now);
    law_scan_needs_a_balance(looks, now);
    assert(looks_in_time(looks)) by {
        assert forall|a: int, b: int|
            #![trigger looks[a], looks[b]]
            0 <= a <= b < looks.len() implies looks[a].elapsed_ns <= looks[b].elapsed_ns by {
            assert(all[a] == looks[a] && all[b] == looks[b]);
        }
    }
    if looks.len() > 0 {
        lemma_last_change(looks);
    }
}

/// A balance that every look since look `m` has found ends the wait more than
/// 30 seconds after look `m`, where some look, the latest included, found more
/// than nothing.
pub proof fn law_still_scan_is_complete(
    looks: Seq<Look>,
    now: Look,
    m: int,
    p: int,
    wait: &mut ScanWait,
    r: ScanWaitStep,
)
    requires
        looks_in_time(looks),
        0 <= m < looks.len(),
        forall|k: int|
            m <= k < looks.len() ==> (#[trigger] looks[k]).available == now.available,
        now.elapsed_ns > looks[m].elapsed_ns + 30_000_000_000,
        (0 <= p < looks.len() && (looks[p].available > 0 || looks[p].pending > 0))
            || now.available > 0 || now.pending > 0,
        *old(wait) == after_looks(looks),
        call_ensures(
            ScanWait::observe,
            (wait, now.available, now.pending, now.elapsed_ns),
            r,
        ),
    ensures
        after_looks(looks).complete(now.available, now.pending, now.elapsed_ns),
        r == ScanWaitStep::Complete,
{
    assert(looks[m].available == now.available);
    lemma_last_change(looks);
    lemma_unchanged_since(looks, m);
    if 0 <= p < looks.len() && (looks[p].available > 0 || looks[p].pending > 0) {
        lemma_positive_is_kept(looks, p);
    }
    assert(looks[looks.len() - 1].available == now.available);
}

/// A wait begins with no look behind it, and lasts an hour.
pub proof fn law_scan_wait_lasts_an_hour(
    wait: ScanWait,
    elapsed_ns: u128,
    timed_out: bool,
)
    requires
        call_ensures(ScanWait::new, (), wait),
        call_ensures(ScanWait::is_timed_out, (elapsed_ns,), timed_out),
    ensures
        wait == after_looks(Seq::empty()),
        timed_out <==> elapsed_ns > 3_600_000_000_000,
{
}

/// The wait for gRPC ends when the wallet answers, or at the first failed
/// attempt more than an hour after its start. Until then it tries again: the
/// first pause is 100 ms, and each is twice the one before, but never more
/// than 5 s.
pub proof fn law_grpc_pauses_double(
    fresh: GrpcWait,
    wait: &mut GrpcWait,
    ready: bool,
    elapsed_ns: u128,
    r: GrpcStep,
)
    requires
        call_ensures(GrpcWait::new, (), fresh),
        call_ensures(GrpcWait::attempted, (wait, ready, elapsed_ns), r),
    ensures
        fresh.backoff_ms == 100,
        ready <==> r == GrpcStep::Ready,
        r == GrpcStep::TimedOut <==> !ready && elapsed_ns > 3_600_000_000_000,
        r is Retry <==> !ready && elapsed_ns <= 3_600_000_000_000,
        r matches GrpcStep::Retry { after_ms } ==> {
            &&& after_ms == old(wait).backoff_ms
            &&& final(wait).backoff_ms <= 5000
            &&& final(wait).backoff_ms <= 2 * after_ms
            &&& final(wait).backoff_ms == 5000 || final(wait).backoff_ms == 2 * after_ms
        },
{
}

/// A process that was asked to end has five seconds to do so. Looked at every
/// tenth of a second meanwhile, it is ended by force only after that, or where
/// it cannot be asked, and never once it has ended.
pub proof fn law_process_has_five_seconds(child: ChildState, elapsed_ns: u128, r: KillStep)
    requires
        call_ensures(kill_step, (child, elapsed_ns), r),
    ensures
        child == ChildState::Exited <==> r == KillStep::Done,
        child == ChildState::Unknown ==> r == KillStep::Force,
        child == ChildState::Running && elapsed_ns <= 5_000_000_000 ==> r == (KillStep::Poll {
            ms: 100,
        }),
        child == ChildState::Running && elapsed_ns > 5_000_000_000 ==> r == KillStep::Force,
{
}

/// A process that was started is asked to end once, and once only; one that
/// ended on its own is not.
pub proof fn law_process_is_asked_once(
    started: ChildHold,
    hold: &mut ChildHold,
    first: Option<Signal>,
    again: &mut ChildHold,
    second: Option<Signal>,
    lost: &mut ChildHold,
)
    requires
        call_ensures(ChildHold::new, (), started),
        *old(hold) == started,
        call_ensures(ChildHold::begin_kill, (hold,), first),
        *old(again) == *final(hold) || (*old(again) == *final(lost) && call_ensures(
            ChildHold::lost,
            (lost,),
            (),
        )),
        call_ensures(ChildHold::begin_kill, (again,), second),
    ensures
        first == Some(Signal::Terminate),
        second == None::<Signal>,
{
}

/// The wallet is started with its directory, network, address, password and
/// seed words, each behind its option; without a terminal, and with gRPC. The
/// address that it listens at and the one at which it is reached have the same
/// port.
pub proof fn law_wallet_is_started_as_configured(
    config: OldWalletProcessConfig,
    args: Vec<String>,
    url: String,
)
    requires
        call_ensures(OldWalletProcessConfig::spawn_args, (&config,), args),
        call_ensures(OldWalletProcessConfig::grpc_url, (&config,), url),
    ensures
        args.len() == 12,
        exists|k: int|
            0 <= k < 11 && #[trigger] args@[k]@ == "-b"@ && args@[k + 1]@ == config.base_dir@,
        exists|k: int|
            0 <= k < 11 && #[trigger] args@[k]@ == "--password"@ && args@[k + 1]@
                == config.password@,
        exists|k: int|
            0 <= k < 11 && #[trigger] args@[k]@ == "--seed-words"@ && args@[k + 1]@
                == config.seed_words@,
        exists|k: int|
            0 <= k < 11 && #[trigger] args@[k]@ == "--network"@ && args@[k + 1]@ == if lowercased(
                config.network@,
            ) == "esmeralda"@ {
                "esme"@
            } else {
                lowercased(config.network@)
            },
        exists|k: int|
            0 <= k < 11 && #[trigger] args@[k]@ == "--grpc-address"@ && args@[k + 1]@
                == "/ip4/127.0.0.1/tcp/"@ + decimal(config.grpc_port as nat),
        exists|k: int| 0 <= k < 12 && #[trigger] args@[k]@ == "--grpc-enabled"@,
        exists|k: int| 0 <= k < 12 && #[trigger] args@[k]@ == "--non-interactive-mode"@,
        url@ == "http://127.0.0.1:"@ + decimal(config.grpc_port as nat),
{
    let t = texts(args@);
    assert(t.len() == args.len());
    assert(forall|i: int| 0 <= i < t.len() ==> #[trigger] t[i] == args@[i]@);
    assert(args@[0]@ == "-b"@ && args@[1]@ == config.base_dir@) by {
        assert(t[0] == args@[0]@ && t[1] == args@[1]@);
    }
    assert(args@[2]@ == t[2] && args@[3]@ == t[3]);
    assert(args@[4]@ == t[4]);
    assert(args@[5]@ == t[5] && args@[6]@ == t[6]);
    assert(args@[7]@ == t[7] && args@[8]@ == t[8]);
    assert(args@[9]@ == t[9] && args@[10]@ == t[10]);
    assert(args@[11]@ == t[11]);
}

/// A process that has ended ends the wait for it, with its status; the names of
/// networks are the wallet's own.
pub proof fn law_ended_process_ends_the_wait(
    exit_status: Option<String>,
    r: Result<(), String>,
    addr: &str,
    late: String,
    config: OldWalletProcessConfig,
    unspawned: String,
    lower: String,
    arg: String,
)
    requires
        call_ensures(GrpcWait::check_child, (&exit_status,), r),
        call_ensures(GrpcWait::timeout_error, (addr,), late),
        call_ensures(OldWalletProcessConfig::spawn_error, (&config,), unspawned),
        call_ensures(network_arg, (lower,), arg),
    ensures
        r is Ok <==> exit_status is None,
        r is Err ==> r->Err_0@ == "minotari_console_wallet exited prematurely with status: "@
            + exit_status->Some_0@,
        late@ == "Timed out after 3600s waiting for old wallet gRPC at "@ + addr@,
        unspawned@ == "Failed to spawn minotari_console_wallet at '"@ + config.binary_path@ + "'"@,
        lower@ == "esmeralda"@ ==> arg@ == "esme"@,
        lower@ != "esmeralda"@ ==> arg@ == lower@,
{
}

} // verus!
