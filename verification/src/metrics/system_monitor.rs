//! Periodic sampling of system and wallet state.
use vstd::prelude::*;
use vstd::string::*;

use super::recorder::{SystemSnapshot, SystemSnapshotView};
use crate::driver::WalletBalance;
use crate::time::Timestamp;

verus! {

/// Periodically samples system metrics (CPU, memory) and wallet state.
pub struct SystemMonitor;

/// What woke the monitor up.
#[derive(Clone, Copy, Debug, PartialEq, Eq, Structural)]
pub enum MonitorWake {
    /// The sampling interval has passed.
    Tick,
    /// The stop flag was written and now holds `stop`.
    FlagChanged { stop: bool },
    /// The sender of the stop flag is gone.
    FlagClosed,
}

impl SystemMonitor {
    /// Whether the monitor ends here. Anything but a raised stop flag leads to
    /// another sample.
    pub fn stops(wake: MonitorWake) -> (r: bool)
        ensures
            r == (wake == (MonitorWake::FlagChanged { stop: true })),
    {
        match wake {
            MonitorWake::FlagChanged { stop } => stop,
            _ => false,
        }
    }

    /// The snapshot of one sample. The balance is left out where the wallet
    /// gave none, and outputs are not counted.
    pub fn snapshot(
        timestamp: Timestamp,
        wallet: &str,
        memory_rss_bytes: u64,
        cpu_percent_bits: u32,
        balance: Option<WalletBalance>,
    ) -> (r: SystemSnapshot)
        ensures
            r@ == (SystemSnapshotView {
                timestamp,
                wallet: wallet@,
                memory_rss_bytes,
                cpu_percent_bits,
                utxo_count: None,
                balance_available: match balance {
                    Some(b) => Some(b.available),
                    None => None,
                },
            }),
    {
        SystemSnapshot {
            timestamp,
            wallet: wallet.to_owned(),
            memory_rss_bytes,
            cpu_percent_bits,
            utxo_count: None,
            balance_available: match balance {
                Some(b) => Some(b.available),
                None => None,
            },
        }
    }
}

/// A monitor goes on sampling until its stop flag is raised: neither the end of
/// an interval, nor a flag that was lowered, nor a sender that is gone ends it.
pub proof fn law_only_a_raised_flag_stops_the_monitor(wake: MonitorWake, r: bool)
    requires
        call_ensures(SystemMonitor::stops, (wake,), r),
    ensures
        r <==> wake is FlagChanged && wake->stop,
{
}

/// A snapshot holds what was sampled, and of the balance what is available,
/// where the wallet gave one.
pub proof fn law_snapshot_holds_the_sample(
    timestamp: Timestamp,
    wallet: &str,
    memory_rss_bytes: u64,
    cpu_percent_bits: u32,
    balance: Option<WalletBalance>,
    r: SystemSnapshot,
)
    requires
        call_ensures(
            SystemMonitor::snapshot,
            (timestamp, wallet, memory_rss_bytes, cpu_percent_bits, balance),
            r,
        ),
    ensures
        r.timestamp == timestamp,
        r.wallet@ == wallet@,
        r.memory_rss_bytes == memory_rss_bytes,
        r.cpu_percent_bits == cpu_percent_bits,
        r.utxo_count is None,
        balance is None <==> r.balance_available is None,
        balance matches Some(b) ==> r.balance_available == Some(b.available),
{
}

} // verus!
