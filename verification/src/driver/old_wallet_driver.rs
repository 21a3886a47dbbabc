//! Driver for the old wallet (minotari_console_wallet) via gRPC.
use vstd::prelude::*;
use vstd::string::*;

use super::{
    BalanceWatch, SendResult, SendResultView, TransactionStatus, TransactionStatusView,
    WalletBalance,
};
use crate::text::{
    concat, decimal, decimal_string, parse_u64, parsed_u64, signed_decimal, signed_decimal_string,
};

verus! {

/// Seconds between two looks at the balance while it settles.
pub const STABLE_POLL_SECS: u64 = 10;

/// How long the balance must not change to be called stable.
pub const STABLE_SECS: u64 = 30;

/// The payment type of a one-sided payment to a stealth address.
pub const ONE_SIDED_TO_STEALTH_ADDRESS: i32 = 2;

/// Driver for the old wallet (minotari_console_wallet) via gRPC.
pub struct OldWalletDriver {
    grpc_addr: String,
    fee_per_gram: u64,
}

/// A transfer to one recipient.
#[derive(Debug)]
pub struct TransferRequest {
    pub address: String,
    pub amount: u64,
    pub fee_per_gram: u64,
    pub payment_type: i32,
    pub single_tx: bool,
}

/// What the wallet says of a transfer to one recipient.
#[derive(Debug)]
pub struct TransferReply {
    pub is_success: bool,
    pub transaction_id: u64,
    /// The fee, where the reply tells it.
    pub fee: Option<u64>,
    pub failure_message: String,
}

/// A request to split coins.
#[derive(Clone, Copy, Debug, PartialEq, Eq, Structural)]
pub struct CoinSplitRequest {
    pub amount_per_split: u64,
    pub split_count: u64,
    pub fee_per_gram: u64,
    pub lock_height: u64,
}

/// What the wallet says of a transaction.
#[derive(Clone, Copy, Debug, PartialEq, Eq, Structural)]
pub struct TransactionReply {
    pub tx_id: u64,
    pub status: i32,
    pub mined_in_block_height: u64,
}

/// What a transfer came to.
pub open spec fn transfer_view(reply: TransferReply) -> SendResultView {
    if reply.is_success {
        SendResultView {
            tx_id: decimal(reply.transaction_id as nat),
            accepted: true,
            error: None,
            fee: reply.fee,
        }
    } else {
        SendResultView {
            tx_id: Seq::empty(),
            accepted: false,
            error: Some(reply.failure_message@),
            fee: None,
        }
    }
}

/// The height at which a transaction was mined: zero says that it was not.
pub open spec fn mined_height_of(height: u64) -> Option<u64> {
    if height > 0 {
        Some(height)
    } else {
        None
    }
}

/// The status of a transaction under an identifier.
pub open spec fn status_of(tx_id: Seq<char>, reply: TransactionReply) -> TransactionStatusView {
    TransactionStatusView {
        tx_id,
        status: signed_decimal(reply.status as int),
        mined_height: mined_height_of(reply.mined_in_block_height),
        confirmations: None,
    }
}

/// Writes down the status of a transaction.
fn to_status(tx_id: String, reply: &TransactionReply) -> (r: TransactionStatus)
    ensures
        r@ == status_of(tx_id@, *reply),
{
    TransactionStatus {
        tx_id,
        status: signed_decimal_string(reply.status),
        mined_height: if reply.mined_in_block_height > 0 {
            Some(reply.mined_in_block_height)
        } else {
            None
        },
        confirmations: None,
    }
}

impl OldWalletDriver {
    /// Where the wallet listens.
    pub closed spec fn addr(&self) -> Seq<char> {
        self.grpc_addr@
    }

    /// The fee per gram in MicroMinotari.
    pub closed spec fn fee(&self) -> u64 {
        self.fee_per_gram
    }

    pub fn new(grpc_addr: String, fee_per_gram: u64) -> (r: Self)
        ensures
            r.addr() == grpc_addr@,
            r.fee() == fee_per_gram,
    {
        OldWalletDriver { grpc_addr, fee_per_gram }
    }

    /// Human-readable name for this driver.
    pub fn name(&self) -> (r: &'static str)
        ensures
            r@ == "old_wallet"@,
    {
        "old_wallet"
    }

    /// Where to connect to.
    pub fn grpc_addr(&self) -> (r: &str)
        ensures
            r@ == self.addr(),
    {
        self.grpc_addr.as_str()
    }

    /// What is said where no connection comes about.
    pub fn connect_error(&self) -> (r: String)
        ensures
            r@ == "Failed to connect to old wallet gRPC at "@ + self.addr(),
    {
        concat("Failed to connect to old wallet gRPC at ", self.grpc_addr.as_str())
    }

    /// The request that sends to a single recipient.
    pub fn transfer_request(&self, recipient: &str, amount: u64) -> (r: TransferRequest)
        ensures
            r.address@ == recipient@,
            r.amount == amount,
            r.fee_per_gram == self.fee(),
            r.payment_type == ONE_SIDED_TO_STEALTH_ADDRESS,
            !r.single_tx,
    {
        TransferRequest {
            address: recipient.to_owned(),
            amount,
            fee_per_gram: self.fee_per_gram,
            payment_type: ONE_SIDED_TO_STEALTH_ADDRESS,
            single_tx: false,
        }
    }

    /// What a send comes to, given the first result of the transfer.
    pub fn send_transaction(&self, first: Option<TransferReply>) -> (r: Result<SendResult, String>)
        ensures
            match first {
                Some(reply) => r matches Ok(s) && s@ == transfer_view(reply),
                None => r matches Err(e) && e@ == "Transfer returned empty results"@,
            },
    {
        match first {
            Some(reply) => if reply.is_success {
                Ok(
                    SendResult {
                        tx_id: decimal_string(reply.transaction_id),
                        accepted: true,
                        error: None,
                        fee: reply.fee,
                    },
                )
            } else {
                Ok(
                    SendResult {
                        tx_id: String::new(),
                        accepted: false,
                        error: Some(reply.failure_message),
                        fee: None,
                    },
                )
            },
            None => Err("Transfer returned empty results".to_owned()),
        }
    }

    /// The balance in the wallet's terms.
    pub fn get_balance(
        &self,
        available_balance: u64,
        pending_incoming_balance: u64,
        pending_outgoing_balance: u64,
        timelocked_balance: u64,
    ) -> (r: WalletBalance)
        ensures
            r == (WalletBalance {
                available: available_balance,
                pending_incoming: pending_incoming_balance,
                pending_outgoing: pending_outgoing_balance,
                locked: timelocked_balance,
            }),
    {
        WalletBalance {
            available: available_balance,
            pending_incoming: pending_incoming_balance,
            pending_outgoing: pending_outgoing_balance,
            locked: timelocked_balance,
        }
    }

    /// The number that a transaction identifier stands for.
    pub fn parse_tx_id(&self, tx_id: &str) -> (r: Result<u64, String>)
        ensures
            match parsed_u64(tx_id@) {
                Some(n) => r matches Ok(m) && m == n,
                None => r matches Err(e) && e@ == "Invalid tx_id for old wallet"@,
            },
    {
        match parse_u64(tx_id) {
            Some(n) => Ok(n),
            None => Err("Invalid tx_id for old wallet".to_owned()),
        }
    }

    /// The status of a transaction, given what the wallet says of it, if
    /// anything.
    pub fn get_transaction_status(&self, tx_id: &str, first: Option<TransactionReply>) -> (r: Result<
        TransactionStatus,
        String,
    >)
        ensures
            match first {
                Some(reply) => r matches Ok(t) && t@ == status_of(tx_id@, reply),
                None => r matches Err(e) && e@ == "Transaction "@ + tx_id@ + " not found"@,
            },
    {
        match first {
            Some(reply) => Ok(to_status(tx_id.to_owned(), &reply)),
            None => {
                let mut text = concat("Transaction ", tx_id);
                text.append(" not found");
                Err(text)
            },
        }
    }

    /// The request that splits coins.
    pub fn split_request(&self, amount_per_split: u64, count: u64) -> (r: CoinSplitRequest)
        ensures
            r == (CoinSplitRequest {
                amount_per_split,
                split_count: count,
                fee_per_gram: self.fee(),
                lock_height: 0,
            }),
    {
        CoinSplitRequest {
            amount_per_split,
            split_count: count,
            fee_per_gram: self.fee_per_gram,
            lock_height: 0,
        }
    }

    /// What a split comes to. The reply does not tell the fee.
    pub fn split_coins(&self, tx_id: u64) -> (r: SendResult)
        ensures
            r@ == (SendResultView {
                tx_id: decimal(tx_id as nat),
                accepted: true,
                error: None,
                fee: None,
            }),
    {
        SendResult { tx_id: decimal_string(tx_id), accepted: true, error: None, fee: None }
    }

    /// The statuses of completed transactions, in the order in which they came.
    pub fn get_completed_transactions(&self, replies: &Vec<TransactionReply>) -> (r: Vec<
        TransactionStatus,
    >)
        ensures
            r.len() == replies.len(),
            forall|i: int|
                0 <= i < replies.len() ==> (#[trigger] r@[i])@ == status_of(
                    decimal(replies@[i].tx_id as nat),
                    replies@[i],
                ),
    {
        let mut out: Vec<TransactionStatus> = Vec::new();
        let mut i: usize = 0;
        while i < replies.len()
            invariant
                i <= replies.len(),
                out.len() == i,
                forall|j: int|
                    0 <= j < i ==> (#[trigger] out@[j])@ == status_of(
                        decimal(replies@[j].tx_id as nat),
                        replies@[j],
                    ),
            decreases replies.len() - i,
        {
            out.push(to_status(decimal_string(replies[i].tx_id), &replies[i]));
            i = i + 1;
        }
        out
    }

    /// Starts a wait for a stable balance, at most `timeout_secs`.
    pub fn wait_for_balance_stable(
        &self,
        timeout_secs: u64,
        first: WalletBalance,
        elapsed_ns: u128,
    ) -> (r: BalanceWatch)
        ensures
            r == (BalanceWatch {
                poll_secs: STABLE_POLL_SECS,
                stable_secs: STABLE_SECS,
                timeout_secs,
                last_balance: first,
                last_change_ns: elapsed_ns,
            }),
    {
        BalanceWatch::new(STABLE_POLL_SECS, STABLE_SECS, timeout_secs, first, elapsed_ns)
    }
}

/// The identifier that a send reports is the one under which its transaction
/// can be looked up.
pub proof fn law_tx_id_reads_back(reply: TransferReply)
    requires
        reply.is_success,
    ensures
        parsed_u64(transfer_view(reply).tx_id) == Some(reply.transaction_id),
{
    crate::text::law_parse_of_decimal(reply.transaction_id);
}

/// A transfer asks for the recipient and the amount that it was given, at the
/// driver's fee, as a one-sided payment to a stealth address (2) in a
/// transaction of its own.
pub proof fn law_transfer_asks_for_what_was_given(
    grpc_addr: String,
    fee_per_gram: u64,
    driver: OldWalletDriver,
    recipient: &str,
    amount: u64,
    r: TransferRequest,
    count: u64,
    split: CoinSplitRequest,
)
    requires
        call_ensures(OldWalletDriver::new, (grpc_addr, fee_per_gram), driver),
        call_ensures(OldWalletDriver::transfer_request, (&driver, recipient, amount), r),
        call_ensures(OldWalletDriver::split_request, (&driver, amount, count), split),
    ensures
        r.address@ == recipient@,
        r.amount == amount,
        r.fee_per_gram == fee_per_gram,
        r.payment_type == 2,
        !r.single_tx,
        split.amount_per_split == amount,
        split.split_count == count,
        split.fee_per_gram == fee_per_gram,
        split.lock_height == 0,
{
}

/// A send is accepted exactly where the wallet reports success. Then it has
/// the wallet's identifier, by which its status can be asked for, and the fee
/// that was told; otherwise it has the wallet's message and no fee. Without a
/// result there is no send.
pub proof fn law_send_tells_the_reply(
    driver: OldWalletDriver,
    first: Option<TransferReply>,
    r: Result<SendResult, String>,
    tx_id: &str,
    parsed: Result<u64, String>,
)
    requires
        call_ensures(OldWalletDriver::send_transaction, (&driver, first), r),
        call_ensures(OldWalletDriver::parse_tx_id, (&driver, tx_id), parsed),
    ensures
        first is Some <==> r is Ok,
        first matches Some(reply) ==> {
            let sent = r->Ok_0;
            &&& sent.accepted == reply.is_success
            &&& reply.is_success ==> sent.error is None && sent.fee == reply.fee && (sent.tx_id@
                == tx_id@ ==> parsed == Ok::<u64, String>(reply.transaction_id))
            &&& !reply.is_success ==> sent.fee is None && sent.tx_id@.len() == 0
                && sent.error is Some && sent.error->Some_0@ == reply.failure_message@
        },
{
    if first is Some && first->Some_0.is_success {
        law_tx_id_reads_back(first->Some_0);
    }
}

/// A split counts as accepted under the identifier that the wallet gave it.
pub proof fn law_split_is_accepted(
    driver: OldWalletDriver,
    id: u64,
    r: SendResult,
    tx_id: &str,
    parsed: Result<u64, String>,
)
    requires
        call_ensures(OldWalletDriver::split_coins, (&driver, id), r),
        call_ensures(OldWalletDriver::parse_tx_id, (&driver, tx_id), parsed),
        tx_id@ == r.tx_id@,
    ensures
        r.accepted,
        r.error is None,
        r.fee is None,
        parsed == Ok::<u64, String>(id),
{
    crate::text::law_parse_of_decimal(id);
}

/// A status is given under the identifier that was asked for, with the wallet's
/// number for it. Height zero says that the transaction is not mined.
pub proof fn law_status_tells_the_reply(
    driver: OldWalletDriver,
    tx_id: &str,
    first: Option<TransactionReply>,
    r: Result<TransactionStatus, String>,
)
    requires
        call_ensures(OldWalletDriver::get_transaction_status, (&driver, tx_id, first), r),
    ensures
        first is Some <==> r is Ok,
        first matches Some(reply) ==> {
            let status = r->Ok_0;
            &&& status.tx_id@ == tx_id@
            &&& status.status@ == signed_decimal(reply.status as int)
            &&& reply.mined_in_block_height == 0 <==> status.mined_height is None
            &&& reply.mined_in_block_height > 0 ==> status.mined_height == Some(
                reply.mined_in_block_height,
            )
            &&& status.confirmations is None
        },
{
}

/// Every completed transaction is told of once, in its place, and its
/// identifier reads back as the wallet's.
pub proof fn law_completed_transactions_keep_their_order(
    driver: OldWalletDriver,
    replies: Vec<TransactionReply>,
    r: Vec<TransactionStatus>,
    i: int,
)
    requires
        call_ensures(OldWalletDriver::get_completed_transactions, (&driver, &replies), r),
        0 <= i < replies.len(),
    ensures
        r.len() == replies.len(),
        parsed_u64(r@[i].tx_id@) == Some(replies@[i].tx_id),
        r@[i].status@ == signed_decimal(replies@[i].status as int),
        replies@[i].mined_in_block_height == 0 ==> r@[i].mined_height is None,
        replies@[i].mined_in_block_height > 0 ==> r@[i].mined_height == Some(
            replies@[i].mined_in_block_height,
        ),
{
    assert(r@[i]@ == status_of(decimal(replies@[i].tx_id as nat), replies@[i]));
    crate::text::law_parse_of_decimal(replies@[i].tx_id);
}

/// The old wallet's balance is stable when it was the same for 30 seconds; it
/// is looked at every 10 seconds.
pub proof fn law_old_wallet_settles_in_half_a_minute(
    driver: OldWalletDriver,
    timeout_secs: u64,
    first: WalletBalance,
    elapsed_ns: u128,
    r: BalanceWatch,
)
    requires
        call_ensures(
            OldWalletDriver::wait_for_balance_stable,
            (&driver, timeout_secs, first, elapsed_ns),
            r,
        ),
    ensures
        r.stable_secs == 30,
        r.poll_secs == 10,
        r.timeout_secs == timeout_secs,
        r.last_balance == first,
        r.last_change_ns == elapsed_ns,
{
}

/// Each part of the balance is told under its own name.
pub proof fn law_balance_keeps_its_parts(
    driver: OldWalletDriver,
    available: u64,
    incoming: u64,
    outgoing: u64,
    timelocked: u64,
    r: WalletBalance,
)
    requires
        call_ensures(
            OldWalletDriver::get_balance,
            (&driver, available, incoming, outgoing, timelocked),
            r,
        ),
    ensures
        r.available == available,
        r.pending_incoming == incoming,
        r.pending_outgoing == outgoing,
        r.locked == timelocked,
{
}

/// The driver goes by its name and connects where it was told to. What it says
/// names what was not found.
pub proof fn law_driver_connects_where_told(
    grpc_addr: String,
    fee_per_gram: u64,
    driver: OldWalletDriver,
    name: &'static str,
    addr: &str,
    unconnected: String,
    tx_id: &str,
    status: Result<TransactionStatus, String>,
    parsed: Result<u64, String>,
    sent: Result<SendResult, String>,
)
    requires
        call_ensures(OldWalletDriver::new, (grpc_addr, fee_per_gram), driver),
        call_ensures(OldWalletDriver::name, (&driver,), name),
        call_ensures(OldWalletDriver::grpc_addr, (&driver,), addr),
        call_ensures(OldWalletDriver::connect_error, (&driver,), unconnected),
        call_ensures(OldWalletDriver::get_transaction_status, (&driver, tx_id, None), status),
        call_ensures(OldWalletDriver::parse_tx_id, (&driver, tx_id), parsed),
        call_ensures(OldWalletDriver::send_transaction, (&driver, None), sent),
    ensures
        name@ == "old_wallet"@,
        addr@ == grpc_addr@,
        unconnected@ == "Failed to connect to old wallet gRPC at "@ + grpc_addr@,
        status is Err && status->Err_0@ == "Transaction "@ + tx_id@ + " not found"@,
        parsed is Err ==> parsed->Err_0@ == "Invalid tx_id for old wallet"@,
        sent is Err && sent->Err_0@ == "Transfer returned empty results"@,
{
}

} // verus!
