//! A pool of recipient addresses, handed out round-robin.
use vstd::arithmetic::div_mod::{
    lemma_add_mod_noop, lemma_fundamental_div_mod, lemma_fundamental_div_mod_converse,
    lemma_mod_self_0, lemma_small_mod,
};
use vstd::prelude::*;
use vstd::string::*;

use crate::tari::{
    address_error, dual_address, dual_address_base58, random_secret_key_hex, secret_key_valid,
    Network,
};
use crate::text::texts;

verus! {

/// An address of the pool with the keys that can spend from it.
#[derive(Debug)]
pub struct AddressPoolEntry {
    pub index: usize,
    pub address_base58: String,
    pub view_key_hex: String,
    pub spend_key_hex: String,
}

/// The contents of an `AddressPoolEntry`.
pub struct AddressPoolEntryView {
    pub index: usize,
    pub address_base58: Seq<char>,
    pub view_key_hex: Seq<char>,
    pub spend_key_hex: Seq<char>,
}

impl View for AddressPoolEntry {
    type V = AddressPoolEntryView;

    open spec fn view(&self) -> AddressPoolEntryView {
        AddressPoolEntryView {
            index: self.index,
            address_base58: self.address_base58@,
            view_key_hex: self.view_key_hex@,
            spend_key_hex: self.spend_key_hex@,
        }
    }
}

impl Clone for AddressPoolEntry {
    fn clone(&self) -> (r: Self)
        ensures
            r@ == self@,
    {
        AddressPoolEntry {
            index: self.index,
            address_base58: self.address_base58.clone(),
            view_key_hex: self.view_key_hex.clone(),
            spend_key_hex: self.spend_key_hex.clone(),
        }
    }
}

/// The contents of a list of entries.
pub open spec fn entry_views(v: Seq<AddressPoolEntry>) -> Seq<AddressPoolEntryView> {
    v.map_values(|e: AddressPoolEntry| e@)
}

/// The addresses of a list of entries.
pub open spec fn addresses_of(v: Seq<AddressPoolEntry>) -> Seq<Seq<char>> {
    v.map_values(|e: AddressPoolEntry| e.address_base58@)
}

/// The addresses that a list of stored entries holds.
pub open spec fn stored_addresses(v: Seq<AddressPoolEntryView>) -> Seq<Seq<char>> {
    v.map_values(|e: AddressPoolEntryView| e.address_base58)
}

/// An entry's keys are secret keys, and its address is the one that belongs to
/// them.
pub open spec fn entry_valid(e: AddressPoolEntryView, network: Network) -> bool {
    &&& secret_key_valid(e.view_key_hex)
    &&& secret_key_valid(e.spend_key_hex)
    &&& e.address_base58 == dual_address_base58(e.view_key_hex, e.spend_key_hex, network)
    &&& address_error(e.address_base58) is None
}

/// One recipient of a send.
#[derive(Debug)]
pub struct Recipient {
    pub address: String,
    pub amount: u64,
}

/// The contents of a `Recipient`.
pub struct RecipientView {
    pub address: Seq<char>,
    pub amount: u64,
}

impl View for Recipient {
    type V = RecipientView;

    open spec fn view(&self) -> RecipientView {
        RecipientView { address: self.address@, amount: self.amount }
    }
}

/// The contents of a list of recipients.
pub open spec fn recipient_views(v: Seq<Recipient>) -> Seq<RecipientView> {
    v.map_values(|r: Recipient| r@)
}

/// The amounts of a list of recipients, added up.
pub open spec fn amount_sum(v: Seq<RecipientView>) -> nat
    decreases v.len(),
{
    if v.len() == 0 {
        0
    } else {
        amount_sum(v.drop_last()) + v.last().amount as nat
    }
}

/// The total of a list of recipients, or nothing where it does not fit.
pub fn total_amount(recipients: &Vec<Recipient>) -> (r: Option<u64>)
    ensures
        r == (if amount_sum(recipient_views(recipients@)) <= u64::MAX {
            Some(amount_sum(recipient_views(recipients@)) as u64)
        } else {
            None
        }),
{
    let ghost views = recipient_views(recipients@);
    let mut total: u64 = 0;
    let mut i: usize = 0;
    while i < recipients.len()
        invariant
            i <= recipients.len(),
            views == recipient_views(recipients@),
            total == amount_sum(views.take(i as int)),
        decreases recipients.len() - i,
    {
        proof {
            assert(views.take(i + 1).drop_last() =~= views.take(i as int));
            assert(views.take(i + 1).last() == recipients@[i as int]@);
            lemma_amount_sum_grows(views, i + 1);
        }
        if recipients[i].amount > u64::MAX - total {
            return None;
        }
        total = total + recipients[i].amount;
        i = i + 1;
    }
    assert(views.take(i as int) =~= views);
    Some(total)
}

proof fn lemma_amount_sum_grows(v: Seq<RecipientView>, i: int)
    requires
        0 <= i <= v.len(),
    ensures
        amount_sum(v.take(i)) <= amount_sum(v),
    decreases v.len() - i,
{
    if i == v.len() {
        assert(v.take(i) =~= v);
    } else {
        lemma_amount_sum_grows(v, i + 1);
        assert(v.take(i + 1).drop_last() =~= v.take(i));
    }
}

/// Recipients that all get the same add up to their number times that.
pub proof fn law_equal_amounts(v: Seq<RecipientView>, amount: u64)
    requires
        forall|i: int| 0 <= i < v.len() ==> (#[trigger] v[i]).amount == amount,
    ensures
        amount_sum(v) == v.len() * amount,
    decreases v.len(),
{
    if v.len() > 0 {
        let rest = v.drop_last();
        assert forall|i: int| 0 <= i < rest.len() implies (#[trigger] rest[i]).amount == amount by {
            assert(rest[i] == v[i]);
        }
        law_equal_amounts(rest, amount);
        assert((v.len() - 1) * amount + amount == v.len() * amount) by (nonlinear_arith);
    }
}

/// A pool of addresses and how often it has been asked for one.
pub struct AddressPoolView {
    pub addresses: Seq<Seq<char>>,
    pub counter: usize,
}

impl AddressPoolView {
    /// The place in the pool of the address that is handed out at the `k`-th
    /// ask from now.
    pub open spec fn place_at(self, k: int) -> int {
        (self.advanced(k).counter as int) % (self.addresses.len() as int)
    }

    /// The address that is handed out at the `k`-th ask from now.
    pub open spec fn address_at(self, k: int) -> Seq<char> {
        self.addresses[self.place_at(k)]
    }

    /// The pool after `k` asks. The count wraps around at the end of the
    /// machine word.
    pub open spec fn advanced(self, k: int) -> AddressPoolView {
        AddressPoolView {
            counter: ((self.counter + k) % (usize::MAX + 1)) as usize,
            ..self
        }
    }

    /// What the next `n` asks hand out, each with the same amount.
    pub open spec fn recipients(self, n: int, amount: u64) -> Seq<RecipientView> {
        Seq::new(n as nat, |k: int| RecipientView { address: self.address_at(k), amount })
    }
}

pub struct AddressPool {
    addresses: Vec<String>,
    counter: usize,
}

impl View for AddressPool {
    type V = AddressPoolView;

    closed spec fn view(&self) -> AddressPoolView {
        AddressPoolView { addresses: texts(self.addresses@), counter: self.counter }
    }
}

/// As many asks in a row as there are addresses hand out each of them exactly
/// once, unless the count wraps around in between.
pub proof fn law_round_robin(pool: AddressPoolView, place: int)
    requires
        0 <= place < pool.addresses.len(),
        pool.counter + pool.addresses.len() <= usize::MAX + 1,
    ensures
        exists|k: int| 0 <= k < pool.addresses.len() && #[trigger] pool.place_at(k) == place,
        forall|j: int, k: int|
            0 <= j < k < pool.addresses.len() ==> #[trigger] pool.place_at(j)
                != #[trigger] pool.place_at(k),
{
    let n = pool.addresses.len() as int;
    let c = pool.counter as int;
    let q = c / n;
    let r = c % n;
    lemma_fundamental_div_mod(c, n);
    assert forall|k: int| 0 <= k < n implies #[trigger] pool.place_at(k) == if r + k < n {
        r + k
    } else {
        r + k - n
    } by {
        lemma_small_mod((c + k) as nat, (usize::MAX + 1) as nat);
        if r + k < n {
            assert(c + k == n * q + (r + k));
            lemma_fundamental_div_mod_converse(c + k, n, q, r + k);
        } else {
            assert(n * (q + 1) == n * q + n) by (nonlinear_arith);
            assert(c + k == n * (q + 1) + (r + k - n));
            lemma_fundamental_div_mod_converse(c + k, n, q + 1, r + k - n);
        }
    }
    let k = if place >= r {
        place - r
    } else {
        place - r + n
    };
    assert(pool.place_at(k) == place);
}

/// Asking for some recipients and then for some more hands out the same as
/// asking for all of them at once, and leaves the pool the same.
pub proof fn law_asks_run_on(pool: AddressPoolView, first: nat, more: nat, amount: u64)
    ensures
        pool.advanced(first as int).advanced(more as int) == pool.advanced(
            (first + more) as int,
        ),
        pool.recipients(first as int, amount) + pool.advanced(first as int).recipients(
            more as int,
            amount,
        ) == pool.recipients((first + more) as int, amount),
{
    lemma_advanced_by(pool, first as int, more as int);
    let together = pool.recipients(first as int, amount) + pool.advanced(first as int).recipients(
        more as int,
        amount,
    );
    assert forall|k: int| 0 <= k < first + more implies together[k] == pool.recipients(
        (first + more) as int,
        amount,
    )[k] by {
        if k >= first {
            lemma_advanced_by(pool, first as int, k - first);
        }
    }
    assert(together =~= pool.recipients((first + more) as int, amount));
}

/// Unless the count wraps around in between, the `k`-th ask from now hands out
/// the address at the count and `k` more, round the pool.
pub proof fn law_address_in_turn(pool: AddressPoolView, k: int)
    requires
        k >= 0,
        pool.counter + k <= usize::MAX,
    ensures
        pool.address_at(k) == pool.addresses[(pool.counter + k) % (pool.addresses.len() as int)],
{
    lemma_small_mod((pool.counter + k) as nat, (usize::MAX + 1) as nat);
}

proof fn lemma_advanced_by(pool: AddressPoolView, j: int, k: int)
    requires
        j >= 0,
        k >= 0,
    ensures
        pool.advanced(j).advanced(k) == pool.advanced(j + k),
        pool.advanced(j).address_at(k) == pool.address_at(j + k),
{
    let m = usize::MAX + 1;
    lemma_add_mod_noop(pool.counter + j, k, m);
    lemma_add_mod_noop((pool.counter + j) % m, k, m);
    assert(0 <= (pool.counter + j) % m < m);
    lemma_small_mod(((pool.counter + j) % m) as nat, m as nat);
    assert(0 <= (pool.counter + j + k) % m < m);
}

proof fn lemma_advanced_step(pool: AddressPoolView, k: int)
    requires
        k >= 0,
    ensures
        pool.advanced(k).advanced(1) == pool.advanced(k + 1),
        pool.advanced(k).address_at(0) == pool.address_at(k),
        pool.advanced(0) == pool,
{
    let m = usize::MAX + 1;
    lemma_small_mod(1, m as nat);
    lemma_small_mod(pool.counter as nat, m as nat);
    lemma_add_mod_noop(pool.counter + k, 1, m);
    assert(0 <= (pool.counter + k) % m < m);
    lemma_small_mod(((pool.counter + k) % m) as nat, m as nat);
    assert(0 <= (pool.counter + k + 1) % m < m);
}

impl AddressPool {
    /// Generate `count` random Tari addresses for the given network.
    pub fn generate(count: usize, network: Network) -> (r: Result<
        (Self, Vec<AddressPoolEntry>),
        String,
    >)
        ensures
            r matches Ok((pool, entries)) && entries.len() == count && pool@ == (
            AddressPoolView { addresses: addresses_of(entries@), counter: 0 }) && (forall|i: int|
                0 <= i < count ==> (#[trigger] entries@[i]).index == i && entry_valid(
                    entries@[i]@,
                    network,
                )),
    {
        let mut entries: Vec<AddressPoolEntry> = Vec::new();
        let mut addresses: Vec<String> = Vec::new();
        let mut i: usize = 0;
        while i < count
            invariant
                i <= count,
                entries.len() == i,
                texts(addresses@) == addresses_of(entries@),
                forall|j: int|
                    0 <= j < i ==> (#[trigger] entries@[j]).index == j && entry_valid(
                        entries@[j]@,
                        network,
                    ),
            decreases count - i,
        {
            let view_key_hex = random_secret_key_hex();
            let spend_key_hex = random_secret_key_hex();
            match dual_address(view_key_hex.as_str(), spend_key_hex.as_str(), network) {
                Ok(address_base58) => {
                    let ghost before = texts(addresses@);
                    addresses.push(address_base58.clone());
                    entries.push(
                        AddressPoolEntry { index: i, address_base58, view_key_hex, spend_key_hex },
                    );
                    assert(texts(addresses@) =~= before.push(address_base58@));
                    assert(addresses_of(entries@) =~= before.push(address_base58@));
                },
                Err(e) => {
                    return Err(e);
                },
            }
            i = i + 1;
        }
        let pool = AddressPool { addresses, counter: 0 };
        Ok((pool, entries))
    }

    /// The pool of the addresses of stored entries.
    pub fn from_entries(entries: &Vec<AddressPoolEntry>) -> (r: Self)
        ensures
            r@ == (AddressPoolView { addresses: addresses_of(entries@), counter: 0 }),
    {
        let mut addresses: Vec<String> = Vec::new();
        let mut i: usize = 0;
        while i < entries.len()
            invariant
                i <= entries.len(),
                addresses.len() == i,
                forall|j: int| 0 <= j < i ==> (#[trigger] addresses@[j])@ == entries@[j].address_base58@,
            decreases entries.len() - i,
        {
            addresses.push(entries[i].address_base58.clone());
            i = i + 1;
        }
        assert(texts(addresses@) =~= addresses_of(entries@));
        AddressPool { addresses, counter: 0 }
    }

    /// Round-robin address selection.
    pub fn next_address(&mut self) -> (r: String)
        requires
            old(self)@.addresses.len() > 0,
        ensures
            r@ == old(self)@.address_at(0),
            final(self)@ == old(self)@.advanced(1),
    {
        let idx: usize = self.counter % self.addresses.len();
        let ghost before = self@;
        self.counter = self.counter.wrapping_add(1);
        proof {
            if before.counter < usize::MAX {
                lemma_small_mod((before.counter + 1) as nat, (usize::MAX + 1) as nat);
            } else {
                lemma_mod_self_0(usize::MAX + 1);
            }
            lemma_small_mod(before.counter as nat, (usize::MAX + 1) as nat);
        }
        self.addresses[idx].clone()
    }

    /// The next `n` addresses, each with the same amount.
    pub fn next_recipients(&mut self, n: usize, amount: u64) -> (r: Vec<Recipient>)
        requires
            old(self)@.addresses.len() > 0,
        ensures
            recipient_views(r@) == old(self)@.recipients(n as int, amount),
            final(self)@ == old(self)@.advanced(n as int),
    {
        let ghost first = self@;
        let mut out: Vec<Recipient> = Vec::new();
        let mut i: usize = 0;
        proof {
            lemma_advanced_step(first, 0);
        }
        while i < n
            invariant
                i <= n,
                first.addresses.len() > 0,
                out.len() == i,
                self@ == first.advanced(i as int),
                forall|k: int|
                    0 <= k < i ==> (#[trigger] out@[k])@ == (RecipientView {
                        address: first.address_at(k),
                        amount,
                    }),
            decreases n - i,
        {
            proof {
                lemma_advanced_step(first, i as int);
            }
            let address = self.next_address();
            out.push(Recipient { address, amount });
            i = i + 1;
        }
        assert(recipient_views(out@) =~= first.recipients(n as int, amount));
        out
    }

    /// How many addresses the pool has.
    pub fn len(&self) -> (r: usize)
        ensures
            r == self@.addresses.len(),
    {
        self.addresses.len()
    }
}

/// A pool hands out the addresses of its entries in their order, and begins
/// anew after the last: recipient `i` of the first `n` gets the address of entry
/// `i` round the pool, with the amount asked for, and the address asked for
/// after them is the next one.
pub proof fn law_pool_hands_out_in_turn(
    entries: Vec<AddressPoolEntry>,
    fresh: AddressPool,
    size: usize,
    pool: &mut AddressPool,
    n: usize,
    amount: u64,
    r: Vec<Recipient>,
    later: &mut AddressPool,
    next: String,
    i: int,
)
    requires
        entries.len() > 0,
        call_ensures(AddressPool::from_entries, (&entries,), fresh),
        call_ensures(AddressPool::len, (&fresh,), size),
        *old(pool) == fresh,
        call_ensures(AddressPool::next_recipients, (pool, n, amount), r),
        *old(later) == *final(pool),
        call_ensures(AddressPool::next_address, (later,), next),
        0 <= i < n,
    ensures
        size == entries.len(),
        r.len() == n,
        r@[i].address@ == entries@[i % (entries.len() as int)].address_base58@,
        r@[i].amount == amount,
        next@ == entries@[n as int % (entries.len() as int)].address_base58@,
{
    let len = entries.len() as int;
    assert(0 <= i % len < len);
    assert(0 <= n as int % len < len);
    assert(recipient_views(r@).len() == r.len());
    assert(recipient_views(r@)[i] == r@[i]@);
    law_address_in_turn(fresh@, i);
    law_address_in_turn(fresh@, n as int);
    lemma_advanced_step(fresh@, n as int);
}

/// A generated pool has as many addresses as asked for, numbered from 0, each
/// with the secret keys that it belongs to, and hands out these addresses.
pub proof fn law_generated_pool_matches_its_entries(
    count: usize,
    network: Network,
    r: Result<(AddressPool, Vec<AddressPoolEntry>), String>,
    pool: &mut AddressPool,
    amount: u64,
    out: Vec<Recipient>,
    i: int,
)
    requires
        call_ensures(AddressPool::generate, (count, network), r),
        r is Ok ==> *old(pool) == r->Ok_0.0,
        call_ensures(AddressPool::next_recipients, (pool, count, amount), out),
        0 <= i < count,
    ensures
        r is Ok,
        r->Ok_0.1.len() == count,
        ({
            let entry = r->Ok_0.1@[i];
            &&& entry.index == i
            &&& crate::tari::secret_key_of(entry.view_key_hex@) is Some
            &&& crate::tari::secret_key_of(entry.spend_key_hex@) is Some
            &&& entry.address_base58@ == dual_address_base58(
                entry.view_key_hex@,
                entry.spend_key_hex@,
                network,
            )
            &&& out@[i].address@ == entry.address_base58@
        }),
{
    let entries = r->Ok_0.1;
    assert(entries@[i].index == i && entry_valid(entries@[i]@, network));
    assert(recipient_views(out@).len() == out.len());
    assert(recipient_views(out@)[i] == out@[i]@);
    law_address_in_turn(r->Ok_0.0@, i);
    lemma_small_mod(i as nat, count as nat);
}

/// The total of recipients is what their amounts add up to, where that fits.
pub proof fn law_total_adds_up(recipients: Vec<Recipient>, r: Option<u64>)
    requires
        call_ensures(total_amount, (&recipients,), r),
    ensures
        ({
            let sum = recipients@.fold_left(0int, |sum: int, one: Recipient| sum + one.amount);
            &&& sum <= u64::MAX ==> r == Some(sum as u64)
            &&& sum > u64::MAX ==> r is None
        }),
{
    lemma_amounts_add_up(recipients@);
}

proof fn lemma_amounts_add_up(s: Seq<Recipient>)
    ensures
        amount_sum(recipient_views(s)) == s.fold_left(
            0int,
            |sum: int, one: Recipient| sum + one.amount,
        ),
    decreases s.len(),
{
    reveal(Seq::fold_left);
    if s.len() > 0 {
        lemma_amounts_add_up(s.drop_last());
        assert(recipient_views(s).drop_last() =~= recipient_views(s.drop_last()));
        assert(recipient_views(s).last() == s.last()@);
    }
}

} // verus!
