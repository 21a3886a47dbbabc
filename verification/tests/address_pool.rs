use std::collections::HashSet;
use wallet_performance::address_pool::{total_amount, AddressPool, AddressPoolEntry, Recipient};

fn entry(index: usize) -> AddressPoolEntry {
    AddressPoolEntry {
        index,
        address_base58: format!("address {}", index),
        view_key_hex: "v".to_string(),
        spend_key_hex: "s".to_string(),
    }
}

#[test]
fn addresses_are_handed_out_round_robin() {
    let mut pool = AddressPool::from_entries(&vec![entry(0), entry(1), entry(2)]);
    assert_eq!(pool.len(), 3);
    let got: Vec<String> = (0..7).map(|_| pool.next_address()).collect();
    let expected: Vec<String> = [0, 1, 2, 0, 1, 2, 0].iter().map(|i| format!("address {}", i)).collect();
    assert_eq!(got, expected);
}

#[test]
fn any_full_turn_visits_each_address_once() {
    let mut pool = AddressPool::from_entries(&(0..5).map(entry).collect());
    for _ in 0..3 {
        pool.next_address();
    }
    let turn: HashSet<String> = (0..5).map(|_| pool.next_address()).collect();
    assert_eq!(turn.len(), 5);
}

#[test]
fn recipients_take_the_next_addresses() {
    let mut pool = AddressPool::from_entries(&vec![entry(0), entry(1)]);
    pool.next_address();
    let recipients = pool.next_recipients(3, 50);
    let got: Vec<(&str, u64)> = recipients.iter().map(|r| (r.address.as_str(), r.amount)).collect();
    assert_eq!(got, vec![("address 1", 50), ("address 0", 50), ("address 1", 50)]);
    assert_eq!(total_amount(&recipients), Some(150));
    assert_eq!(pool.next_address(), "address 0");
    assert!(pool.next_recipients(0, 1).is_empty());
}

#[test]
fn totals_that_do_not_fit_are_not_given() {
    let r = |amount| Recipient { address: String::new(), amount };
    assert_eq!(total_amount(&vec![]), Some(0));
    assert_eq!(total_amount(&vec![r(u64::MAX), r(0)]), Some(u64::MAX));
    assert_eq!(total_amount(&vec![r(u64::MAX), r(1)]), None);
}

#[test]
fn entries_are_copied_whole() {
    let a = entry(4);
    let b = a.clone();
    assert_eq!((b.index, b.address_base58, b.view_key_hex, b.spend_key_hex), (4, a.address_base58, a.view_key_hex, a.spend_key_hex));
}
