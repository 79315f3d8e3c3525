use erc20::account::AccountId;
use erc20::errors::Error;
use erc20::events::{Event, Transfer};
use erc20::ledger::Erc20;

#[test]
fn constructor_works() {
    let alice = AccountId(1);
    let bob = AccountId(2);
    let mut erc20 = Erc20::new(1000, alice);
    // transfer event
    let _ = erc20.transfer(alice, bob, 1000);
    assert_eq!(erc20.total_supply(), 1000);
    assert_eq!(erc20.balance_of(alice), 0);

    let emitted_events = &erc20.events;
    let event = &emitted_events[0];

    match event {
        Event::Transfer(Transfer { from, to, value }) => {
            assert_eq!(*from, Some(alice));
            assert_eq!(*to, Some(bob));
            assert_eq!(*value, 1000);
        }
        _ => panic!("No transfer event emitted!"),
    }
}

#[test]
fn transfer_should_work() {
    let alice = AccountId(1);
    let bob = AccountId(2);
    let mut erc20 = Erc20::new(1000, alice);
    let res = erc20.transfer(alice, bob, 100);

    assert_eq!(res, Ok(()));
    assert_eq!(erc20.balance_of(alice), 900);
    assert_eq!(erc20.balance_of(bob), 100);
}

#[test]
fn transfer_should_fail() {
    let alice = AccountId(1);
    let bob = AccountId(2);
    let mut erc20 = Erc20::new(1000, alice);
    let res = erc20.transfer(alice, bob, 1001);

    assert_eq!(res, Err(Error::BalanceTooLow));
    assert_eq!(erc20.balance_of(alice), 1000);
    assert_eq!(erc20.balance_of(bob), 0);
}

#[test]
fn e2e_transfer() {
    let alice = AccountId(1);
    let bob = AccountId(2);
    let total_supply = 1000;
    let mut erc20 = Erc20::new(total_supply, alice);

    let res = erc20.transfer(alice, bob, 100);
    assert!(res.is_ok());

    let balance_of_alice = erc20.balance_of(alice);
    assert_eq!(balance_of_alice, 900);
}

#[test]
fn absent_keys_read_zero() {
    let alice = AccountId(1);
    let stranger = AccountId(9);
    let erc20 = Erc20::new(1000, alice);
    assert_eq!(erc20.balance_of(stranger), 0);
    assert_eq!(erc20.allowance(alice, stranger), 0);
    assert_eq!(erc20.allowance(stranger, alice), 0);
    assert!(erc20.events.is_empty());
}

#[test]
fn zero_supply_ledger() {
    let alice = AccountId(1);
    let bob = AccountId(2);
    let mut erc20 = Erc20::new(0, alice);
    assert_eq!(erc20.total_supply(), 0);
    assert_eq!(erc20.balance_of(alice), 0);
    assert_eq!(erc20.transfer(alice, bob, 0), Ok(()));
    assert_eq!(erc20.transfer(alice, bob, 1), Err(Error::BalanceTooLow));
}

#[test]
fn self_transfer_is_net_noop() {
    let alice = AccountId(1);
    let mut erc20 = Erc20::new(1000, alice);
    let res = erc20.transfer(alice, alice, 400);
    assert_eq!(res, Ok(()));
    assert_eq!(erc20.balance_of(alice), 1000);
    // validated and notified all the same
    assert_eq!(erc20.events.len(), 1);
    assert_eq!(
        erc20.events[0],
        Event::Transfer(Transfer { from: Some(alice), to: Some(alice), value: 400 })
    );
}

#[test]
fn transfer_whole_balance_empties_sender() {
    let alice = AccountId(1);
    let bob = AccountId(2);
    let mut erc20 = Erc20::new(1000, alice);
    let held = erc20.balance_of(alice);
    assert_eq!(erc20.transfer(alice, bob, held), Ok(()));
    assert_eq!(erc20.balance_of(alice), 0);
    assert_eq!(erc20.balance_of(bob), 1000);
}

#[test]
fn transfer_one_over_balance_fails() {
    let alice = AccountId(1);
    let bob = AccountId(2);
    let mut erc20 = Erc20::new(1000, alice);
    assert_eq!(erc20.transfer(alice, bob, 250), Ok(()));
    let held = erc20.balance_of(alice);
    assert_eq!(erc20.transfer(alice, bob, held + 1), Err(Error::BalanceTooLow));
    assert_eq!(erc20.balance_of(alice), 750);
    assert_eq!(erc20.balance_of(bob), 250);
}
