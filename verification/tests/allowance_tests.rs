use erc20::account::AccountId;
use erc20::errors::Error;
use erc20::events::{Approval, Event, Transfer};
use erc20::ledger::Erc20;

#[test]
fn approve_overwrites_previous_grant() {
    let alice = AccountId(1);
    let carol = AccountId(3);
    let mut erc20 = Erc20::new(1000, alice);
    assert_eq!(erc20.approve(alice, carol, 70), Ok(()));
    assert_eq!(erc20.allowance(alice, carol), 70);
    assert_eq!(erc20.approve(alice, carol, 7), Ok(()));
    assert_eq!(erc20.allowance(alice, carol), 7);
}

#[test]
fn approve_records_approval_event() {
    let alice = AccountId(1);
    let carol = AccountId(3);
    let mut erc20 = Erc20::new(1000, alice);
    // approval is a ceiling, not a reservation: above the balance is fine
    assert_eq!(erc20.approve(alice, carol, 5000), Ok(()));
    assert_eq!(erc20.allowance(alice, carol), 5000);
    assert_eq!(
        erc20.events[0],
        Event::Approval(Approval { from: Some(alice), to: Some(carol), value: 5000 })
    );
}

#[test]
fn delegated_spend_decrements_allowance() {
    let alice = AccountId(1);
    let bob = AccountId(2);
    let carol = AccountId(3);
    let mut erc20 = Erc20::new(1000, alice);
    assert_eq!(erc20.approve(alice, carol, 100), Ok(()));
    let res = erc20.transfer_from(carol, alice, bob, 40);
    assert_eq!(res, Ok(()));
    assert_eq!(erc20.allowance(alice, carol), 60);
    assert_eq!(erc20.balance_of(alice), 960);
    assert_eq!(erc20.balance_of(bob), 40);
    assert_eq!(
        erc20.events[1],
        Event::Transfer(Transfer { from: Some(alice), to: Some(bob), value: 40 })
    );
}

#[test]
fn transfer_from_needs_allowance() {
    let alice = AccountId(1);
    let bob = AccountId(2);
    let carol = AccountId(3);
    let mut erc20 = Erc20::new(1000, alice);
    let res = erc20.transfer_from(carol, alice, bob, 1);
    assert_eq!(res, Err(Error::AllowanceTooLow));
    assert_eq!(erc20.balance_of(alice), 1000);
    assert_eq!(erc20.balance_of(bob), 0);
}

#[test]
fn failed_balance_check_consumes_no_allowance() {
    let alice = AccountId(1);
    let bob = AccountId(2);
    let carol = AccountId(3);
    let dave = AccountId(4);
    let mut erc20 = Erc20::new(1000, alice);
    // drain alice down to 30, then try a delegated spend of 50
    assert_eq!(erc20.transfer(alice, dave, 970), Ok(()));
    assert_eq!(erc20.approve(alice, carol, 100), Ok(()));
    let res = erc20.transfer_from(carol, alice, bob, 50);
    assert_eq!(res, Err(Error::BalanceTooLow));
    // both checks precede both writes: the allowance survives intact
    assert_eq!(erc20.allowance(alice, carol), 100);
    assert_eq!(erc20.balance_of(alice), 30);
    assert_eq!(erc20.balance_of(bob), 0);
}

#[test]
fn end_to_end_scenario() {
    let alice = AccountId(1);
    let bob = AccountId(2);
    let carol = AccountId(3);
    let dave = AccountId(4);
    let mut erc20 = Erc20::new(1000, alice);

    assert_eq!(erc20.balance_of(alice), 1000);
    assert_eq!(erc20.total_supply(), 1000);
    assert_eq!(erc20.balance_of(bob), 0);

    assert_eq!(erc20.transfer(alice, bob, 100), Ok(()));
    assert_eq!(erc20.balance_of(alice), 900);
    assert_eq!(erc20.balance_of(bob), 100);
    assert_eq!(
        erc20.events[0],
        Event::Transfer(Transfer { from: Some(alice), to: Some(bob), value: 100 })
    );

    assert_eq!(erc20.transfer(alice, bob, 1001), Err(Error::BalanceTooLow));
    assert_eq!(erc20.balance_of(alice), 900);
    assert_eq!(erc20.balance_of(bob), 100);

    assert_eq!(erc20.approve(alice, carol, 50), Ok(()));
    assert_eq!(erc20.allowance(alice, carol), 50);
    assert_eq!(
        erc20.events[1],
        Event::Approval(Approval { from: Some(alice), to: Some(carol), value: 50 })
    );

    assert_eq!(erc20.transfer_from(carol, alice, dave, 60), Err(Error::AllowanceTooLow));
    assert_eq!(erc20.allowance(alice, carol), 50);
    assert_eq!(erc20.balance_of(alice), 900);
    assert_eq!(erc20.balance_of(dave), 0);
}

#[test]
fn supply_constant_under_traffic() {
    let alice = AccountId(1);
    let bob = AccountId(2);
    let carol = AccountId(3);
    let mut erc20 = Erc20::new(1000, alice);
    assert_eq!(erc20.transfer(alice, bob, 300), Ok(()));
    assert_eq!(erc20.approve(bob, carol, 200), Ok(()));
    assert_eq!(erc20.transfer_from(carol, bob, carol, 150), Ok(()));
    assert_eq!(erc20.transfer(carol, alice, 50), Ok(()));
    let sum = erc20.balance_of(alice) + erc20.balance_of(bob) + erc20.balance_of(carol);
    assert_eq!(sum, 1000);
    assert_eq!(erc20.total_supply(), 1000);
}
