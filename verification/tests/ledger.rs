use alsania::ledger::{Ledger, TransferError, TransferEvent};

#[test]
fn transfer_moves_value() {
    let mut ledger = Ledger::new();
    ledger.set_balance(1, 100);
    assert_eq!(ledger.balance_of(1), 100);
    assert_eq!(ledger.balance_of(2), 0);
    assert_eq!(ledger.total_supply(), 100);

    let r = ledger.transfer(1, 2, 40);
    assert!(r.is_ok());
    assert_eq!(ledger.balance_of(1), 60);
    assert_eq!(ledger.balance_of(2), 40);
    assert_eq!(ledger.total_supply(), 100);
    assert_eq!(ledger.events().len(), 1);
    assert_eq!(ledger.events()[0], TransferEvent { from: 1, to: 2, amount: 40 });
}

#[test]
fn insufficient_balance_leaves_ledger_untouched() {
    let mut ledger = Ledger::new();
    ledger.set_balance(1, 100);

    let r = ledger.transfer(1, 2, 150);
    assert_eq!(r, Err(TransferError::InsufficientBalance));
    assert_eq!(ledger.balance_of(1), 100);
    assert_eq!(ledger.balance_of(2), 0);
    assert_eq!(ledger.total_supply(), 100);
    assert_eq!(ledger.events().len(), 0);
}

#[test]
fn overflow_leaves_ledger_untouched() {
    let mut ledger = Ledger::new();
    ledger.set_balance(2, u64::MAX - 10);
    ledger.set_balance(1, 20);

    let r = ledger.transfer(1, 2, 20);
    assert_eq!(r, Err(TransferError::Overflow));
    assert_eq!(ledger.balance_of(1), 20);
    assert_eq!(ledger.balance_of(2), u64::MAX - 10);
    assert_eq!(ledger.events().len(), 0);
}

#[test]
fn self_transfer_keeps_balance_and_emits_event() {
    let mut ledger = Ledger::new();
    ledger.set_balance(7, 55);

    let r = ledger.transfer(7, 7, 30);
    assert!(r.is_ok());
    assert_eq!(ledger.balance_of(7), 55);
    assert_eq!(ledger.total_supply(), 55);
    assert_eq!(ledger.events().len(), 1);
    assert_eq!(ledger.events()[0], TransferEvent { from: 7, to: 7, amount: 30 });
}

#[test]
fn self_transfer_of_whole_balance_succeeds() {
    let mut ledger = Ledger::new();
    ledger.set_balance(7, 55);

    let r = ledger.transfer(7, 7, 55);
    assert!(r.is_ok());
    assert_eq!(ledger.balance_of(7), 55);
}

#[test]
fn zero_amount_transfer_always_succeeds() {
    let mut ledger = Ledger::new();
    ledger.set_balance(1, 100);

    // From a funded account.
    let r = ledger.transfer(1, 2, 0);
    assert!(r.is_ok());
    // From an account with no balance at all.
    let r2 = ledger.transfer(3, 1, 0);
    assert!(r2.is_ok());

    assert_eq!(ledger.balance_of(1), 100);
    assert_eq!(ledger.balance_of(2), 0);
    assert_eq!(ledger.balance_of(3), 0);
    assert_eq!(ledger.events().len(), 2);
    assert_eq!(ledger.events()[0], TransferEvent { from: 1, to: 2, amount: 0 });
    assert_eq!(ledger.events()[1], TransferEvent { from: 3, to: 1, amount: 0 });
}

#[test]
fn successful_transfers_conserve_total_supply() {
    let mut ledger = Ledger::new();
    ledger.set_balance(1, 500);
    ledger.set_balance(2, 250);
    let before = ledger.total_supply();
    assert_eq!(before, 750);

    assert!(ledger.transfer(1, 2, 100).is_ok());
    assert!(ledger.transfer(2, 3, 300).is_ok());
    assert!(ledger.transfer(3, 1, 1).is_ok());
    assert!(ledger.transfer(1, 1, 401).is_ok());

    assert_eq!(ledger.total_supply(), before);
    assert_eq!(ledger.balance_of(1), 401);
    assert_eq!(ledger.balance_of(2), 50);
    assert_eq!(ledger.balance_of(3), 299);
    assert_eq!(ledger.events().len(), 4);
}

#[test]
fn event_log_keeps_execution_order() {
    let mut ledger = Ledger::new();
    ledger.set_balance(1, 10);

    assert!(ledger.transfer(1, 2, 4).is_ok());
    assert!(ledger.transfer(2, 3, 1).is_ok());
    assert_eq!(ledger.transfer(3, 1, 2), Err(TransferError::InsufficientBalance));
    assert!(ledger.transfer(1, 3, 6).is_ok());

    // Only the successful transfers are recorded, oldest first.
    let events = ledger.events();
    assert_eq!(events.len(), 3);
    assert_eq!(events[0], TransferEvent { from: 1, to: 2, amount: 4 });
    assert_eq!(events[1], TransferEvent { from: 2, to: 3, amount: 1 });
    assert_eq!(events[2], TransferEvent { from: 1, to: 3, amount: 6 });
}

#[test]
fn absent_account_reads_as_zero() {
    let ledger = Ledger::new();
    assert_eq!(ledger.balance_of(0), 0);
    assert_eq!(ledger.balance_of(u64::MAX), 0);
    assert_eq!(ledger.total_supply(), 0);
    assert_eq!(ledger.events().len(), 0);
}

#[test]
fn set_balance_overwrites_and_tracks_supply() {
    let mut ledger = Ledger::new();
    ledger.set_balance(9, 40);
    assert_eq!(ledger.balance_of(9), 40);
    assert_eq!(ledger.total_supply(), 40);

    ledger.set_balance(9, 15);
    assert_eq!(ledger.balance_of(9), 15);
    assert_eq!(ledger.total_supply(), 15);

    ledger.set_balance(8, 5);
    assert_eq!(ledger.balance_of(8), 5);
    assert_eq!(ledger.balance_of(9), 15);
    assert_eq!(ledger.total_supply(), 20);
    // Allocation is not a transfer: nothing is logged.
    assert_eq!(ledger.events().len(), 0);
}

#[test]
fn exact_balance_can_be_sent_whole() {
    let mut ledger = Ledger::new();
    ledger.set_balance(1, 25);

    let r = ledger.transfer(1, 2, 25);
    assert!(r.is_ok());
    assert_eq!(ledger.balance_of(1), 0);
    assert_eq!(ledger.balance_of(2), 25);
}

#[test]
fn credit_up_to_the_maximum_balance_succeeds() {
    let mut ledger = Ledger::new();
    ledger.set_balance(2, u64::MAX - 10);
    ledger.set_balance(1, 10);

    let r = ledger.transfer(1, 2, 10);
    assert!(r.is_ok());
    assert_eq!(ledger.balance_of(1), 0);
    assert_eq!(ledger.balance_of(2), u64::MAX);
    assert_eq!(ledger.total_supply(), u64::MAX);
}
