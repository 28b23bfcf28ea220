use blockchain::cash::{Bill, CashTransaction, DigitalCashSystem, State};
use blockchain::currency::User;

#[test]
fn mint_new_cash() {
    let start = State::new();
    let end = DigitalCashSystem::next_state(
        &start,
        &CashTransaction::Mint {
            minter: User::Alice,
            amount: 20,
        }
    );

    let expected = State::from_bills(&[
        Bill { owner: User::Alice, amount: 20, serial: 0 }
    ]);
    assert_eq!(end, expected);
}

#[test]
fn overflow_receives_fails() {
    let start = State::from_bills(&[
        Bill { owner: User::Alice, amount: 42, serial: 0},
    ]);
    let end = DigitalCashSystem::next_state(
        &start,
        &CashTransaction::Transfer {
            spends: vec![Bill { owner: User::Alice, amount: 42, serial: 0 }],
            receives: vec![
                Bill { owner: User::Alice, amount: u64::MAX, serial: 1 },
                Bill { owner: User::Alice, amount: 42, serial: 2 }
            ]
        }
    );
    let expected = State::from_bills(&[
        Bill { owner: User::Alice, amount: 42, serial: 0}
    ]);
    assert_eq!(end, expected);
}

#[test]
fn empty_spend_fails() {
    let start = State::from_bills(&[
        Bill { owner: User::Alice, amount: 20, serial: 0 }
    ]);
    let end = DigitalCashSystem::next_state(
        &start,
        &CashTransaction::Transfer {
            spends: vec![],
            receives: vec![Bill { owner: User::Alice, amount: 15, serial: 1 }]
        }
    );
    let expected = State::from_bills(&[
        Bill { owner: User::Alice, amount: 20, serial: 0 }
    ]);
    assert_eq!(end, expected);
}

#[test]
fn empty_receive_fails() {
    let start = State::from_bills(&[
        Bill { owner: User::Alice, amount: 20, serial: 0 }
    ]);
    let end = DigitalCashSystem::next_state(
        &start,
        &CashTransaction::Transfer {
            spends: vec![Bill { owner: User::Alice, amount: 20, serial: 0 }],
            receives: vec![]
        }
    );
    let expected = State::from_bills(&[
        Bill { owner: User::Alice, amount: 20, serial: 0 }
    ]);
    assert_eq!(end, expected);
}

#[test]
fn output_value_0_fails() {
    let start = State::from_bills(&[
        Bill { owner: User::Alice, amount: 20, serial: 0 }
    ]);
    let end = DigitalCashSystem::next_state(
        &start,
        &CashTransaction::Transfer {
            spends: vec![Bill { owner: User::Alice, amount: 20, serial: 0 }],
            receives: vec![Bill { owner: User::Bob, amount: 0, serial: 1 }]
        }
    );
    let expected = State::from_bills(&[
        Bill { owner: User::Alice, amount: 20, serial: 0 }
    ]);
    assert_eq!(end, expected);
}

#[test]
fn serial_number_already_seen_fails() {
    let start = State::from_bills(&[
        Bill { owner: User::Alice, amount: 20, serial: 0 }
    ]);
    let end = DigitalCashSystem::next_state(
        &start,
        &CashTransaction::Transfer {
            spends: vec![Bill { owner: User::Alice, amount: 20, serial: 0 }],
            receives: vec![Bill { owner: User::Alice, amount: 18, serial: 0 }]
        }
    );
    let expected = State::from_bills(&[
        Bill { owner: User::Alice, amount: 20, serial: 0 }
    ]);
    assert_eq!(end, expected);
}

#[test]
fn spending_and_receiving_same_bill_fails() {
    let start = State::from_bills(&[
        Bill { owner: User::Alice, amount: 20, serial: 0 }
    ]);
    let end = DigitalCashSystem::next_state(
        &start,
        &CashTransaction::Transfer {
            spends: vec![Bill { owner: User::Alice, amount: 20, serial: 0 }],
            receives: vec![Bill { owner: User::Alice, amount: 20, serial: 0 }]
        }
    );
    let expected = State::from_bills(&[
        Bill { owner: User::Alice, amount: 20, serial: 0 }
    ]);
    assert_eq!(end, expected);
}

#[test]
fn receiving_bill_with_incorrect_serial_fails() {
    let start = State::from_bills(&[
        Bill { owner: User::Alice, amount: 20, serial: 0 }
    ]);
    let end = DigitalCashSystem::next_state(
        &start,
        &CashTransaction::Transfer {
            spends: vec![Bill { owner: User::Alice, amount: 20, serial: 0 }],
            receives: vec![
                Bill { owner: User::Alice, amount: 10, serial: u64::MAX },
                Bill { owner: User::Bob, amount: 10, serial: 4000 }
            ]
        }
    );
    let expected = State::from_bills(&[
        Bill { owner: User::Alice, amount: 20, serial: 0 }
    ]);
    assert_eq!(end, expected);
}

#[test]
fn spending_bill_with_incorrect_amount_fails() {
    let start = State::from_bills(&[
        Bill { owner: User::Alice, amount: 20, serial: 0 }
    ]);
    let end = DigitalCashSystem::next_state(
        &start,
        &CashTransaction::Transfer {
            spends: vec![Bill { owner: User::Alice, amount: 40, serial: 0 }],
            receives: vec![Bill { owner: User::Bob, amount: 40, serial: 1 }]
        }
    );
    let expected = State::from_bills(&[
        Bill { owner: User::Alice, amount: 20, serial: 0 }
    ]);
    assert_eq!(end, expected);
}

#[test]
fn spending_same_bill_fails() {
    let start = State::from_bills(&[
        Bill { owner: User::Alice, amount: 40, serial: 0 }
    ]);
    let end = DigitalCashSystem::next_state(
        &start,
        &CashTransaction::Transfer {
            spends: vec![
                Bill { owner: User::Alice, amount: 40, serial: 0 },
                Bill { owner: User::Alice, amount: 40, serial: 0 }
            ],
            receives: vec![
                Bill { owner: User::Bob, amount: 20, serial: 1 },
                Bill { owner: User::Bob, amount: 20, serial: 2 },
                Bill { owner: User::Alice, amount: 40, serial: 3 }
            ],
        }
    );
    let expected = State::from_bills(&[
        Bill { owner: User::Alice, amount: 40, serial: 0 }
    ]);
    assert_eq!(end, expected);
}

#[test]
fn spending_more_than_bill_fails() {
    let start = State::from_bills(&[
        Bill { owner: User::Alice, amount: 40, serial: 0 },
        Bill { owner: User::Charlie, amount: 42, serial: 1 }
    ]);
    let end = DigitalCashSystem::next_state(
        &start,
        &CashTransaction::Transfer {
            spends: vec![
                Bill { owner: User::Alice, amount: 40, serial: 0 },
                Bill { owner: User::Charlie, amount: 42, serial: 1 }
            ],
            receives: vec![
                Bill { owner: User::Bob, amount: 20, serial: 2 },
                Bill { owner: User::Bob, amount: 20, serial: 3 },
                Bill { owner: User::Alice, amount: 52, serial: 4 }
            ],
        }
    );
    let expected = State::from_bills(&[
        Bill { owner: User::Alice, amount: 40, serial: 0 },
        Bill { owner: User::Charlie, amount: 42, serial: 1 }
    ]);
    assert_eq!(end, expected);
}

#[test]
fn spending_non_existent_bill_fails() {
    let start = State::from_bills(&[
        Bill { owner: User::Alice, amount: 32, serial: 0 },
    ]);
    let end = DigitalCashSystem::next_state(
        &start,
        &CashTransaction::Transfer {
            spends: vec![
                Bill { owner: User::Bob, amount: 1000, serial: 32 },
            ],
            receives: vec![
                Bill { owner: User::Bob, amount: 1000, serial: 33 }
            ]
        }
    );
    let expected = State::from_bills(&[
        Bill { owner: User::Alice, amount: 32, serial: 0 },
    ]);
    assert_eq!(end, expected);
}

#[test]
fn spending_from_alice_to_all() {
    let start = State::from_bills(&[
        Bill { owner: User::Alice, amount: 42, serial: 0 }
    ]);
    let end = DigitalCashSystem::next_state(
        &start,
        &CashTransaction::Transfer {
            spends: vec![
                Bill { owner: User::Alice, amount: 42, serial: 0 }
            ],
            receives: vec![
                Bill { owner: User::Alice, amount: 10, serial: 1 },
                Bill { owner: User::Bob, amount: 10, serial: 2 },
                Bill { owner: User::Charlie, amount: 10, serial: 3 }
            ]
        }
    );
    let mut expected = State::from_bills(&[
        Bill { owner: User::Alice, amount: 10, serial: 1 },
        Bill { owner: User::Bob, amount: 10, serial: 2 },
        Bill { owner: User::Charlie, amount: 10, serial: 3 }
    ]);
    expected.set_serial(4);
    assert_eq!(end, expected);
}

#[test]
fn spending_from_bob_to_all() {
    let start = State::from_bills(&[
        Bill { owner: User::Bob, amount: 42, serial: 0 }
    ]);
    let end = DigitalCashSystem::next_state(
        &start,
        &CashTransaction::Transfer {
            spends: vec![
                Bill { owner: User::Bob, amount: 42, serial: 0 },
            ],
            receives: vec![
                Bill { owner: User::Alice, amount: 10, serial: 1 },
                Bill { owner: User::Bob, amount: 10, serial: 2 },
                Bill { owner: User::Charlie, amount: 22, serial: 3 }
            ]
        }
    );
    let mut expected = State::from_bills(&[
        Bill { owner: User::Alice, amount: 10, serial: 1 },
        Bill { owner: User::Bob, amount: 10, serial: 2 },
        Bill { owner: User::Charlie, amount: 22, serial: 3 }
    ]);
    expected.set_serial(4);
    assert_eq!(end, expected);
}

#[test]
fn spending_from_charlie_to_all() {
    let mut start = State::from_bills(&[
        Bill { owner: User::Charlie, amount: 68, serial: 54 },
        Bill { owner: User::Alice, amount: 4000, serial: 58 }
    ]);
    start.set_serial(59);
    let end = DigitalCashSystem::next_state(
        &start,
        &CashTransaction::Transfer {
            spends: vec![
                Bill { owner: User::Charlie, amount: 68, serial: 54 }
            ],
            receives: vec![
                Bill { owner: User::Alice, amount: 42, serial: 59 },
                Bill { owner: User::Bob, amount: 5, serial: 60 },
                Bill { owner: User::Charlie, amount: 5, serial: 61 }
            ]
        }
    );
    let mut expected = State::from_bills(&[
        Bill { owner: User::Alice, amount: 4000, serial: 58},
        Bill { owner: User::Alice, amount: 42, serial: 59 },
        Bill { owner: User::Bob, amount: 5, serial: 60 },
        Bill { owner: User::Charlie, amount: 5, serial: 61 }
    ]);
    expected.set_serial(62);
    assert_eq!(end, expected);
}

#[test]
fn cash_new_state_and_serials() {
    let mut s = State::new();
    assert_eq!(s.next_serial(), 1);
    s.set_serial(9);
    assert_eq!(s.next_serial(), 10);
    assert_eq!(s, {
        let mut t = State::new();
        t.set_serial(9);
        t
    });
    assert_ne!(s, State::new());
}

#[test]
fn cash_state_equality_ignores_order() {
    let a = Bill { owner: User::Alice, amount: 1, serial: 0 };
    let b = Bill { owner: User::Bob, amount: 2, serial: 1 };
    assert_eq!(State::from_bills(&[a, b]), State::from_bills(&[b, a]));
    assert_ne!(State::from_bills(&[a, b]), State::from_bills(&[a]));
}

#[test]
fn cash_mint_zero_is_ignored() {
    let start = State::new();
    let end = DigitalCashSystem::next_state(
        &start,
        &CashTransaction::Mint { minter: User::Bob, amount: 0 },
    );
    assert_eq!(end, State::new());
}
