use blockchain::currency::{AccountedCurrency, AccountingTransaction, Balances, User};
use blockchain::state_machine::StateMachine;

#[test]
fn sm_4_simple_mint() {
    let start = Balances::new();
    let end = AccountedCurrency::next_state(
        &start,
        &AccountingTransaction::Mint {
            minter: User::Alice,
            amount: 100,
        },
    );
    let expected = Balances::from_pairs(&[(User::Alice, 100)]);

    assert_eq!(end, expected);

    let start = Balances::from_pairs(&[(User::Alice, 100)]);
    let end1 = AccountedCurrency::next_state(
        &start,
        &AccountingTransaction::Mint {
            minter: User::Bob,
            amount: 50,
        },
    );
    let expected1 = Balances::from_pairs(&[(User::Alice, 100), (User::Bob, 50)]);

    assert_eq!(end1, expected1);

    let start = Balances::from_pairs(&[(User::Alice, 100)]);
    let end2 = AccountedCurrency::next_state(
        &start,
        &AccountingTransaction::Mint {
            minter: User::Alice,
            amount: 50,
        },
    );
    let expected2 = Balances::from_pairs(&[(User::Alice, 150)]);

    assert_eq!(end2, expected2);
}

#[test]
fn sm_4_empty_mint() {
    let start = Balances::new();
    let end = AccountedCurrency::next_state(
        &start,
        &AccountingTransaction::Mint {
            minter: User::Alice,
            amount: 0,
        },
    );
    let expected = Balances::new();

    assert_eq!(end, expected);
}

#[test]
fn sm_4_simple_burn() {
    let start = Balances::from_pairs(&[(User::Alice, 100)]);
    let end = AccountedCurrency::next_state(
        &start,
        &AccountingTransaction::Burn {
            burner: User::Alice,
            amount: 50,
        },
    );
    let expected = Balances::from_pairs(&[(User::Alice, 50)]);

    assert_eq!(end, expected);

    let start = Balances::from_pairs(&[(User::Alice, 100), (User::Bob, 50)]);
    let end1 = AccountedCurrency::next_state(
        &start,
        &AccountingTransaction::Burn {
            burner: User::Bob,
            amount: 50,
        },
    );
    let expected1 = Balances::from_pairs(&[(User::Alice, 100)]);

    assert_eq!(end1, expected1);
}

#[test]
fn sm_4_non_registered_burner() {
    let start = Balances::from_pairs(&[(User::Alice, 100)]);
    let end = AccountedCurrency::next_state(
        &start,
        &AccountingTransaction::Burn {
            burner: User::Bob,
            amount: 50,
        },
    );
    let expected = Balances::from_pairs(&[(User::Alice, 100)]);

    assert_eq!(end, expected);
}

#[test]
fn sm_4_burn_more_than_balance() {
    let start = Balances::from_pairs(&[(User::Alice, 100), (User::Bob, 50)]);
    let end2 = AccountedCurrency::next_state(
        &start,
        &AccountingTransaction::Burn {
            burner: User::Bob,
            amount: 100,
        },
    );
    let expected2 = Balances::from_pairs(&[(User::Alice, 100)]);

    assert_eq!(end2, expected2);
}

#[test]
fn sm_4_empty_burn() {
    let start = Balances::from_pairs(&[(User::Alice, 100)]);
    let end = AccountedCurrency::next_state(
        &start,
        &AccountingTransaction::Burn {
            burner: User::Alice,
            amount: 0,
        },
    );
    let expected = Balances::from_pairs(&[(User::Alice, 100)]);

    assert_eq!(end, expected);
}

#[test]
fn sm_4_burner_doesnt_exist() {
    let start = Balances::from_pairs(&[(User::Alice, 100)]);
    let end = AccountedCurrency::next_state(
        &start,
        &AccountingTransaction::Burn {
            burner: User::Bob,
            amount: 50,
        },
    );
    let expected = Balances::from_pairs(&[(User::Alice, 100)]);

    assert_eq!(end, expected);
}

#[test]
fn sm_4_simple_transfer() {
    let start = Balances::from_pairs(&[(User::Alice, 100), (User::Bob, 50)]);
    let end = AccountedCurrency::next_state(
        &start,
        &AccountingTransaction::Transfer {
            sender: User::Alice,
            receiver: User::Bob,
            amount: 10,
        },
    );
    let expected = Balances::from_pairs(&[(User::Alice, 90), (User::Bob, 60)]);

    assert_eq!(end, expected);

    let start = Balances::from_pairs(&[(User::Alice, 90), (User::Bob, 60)]);
    let end1 = AccountedCurrency::next_state(
        &start,
        &AccountingTransaction::Transfer {
            sender: User::Bob,
            receiver: User::Alice,
            amount: 50,
        },
    );
    let expected1 = Balances::from_pairs(&[(User::Alice, 140), (User::Bob, 10)]);

    assert_eq!(end1, expected1);
}

#[test]
fn sm_4_send_to_same_user() {
    let start = Balances::from_pairs(&[(User::Alice, 100), (User::Bob, 50)]);
    let end = AccountedCurrency::next_state(
        &start,
        &AccountingTransaction::Transfer {
            sender: User::Bob,
            receiver: User::Bob,
            amount: 10,
        },
    );
    let expected = Balances::from_pairs(&[(User::Alice, 100), (User::Bob, 50)]);

    assert_eq!(end, expected);
}

#[test]
fn sm_4_unsufficient_balance_transfer() {
    let start = Balances::from_pairs(&[(User::Alice, 100), (User::Bob, 50)]);
    let end = AccountedCurrency::next_state(
        &start,
        &AccountingTransaction::Transfer {
            sender: User::Bob,
            receiver: User::Alice,
            amount: 60,
        },
    );
    let expected = Balances::from_pairs(&[(User::Alice, 100), (User::Bob, 50)]);

    assert_eq!(end, expected);
}

#[test]
fn sm_4_sender_not_registered() {
    let start = Balances::from_pairs(&[(User::Alice, 100), (User::Bob, 50)]);
    let end = AccountedCurrency::next_state(
        &start,
        &AccountingTransaction::Transfer {
            sender: User::Charlie,
            receiver: User::Alice,
            amount: 50,
        },
    );
    let expected = Balances::from_pairs(&[(User::Alice, 100), (User::Bob, 50)]);

    assert_eq!(end, expected);
}

#[test]
fn sm_4_receiver_not_registered() {
    let start = Balances::from_pairs(&[(User::Alice, 100), (User::Bob, 50)]);
    let end = AccountedCurrency::next_state(
        &start,
        &AccountingTransaction::Transfer {
            sender: User::Alice,
            receiver: User::Charlie,
            amount: 50,
        },
    );
    let expected = Balances::from_pairs(&[(User::Alice, 100), (User::Bob, 50)]);

    assert_eq!(end, expected);

    let start = Balances::from_pairs(&[(User::Alice, 100), (User::Bob, 50)]);
    let end1 = AccountedCurrency::next_state(
        &start,
        &AccountingTransaction::Transfer {
            sender: User::Bob,
            receiver: User::Charlie,
            amount: 50,
        },
    );
    let expected1 = Balances::from_pairs(&[(User::Alice, 100), (User::Bob, 50)]);

    assert_eq!(end1, expected1);
}

#[test]
fn sm_4_transfer_sender_to_empty_balance() {
    let start = Balances::from_pairs(&[(User::Alice, 100), (User::Bob, 50)]);
    let end = AccountedCurrency::next_state(
        &start,
        &AccountingTransaction::Transfer {
            sender: User::Bob,
            receiver: User::Alice,
            amount: 50,
        },
    );
    let expected = Balances::from_pairs(&[(User::Alice, 150)]);

    assert_eq!(end, expected);
}

#[test]
fn currency_from_pairs_last_pair_wins() {
    let b = Balances::from_pairs(&[(User::Alice, 5), (User::Bob, 7), (User::Alice, 9)]);
    assert_eq!(b.balance(User::Alice), 9);
    assert_eq!(b.balance(User::Bob), 7);
    assert_eq!(b.balance(User::Charlie), 0);
    assert_eq!(b, Balances::from_pairs(&[(User::Bob, 7), (User::Alice, 9)]));
}

#[test]
fn currency_mint_overflow_is_ignored() {
    let start = Balances::from_pairs(&[(User::Alice, u64::MAX)]);
    let end = AccountedCurrency::next_state(
        &start,
        &AccountingTransaction::Mint { minter: User::Alice, amount: 1 },
    );
    assert_eq!(end, start);
}
