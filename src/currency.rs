//! An account-based currency: each user holds a balance, and a user is registered while that
//! balance is above zero. Invalid transactions leave the balances as they were.
use vstd::prelude::*;
use crate::state_machine::StateMachine;

verus! {

/// The users of the currency.
#[derive(Clone, Copy, Debug, PartialEq, Eq, Structural)]
pub enum User {
    Alice,
    Bob,
    Charlie,
}

/// The balance of every user; zero means the user holds no account.
#[derive(Clone, Copy, Debug, PartialEq, Eq, Structural)]
pub struct Balances {
    pub alice: u64,
    pub bob: u64,
    pub charlie: u64,
}

/// The transactions of the currency.
#[derive(Clone, Copy, Debug, PartialEq, Eq)]
pub enum AccountingTransaction {
    /// Creates `amount` new tokens for the minter.
    Mint { minter: User, amount: u64 },
    /// Destroys up to `amount` of the burner's tokens.
    Burn { burner: User, amount: u64 },
    /// Moves `amount` from the sender's account to the receiver's.
    Transfer { sender: User, receiver: User, amount: u64 },
}

/// The balance that `pairs` give `user`: the amount of the last pair that names it, or zero.
pub open spec fn pairs_balance(pairs: Seq<(User, u64)>, user: User) -> u64
    decreases pairs.len(),
{
    if pairs.len() == 0 {
        0
    } else if pairs.last().0 == user {
        pairs.last().1
    } else {
        pairs_balance(pairs.drop_last(), user)
    }
}

impl Balances {
    /// The balance of `user`.
    pub open spec fn balance_of(self, user: User) -> u64 {
        match user {
            User::Alice => self.alice,
            User::Bob => self.bob,
            User::Charlie => self.charlie,
        }
    }

    /// The balances with `user`'s set to `amount`.
    pub open spec fn with_balance(self, user: User, amount: u64) -> Balances {
        match user {
            User::Alice => Balances { alice: amount, ..self },
            User::Bob => Balances { bob: amount, ..self },
            User::Charlie => Balances { charlie: amount, ..self },
        }
    }

    /// The accounts: each registered user and its balance.
    pub open spec fn accounts(self) -> Map<User, u64> {
        Map::new(|u: User| self.balance_of(u) > 0, |u: User| self.balance_of(u))
    }

    /// Returns the balances where nobody holds an account.
    pub fn new() -> (r: Balances)
        ensures
            r.accounts() == Map::<User, u64>::empty(),
    {
        let r = Balances { alice: 0, bob: 0, charlie: 0 };
        assert(r.accounts() =~= Map::<User, u64>::empty());
        r
    }

    /// Returns the balances that the pairs give, a later pair for a user replacing an earlier
    /// one; a pair with amount zero removes the account.
    pub fn from_pairs(pairs: &[(User, u64)]) -> (r: Balances)
        ensures
            forall|u: User| #[trigger] r.balance_of(u) == pairs_balance(pairs@, u),
    {
        let mut r = Balances { alice: 0, bob: 0, charlie: 0 };
        let mut i: usize = 0;
        while i < pairs.len()
            invariant
                0 <= i <= pairs@.len(),
                forall|u: User| #[trigger] r.balance_of(u) == pairs_balance(pairs@.subrange(0, i as int), u),
            decreases pairs.len() - i,
        {
            assert(pairs@.subrange(0, i + 1).drop_last() =~= pairs@.subrange(0, i as int));
            let (user, amount) = pairs[i];
            let ghost before = r;
            r.set_balance(user, amount);
            proof {
                let next = pairs@.subrange(0, i + 1);
                assert(next.last() == (user, amount));
                assert forall|u: User| #[trigger] r.balance_of(u) == pairs_balance(next, u) by {
                    if u != user {
                        assert(r.balance_of(u) == before.balance_of(u));
                    }
                }
            }
            i = i + 1;
        }
        assert(pairs@.subrange(0, i as int) =~= pairs@);
        r
    }

    /// Returns the balance of `user`.
    pub fn balance(&self, user: User) -> (r: u64)
        ensures
            r == self.balance_of(user),
    {
        match user {
            User::Alice => self.alice,
            User::Bob => self.bob,
            User::Charlie => self.charlie,
        }
    }

    /// Sets the balance of `user`.
    pub fn set_balance(&mut self, user: User, amount: u64)
        ensures
            *final(self) == old(self).with_balance(user, amount),
    {
        match user {
            User::Alice => self.alice = amount,
            User::Bob => self.bob = amount,
            User::Charlie => self.charlie = amount,
        }
    }
}

/// The accounted currency.
pub struct AccountedCurrency;

impl StateMachine for AccountedCurrency {
    type State = Balances;
    type Transition = AccountingTransaction;

    /// Minting zero, or past the largest balance, changes nothing. Burning from a user without an
    /// account, or burning zero, changes nothing; burning the whole balance or more closes the
    /// account. A transfer to oneself, from or to a user without an account, of more than the
    /// sender holds, or past the receiver's largest balance, changes nothing.
    open spec fn next(s: Balances, t: AccountingTransaction) -> Balances {
        match t {
            AccountingTransaction::Mint { minter, amount } => {
                let b = s.balance_of(minter);
                if amount == 0 || b + amount > u64::MAX {
                    s
                } else {
                    s.with_balance(minter, (b + amount) as u64)
                }
            },
            AccountingTransaction::Burn { burner, amount } => {
                let b = s.balance_of(burner);
                if b == 0 || amount == 0 {
                    s
                } else if amount >= b {
                    s.with_balance(burner, 0)
                } else {
                    s.with_balance(burner, (b - amount) as u64)
                }
            },
            AccountingTransaction::Transfer { sender, receiver, amount } => {
                let from = s.balance_of(sender);
                let to = s.balance_of(receiver);
                if sender == receiver || from == 0 || to == 0 || amount > from || to + amount
                    > u64::MAX {
                    s
                } else {
                    s.with_balance(sender, (from - amount) as u64).with_balance(
                        receiver,
                        (to + amount) as u64,
                    )
                }
            },
        }
    }

    fn next_state(starting_state: &Balances, t: &AccountingTransaction) -> (r: Balances) {
        let mut s = *starting_state;
        match *t {
            AccountingTransaction::Mint { minter, amount } => {
                let b = s.balance(minter);
                if amount != 0 && b <= u64::MAX - amount {
                    s.set_balance(minter, b + amount);
                }
            },
            AccountingTransaction::Burn { burner, amount } => {
                let b = s.balance(burner);
                if b != 0 && amount != 0 {
                    if amount >= b {
                        s.set_balance(burner, 0);
                    } else {
                        s.set_balance(burner, b - amount);
                    }
                }
            },
            AccountingTransaction::Transfer { sender, receiver, amount } => {
                let from = s.balance(sender);
                let to = s.balance(receiver);
                if sender != receiver && from != 0 && to != 0 && amount <= from && to <= u64::MAX
                    - amount {
                    s.set_balance(sender, from - amount);
                    s.set_balance(receiver, to + amount);
                }
            },
        }
        s
    }
}

/// A transfer moves tokens without creating or destroying any: the total held is the same.
pub proof fn lemma_transfer_keeps_total(s: Balances, sender: User, receiver: User, amount: u64)
    ensures
        ({
            let e = AccountedCurrency::next(
                s,
                AccountingTransaction::Transfer { sender, receiver, amount },
            );
            e.balance_of(User::Alice) + e.balance_of(User::Bob) + e.balance_of(User::Charlie)
                == s.balance_of(User::Alice) + s.balance_of(User::Bob) + s.balance_of(
                User::Charlie,
            )
        }),
{
}

} // verus!
