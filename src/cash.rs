//! A cash-like currency: the state is the set of bills in circulation, each with an owner, an
//! amount and a unique serial number. A transfer spends whole bills and creates new ones worth
//! at most as much; what is not received is destroyed. Invalid transactions change nothing.
use vstd::prelude::*;
use crate::currency::User;

verus! {

/// A bill in circulation.
#[derive(Clone, Copy, Debug, PartialEq, Eq, Structural)]
pub struct Bill {
    pub owner: User,
    pub amount: u64,
    pub serial: u64,
}

/// The bills in circulation and the serial number that the next bill will get.
#[derive(Debug)]
pub struct State {
    bills: Vec<Bill>,
    next_serial: u64,
}

/// The transactions of the cash system.
#[derive(Clone, Debug, PartialEq, Eq)]
pub enum CashTransaction {
    /// Creates a single new bill owned by the minter.
    Mint { minter: User, amount: u64 },
    /// Spends some bills and creates others, worth at most as much in total.
    Transfer { spends: Vec<Bill>, receives: Vec<Bill> },
}

/// What a sequence holds after a push: what it held, and the pushed value.
proof fn lemma_push_contains<T>(s: Seq<T>, e: T)
    ensures
        forall|x: T| #[trigger] s.push(e).contains(x) <==> (s.contains(x) || x == e),
{
    assert forall|x: T| #[trigger] s.push(e).contains(x) <==> (s.contains(x) || x == e) by {
        if s.contains(x) {
            let i = choose|i: int| 0 <= i < s.len() && s[i] == x;
            assert(s.push(e)[i] == x);
        }
        if x == e {
            assert(s.push(e)[s.len() as int] == e);
        }
        if s.push(e).contains(x) {
            let i = choose|i: int| 0 <= i < s.push(e).len() && s.push(e)[i] == x;
            if i < s.len() {
                assert(s[i] == x);
            }
        }
    }
}

/// The total amount of the bills.
pub open spec fn total(bills: Seq<Bill>) -> int
    decreases bills.len(),
{
    if bills.len() == 0 {
        0
    } else {
        total(bills.drop_last()) + bills.last().amount
    }
}

/// Whether a transfer that spends `spends` and creates `receives` is valid in a state with the
/// given bills and next serial number: it spends and creates at least one bill, spends only
/// circulating bills and none twice, creates no empty bill, numbers the new bills in order from
/// the next serial number, and creates no more than it spends.
pub open spec fn transfer_valid(
    bills: Set<Bill>,
    next_serial: u64,
    spends: Seq<Bill>,
    receives: Seq<Bill>,
) -> bool {
    &&& spends.len() > 0
    &&& receives.len() > 0
    &&& forall|i: int| 0 <= i < spends.len() ==> bills.contains(#[trigger] spends[i])
    &&& forall|i: int, j: int| 0 <= i < j < spends.len() ==> spends[i] != spends[j]
    &&& forall|i: int| 0 <= i < receives.len() ==> (#[trigger] receives[i]).amount > 0
    &&& next_serial + receives.len() <= u64::MAX
    &&& forall|i: int| 0 <= i < receives.len() ==> (#[trigger] receives[i]).serial == next_serial + i
    &&& total(receives) <= total(spends)
}

impl State {
    /// The bills in circulation.
    pub closed spec fn bill_set(&self) -> Set<Bill> {
        Set::new(|b: Bill| self.bills@.contains(b))
    }

    /// The serial number that the next bill will get.
    pub closed spec fn serial(&self) -> u64 {
        self.next_serial
    }

    /// Returns a state with no bills, whose next serial number is zero.
    pub fn new() -> (r: Self)
        ensures
            r.bill_set() == Set::<Bill>::empty(),
            r.serial() == 0,
    {
        let r = State { bills: Vec::new(), next_serial: 0 };
        assert(r.bill_set() =~= Set::<Bill>::empty());
        r
    }

    /// Sets the next serial number.
    pub fn set_serial(&mut self, serial: u64)
        ensures
            final(self).serial() == serial,
            final(self).bill_set() == old(self).bill_set(),
    {
        self.next_serial = serial;
    }

    /// Returns the serial number after the next one.
    pub fn next_serial(&self) -> (r: u64)
        requires
            self.serial() < u64::MAX,
        ensures
            r == self.serial() + 1,
    {
        self.next_serial + 1
    }

    /// Moves the next serial number on by one.
    fn increment_serial(&mut self)
        requires
            old(self).serial() < u64::MAX,
        ensures
            final(self).serial() == old(self).serial() + 1,
            final(self).bill_set() == old(self).bill_set(),
    {
        self.next_serial = self.next_serial + 1;
    }

    /// Puts a bill in circulation and moves the next serial number on.
    fn add_bill(&mut self, elem: Bill)
        requires
            old(self).serial() < u64::MAX,
        ensures
            final(self).serial() == old(self).serial() + 1,
            final(self).bill_set() == old(self).bill_set().insert(elem),
    {
        proof {
            lemma_push_contains(self.bills@, elem);
        }
        self.bills.push(elem);
        self.increment_serial();
        assert(self.bill_set() =~= old(self).bill_set().insert(elem));
    }

    /// Returns the state whose bills are the given ones, each added in turn, so that the next
    /// serial number is their count.
    pub fn from_bills(bills: &[Bill]) -> (r: Self)
        ensures
            r.bill_set() == Set::new(|b: Bill| bills@.contains(b)),
            r.serial() == bills@.len(),
    {
        let mut state = State::new();
        let mut i: usize = 0;
        while i < bills.len()
            invariant
                0 <= i <= bills@.len(),
                state.serial() == i,
                state.bill_set() == Set::new(|b: Bill| bills@.subrange(0, i as int).contains(b)),
            decreases bills.len() - i,
        {
            proof {
                assert(bills@.len() <= usize::MAX);
            }
            state.add_bill(bills[i]);
            proof {
                let next = bills@.subrange(0, i + 1);
                assert(next == bills@.subrange(0, i as int).push(bills@[i as int]));
                lemma_push_contains(bills@.subrange(0, i as int), bills@[i as int]);
                assert(state.bill_set() =~= Set::new(|b: Bill| next.contains(b)));
            }
            i = i + 1;
        }
        assert(bills@.subrange(0, i as int) =~= bills@);
        state
    }
}

impl PartialEq for State {
    fn eq(&self, other: &State) -> (r: bool) {
        let forward = all_in(&self.bills, &other.bills);
        let backward = all_in(&other.bills, &self.bills);
        proof {
            if forward && backward {
                assert(self.bill_set() =~= other.bill_set());
            }
            if self.bill_set() == other.bill_set() {
                assert forall|x: Bill| self.bills@.contains(x) implies other.bills@.contains(x) by {
                    assert(self.bill_set().contains(x));
                }
                assert forall|x: Bill| other.bills@.contains(x) implies self.bills@.contains(x) by {
                    assert(other.bill_set().contains(x));
                }
            }
        }
        self.next_serial == other.next_serial && forward && backward
    }
}

impl vstd::std_specs::cmp::PartialEqSpecImpl for State {
    open spec fn obeys_eq_spec() -> bool {
        true
    }

    open spec fn eq_spec(&self, other: &State) -> bool {
        self.serial() == other.serial() && self.bill_set() == other.bill_set()
    }
}

/// Returns whether every bill of `a` is in `b`.
fn all_in(a: &Vec<Bill>, b: &Vec<Bill>) -> (r: bool)
    ensures
        r == (forall|x: Bill| a@.contains(x) ==> b@.contains(x)),
{
    let mut i: usize = 0;
    while i < a.len()
        invariant
            0 <= i <= a@.len(),
            forall|j: int| 0 <= j < i ==> b@.contains(#[trigger] a@[j]),
        decreases a.len() - i,
    {
        if !contains_bill(b, &a[i]) {
            return false;
        }
        i = i + 1;
    }
    true
}

/// Returns whether `bill` is in `bills`.
fn contains_bill(bills: &[Bill], bill: &Bill) -> (r: bool)
    ensures
        r == bills@.contains(*bill),
{
    let mut i: usize = 0;
    while i < bills.len()
        invariant
            0 <= i <= bills@.len(),
            forall|j: int| 0 <= j < i ==> bills@[j] != *bill,
        decreases bills.len() - i,
    {
        if bills[i] == *bill {
            return true;
        }
        i = i + 1;
    }
    false
}

/// Returns the total amount of the bills, exactly: a `u128` holds any sum of `u64` amounts that
/// a slice can hold.
fn total_amount(bills: &[Bill]) -> (r: u128)
    ensures
        r == total(bills@),
{
    let n = bills.len();
    let mut sum: u128 = 0;
    let mut i: usize = 0;
    while i < n
        invariant
            0 <= i <= n,
            n == bills@.len(),
            sum == total(bills@.subrange(0, i as int)),
            sum <= i * (u64::MAX as int),
        decreases n - i,
    {
        assert(bills@.subrange(0, i + 1).drop_last() =~= bills@.subrange(0, i as int));
        assert((i + 1) * (u64::MAX as int) <= (usize::MAX as int) * (u64::MAX as int)) by (nonlinear_arith)
            requires
                i + 1 <= usize::MAX,
        ;
        assert(i * (u64::MAX as int) + bills@[i as int].amount <= (i + 1) * (u64::MAX as int)) by (nonlinear_arith)
            requires
                bills@[i as int].amount <= u64::MAX,
        ;
        sum = sum + bills[i].amount as u128;
        i = i + 1;
    }
    assert(bills@.subrange(0, i as int) =~= bills@);
    sum
}

/// The cash system.
pub struct DigitalCashSystem;

impl DigitalCashSystem {
    /// Returns the state after `t`. A mint of a positive amount creates a bill with the next
    /// serial number; a valid transfer takes the spent bills out of circulation and puts the new
    /// ones in; anything else changes nothing.
    #[verifier::spinoff_prover]
    #[verifier::rlimit(40)]
    pub fn next_state(starting_state: &State, t: &CashTransaction) -> (r: State)
        ensures
            match *t {
                CashTransaction::Mint { minter, amount } => if amount > 0
                    && starting_state.serial() < u64::MAX {
                    r.bill_set() == starting_state.bill_set().insert(
                        Bill { owner: minter, amount, serial: starting_state.serial() },
                    ) && r.serial() == starting_state.serial() + 1
                } else {
                    r.bill_set() == starting_state.bill_set() && r.serial() == starting_state.serial()
                },
                CashTransaction::Transfer { spends, receives } => if transfer_valid(
                    starting_state.bill_set(),
                    starting_state.serial(),
                    spends@,
                    receives@,
                ) {
                    r.bill_set() == starting_state.bill_set().difference(
                        Set::new(|b: Bill| spends@.contains(b)),
                    ).union(Set::new(|b: Bill| receives@.contains(b))) && r.serial()
                        == starting_state.serial() + receives@.len()
                } else {
                    r.bill_set() == starting_state.bill_set() && r.serial() == starting_state.serial()
                },
            },
    {
        let mut kept: Vec<Bill> = Vec::new();
        let mut i: usize = 0;
        while i < starting_state.bills.len()
            invariant
                0 <= i <= starting_state.bills@.len(),
                kept@ == starting_state.bills@.subrange(0, i as int),
            decreases starting_state.bills.len() - i,
        {
            kept.push(starting_state.bills[i]);
            i = i + 1;
        }
        assert(kept@ =~= starting_state.bills@);
        let unchanged = State { bills: kept, next_serial: starting_state.next_serial };
        assert(unchanged.bill_set() =~= starting_state.bill_set());
        match t {
            CashTransaction::Mint { minter, amount } => {
                if *amount == 0 || starting_state.next_serial == u64::MAX {
                    return unchanged;
                }
                let mut r = unchanged;
                r.add_bill(Bill { owner: *minter, amount: *amount, serial: starting_state.next_serial });
                r
            },
            CashTransaction::Transfer { spends, receives } => {
                if !Self::transfer_is_valid(starting_state, spends, receives) {
                    return unchanged;
                }
                let mut bills: Vec<Bill> = Vec::new();
                let mut k: usize = 0;
                while k < starting_state.bills.len()
                    invariant
                        0 <= k <= starting_state.bills@.len(),
                        forall|b: Bill| bills@.contains(b) <==> (starting_state.bills@.subrange(0, k as int).contains(b) && !spends@.contains(b)),
                    decreases starting_state.bills.len() - k,
                {
                    let b = starting_state.bills[k];
                    proof {
                        lemma_push_contains(bills@, b);
                        lemma_push_contains(starting_state.bills@.subrange(0, k as int), b);
                    }
                    if !contains_bill(spends.as_slice(), &b) {
                        bills.push(b);
                    }
                    proof {
                        let next = starting_state.bills@.subrange(0, k + 1);
                        assert(next == starting_state.bills@.subrange(0, k as int).push(b));
                        assert forall|x: Bill| bills@.contains(x) <==> (next.contains(x) && !spends@.contains(x)) by {
                            if next.contains(x) && x != b {
                                let m = choose|m: int| 0 <= m < next.len() && next[m] == x;
                                assert(starting_state.bills@.subrange(0, k as int)[m] == x);
                            }
                        }
                    }
                    k = k + 1;
                }
                assert(starting_state.bills@.subrange(0, k as int) =~= starting_state.bills@);
                let ghost before = bills@;
                let mut j: usize = 0;
                while j < receives.len()
                    invariant
                        0 <= j <= receives@.len(),
                        forall|b: Bill| #[trigger] bills@.contains(b) <==> (before.contains(b) || receives@.subrange(0, j as int).contains(b)),
                    decreases receives.len() - j,
                {
                    let b = receives[j];
                    let ghost old_bills = bills@;
                    assert(forall|x: Bill| #[trigger] old_bills.contains(x) <==> (before.contains(x) || receives@.subrange(0, j as int).contains(x)));
                    bills.push(b);
                    proof {
                        let next = receives@.subrange(0, j + 1);
                        assert(next == receives@.subrange(0, j as int).push(b));
                        assert(bills@ == old_bills.push(b));
                        lemma_push_contains(old_bills, b);
                        lemma_push_contains(receives@.subrange(0, j as int), b);
                        assert forall|x: Bill| bills@.contains(x) <==> (before.contains(x) || next.contains(x)) by {
                            assert(old_bills.push(b).contains(x) <==> (old_bills.contains(x) || x == b));
                            assert(receives@.subrange(0, j as int).push(b).contains(x) <==> (
                                receives@.subrange(0, j as int).contains(x) || x == b));
                            assert(old_bills.contains(x) <==> (before.contains(x) || receives@.subrange(0, j as int).contains(x)));
                            assert(bills@.contains(x) == old_bills.push(b).contains(x));
                            assert(next.contains(x) == receives@.subrange(0, j as int).push(b).contains(x));
                        }
                    }
                    j = j + 1;
                }
                assert(receives@.subrange(0, j as int) =~= receives@);
                let r = State { bills, next_serial: starting_state.next_serial + receives.len() as u64 };
                proof {
                    let spent = Set::new(|b: Bill| spends@.contains(b));
                    let received = Set::new(|b: Bill| receives@.contains(b));
                    assert forall|x: Bill| r.bill_set().contains(x) == starting_state.bill_set().difference(spent).union(received).contains(x) by {
                        assert(r.bill_set().contains(x) == r.bills@.contains(x));
                        assert(starting_state.bill_set().contains(x) == starting_state.bills@.contains(x));
                        assert(spent.contains(x) == spends@.contains(x));
                        assert(received.contains(x) == receives@.contains(x));
                    }
                    assert(r.bill_set() =~= starting_state.bill_set().difference(spent).union(received));
                }
                r
            },
        }
    }

    /// Returns whether the transfer is valid from `state`.
    fn transfer_is_valid(state: &State, spends: &Vec<Bill>, receives: &Vec<Bill>) -> (r: bool)
        ensures
            r == transfer_valid(state.bill_set(), state.serial(), spends@, receives@),
    {
        if spends.len() == 0 || receives.len() == 0 {
            return false;
        }
        let mut i: usize = 0;
        while i < spends.len()
            invariant
                0 <= i <= spends@.len(),
                forall|a: int| 0 <= a < i ==> state.bill_set().contains(#[trigger] spends@[a]),
                forall|a: int, b: int| 0 <= a < b < i ==> spends@[a] != spends@[b],
            decreases spends.len() - i,
        {
            if !contains_bill(state.bills.as_slice(), &spends[i]) {
                return false;
            }
            let mut k: usize = 0;
            while k < i
                invariant
                    0 <= k <= i < spends@.len(),
                    forall|a: int| 0 <= a < k ==> spends@[a] != spends@[i as int],
                decreases i - k,
            {
                if spends[k] == spends[i] {
                    return false;
                }
                k = k + 1;
            }
            i = i + 1;
        }
        if state.next_serial as u128 + receives.len() as u128 > u64::MAX as u128 {
            return false;
        }
        let mut j: usize = 0;
        while j < receives.len()
            invariant
                0 <= j <= receives@.len(),
                state.serial() + receives@.len() <= u64::MAX,
                forall|a: int| 0 <= a < j ==> (#[trigger] receives@[a]).amount > 0 && receives@[a].serial == state.serial() + a,
            decreases receives.len() - j,
        {
            if receives[j].amount == 0 || receives[j].serial != state.next_serial + j as u64 {
                return false;
            }
            j = j + 1;
        }
        total_amount(receives.as_slice()) <= total_amount(spends.as_slice())
    }
}

} // verus!
