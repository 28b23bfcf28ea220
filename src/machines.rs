//! Small state machines: light switches, clothes that wear out, and a running sum and product
//! that blocks can carry.
use vstd::prelude::*;
use crate::state_machine::{Encode, StateMachine, Transaction};

verus! {

/// A single light switch; the state says whether it is on.
pub struct LightSwitch;

impl StateMachine for LightSwitch {
    type State = bool;
    type Transition = ();

    open spec fn next(s: bool, t: ()) -> bool {
        !s
    }

    /// Toggles the switch.
    fn next_state(starting_state: &bool, t: &()) -> (r: bool) {
        !*starting_state
    }
}

/// A bulb on a single switch; the field says whether it is on.
#[derive(Clone, Copy, Debug, PartialEq, Eq)]
pub struct OneBulbOneSwitch(pub bool);

impl OneBulbOneSwitch {
    /// Returns the bulb after the switch is toggled.
    pub fn next_state(&self, t: &()) -> (r: Self)
        ensures
            r.0 == !self.0,
    {
        OneBulbOneSwitch(!self.0)
    }
}

/// Two switches with one weird property: whenever the first goes off, the second goes off too.
pub struct WeirdSwitchMachine;

/// The state of the two switches.
#[derive(Clone, Copy, Debug, PartialEq, Eq)]
pub struct TwoSwitches {
    pub first_switch: bool,
    pub second_switch: bool,
}

/// Which switch is toggled.
#[derive(Clone, Copy, Debug, PartialEq, Eq)]
pub enum Toggle {
    FirstSwitch,
    SecondSwitch,
}

impl StateMachine for WeirdSwitchMachine {
    type State = TwoSwitches;
    type Transition = Toggle;

    open spec fn next(s: TwoSwitches, t: Toggle) -> TwoSwitches {
        match t {
            Toggle::FirstSwitch => if s.first_switch {
                TwoSwitches { first_switch: false, second_switch: false }
            } else {
                TwoSwitches { first_switch: true, second_switch: s.second_switch }
            },
            Toggle::SecondSwitch => TwoSwitches {
                first_switch: s.first_switch,
                second_switch: !s.second_switch,
            },
        }
    }

    fn next_state(starting_state: &TwoSwitches, t: &Toggle) -> (r: TwoSwitches) {
        match t {
            Toggle::FirstSwitch => if starting_state.first_switch {
                TwoSwitches { first_switch: false, second_switch: false }
            } else {
                TwoSwitches { first_switch: true, second_switch: starting_state.second_switch }
            },
            Toggle::SecondSwitch => TwoSwitches {
                first_switch: starting_state.first_switch,
                second_switch: !starting_state.second_switch,
            },
        }
    }
}

/// A piece of clothing and the life it has left; it is tattered once that life is spent.
#[derive(Clone, Copy, Debug, PartialEq, Eq)]
pub enum Clothes {
    Clean(u64),
    Dirty(u64),
    Wet(u64),
    Tattered,
}

/// What can be done to clothes. Each action costs one unit of life.
#[derive(Clone, Copy, Debug, PartialEq, Eq)]
pub enum ClothesAction {
    Wear,
    Wash,
    Dry,
}

/// Clothes that are worn, washed and dried until they are tattered.
pub struct ClothesMachine;

/// The clothes after an action, given their life after it: wearing dirties, washing wets, drying
/// turns wet clothes clean and leaves other clothes as they were.
pub open spec fn clothes_after(s: Clothes, t: ClothesAction, life: u64) -> Clothes {
    match t {
        ClothesAction::Wear => Clothes::Dirty(life),
        ClothesAction::Wash => Clothes::Wet(life),
        ClothesAction::Dry => match s {
            Clothes::Dirty(_) => Clothes::Dirty(life),
            _ => Clothes::Clean(life),
        },
    }
}

impl StateMachine for ClothesMachine {
    type State = Clothes;
    type Transition = ClothesAction;

    open spec fn next(s: Clothes, t: ClothesAction) -> Clothes {
        match s {
            Clothes::Tattered => Clothes::Tattered,
            Clothes::Clean(life) | Clothes::Dirty(life) | Clothes::Wet(life) => if life <= 1 {
                Clothes::Tattered
            } else {
                clothes_after(s, t, (life - 1) as u64)
            },
        }
    }

    fn next_state(starting_state: &Clothes, t: &ClothesAction) -> (r: Clothes) {
        let life = match starting_state {
            Clothes::Tattered => {
                return Clothes::Tattered;
            },
            Clothes::Clean(life) | Clothes::Dirty(life) | Clothes::Wet(life) => *life,
        };
        if life <= 1 {
            return Clothes::Tattered;
        }
        let left = life - 1;
        match t {
            ClothesAction::Wear => Clothes::Dirty(left),
            ClothesAction::Wash => Clothes::Wet(left),
            ClothesAction::Dry => match starting_state {
                Clothes::Dirty(_) => Clothes::Dirty(left),
                _ => Clothes::Clean(left),
            },
        }
    }
}

impl Clothes {
    /// Returns the clothes after `t`.
    pub fn next_state(&self, t: &ClothesAction) -> (r: Clothes)
        ensures
            r == ClothesMachine::next(*self, *t),
    {
        ClothesMachine::next_state(self, t)
    }
}

/// A running sum and product of numbers; the product starts at one, its identity.
pub struct SumAndProduct;

/// The sum and the product so far.
#[derive(Clone, Copy, Debug, PartialEq, Eq)]
pub struct Totals {
    pub sum: u64,
    pub product: u64,
}

/// Add a number to the sum, or multiply the product by one.
#[derive(Clone, Copy, Debug, PartialEq, Eq)]
pub enum Arithmetic {
    Add(u64),
    Multiply(u64),
}

impl Totals {
    /// The totals before any number: a sum of zero and a product of one.
    pub fn identity() -> (r: Totals)
        ensures
            r == (Totals { sum: 0, product: 1 }),
    {
        Totals { sum: 0, product: 1 }
    }
}

impl StateMachine for SumAndProduct {
    type State = Totals;
    type Transition = Arithmetic;

    /// A step that would leave `u64` is invalid and changes nothing.
    open spec fn next(s: Totals, t: Arithmetic) -> Totals {
        match t {
            Arithmetic::Add(n) => if s.sum + n <= u64::MAX {
                Totals { sum: (s.sum + n) as u64, ..s }
            } else {
                s
            },
            Arithmetic::Multiply(n) => if s.product * n <= u64::MAX {
                Totals { product: (s.product * n) as u64, ..s }
            } else {
                s
            },
        }
    }

    fn next_state(starting_state: &Totals, t: &Arithmetic) -> (r: Totals) {
        match t {
            Arithmetic::Add(n) => match starting_state.sum.checked_add(*n) {
                Some(sum) => Totals { sum, product: starting_state.product },
                None => *starting_state,
            },
            Arithmetic::Multiply(n) => match starting_state.product.checked_mul(*n) {
                Some(product) => Totals { sum: starting_state.sum, product },
                None => *starting_state,
            },
        }
    }
}

impl Encode for Totals {
    open spec fn words(self) -> Seq<u64> {
        seq![self.sum, self.product]
    }

    fn encode(&self) -> (r: Vec<u64>) {
        let v = vec![self.sum, self.product];
        assert(v@ =~= self.words());
        v
    }
}

impl Encode for Arithmetic {
    open spec fn words(self) -> Seq<u64> {
        match self {
            Arithmetic::Add(n) => seq![0, n],
            Arithmetic::Multiply(n) => seq![1, n],
        }
    }

    fn encode(&self) -> (r: Vec<u64>) {
        let v = match self {
            Arithmetic::Add(n) => vec![0, *n],
            Arithmetic::Multiply(n) => vec![1, *n],
        };
        assert(v@ =~= self.words());
        v
    }
}

impl Transaction for Arithmetic {
    fn same(&self, other: &Self) -> (r: bool) {
        match (self, other) {
            (Arithmetic::Add(a), Arithmetic::Add(b)) => *a == *b,
            (Arithmetic::Multiply(a), Arithmetic::Multiply(b)) => *a == *b,
            _ => false,
        }
    }
}

} // verus!
