//! The state-machine abstraction that blocks execute, and the encodings that hashing needs.
use vstd::prelude::*;

verus! {

/// A pure transition function: a state and a transition give the next state. Invalid
/// transitions leave the state as it was rather than fail.
pub trait StateMachine {
    /// The states of the machine.
    type State;

    /// The transitions of the machine.
    type Transition;

    /// The state after `t` from `s`.
    spec fn next(s: Self::State, t: Self::Transition) -> Self::State;

    /// Returns the state after `t` from `starting_state`.
    fn next_state(starting_state: &Self::State, t: &Self::Transition) -> (r: Self::State)
        ensures
            r == Self::next(*starting_state, *t),
    ;
}

/// A value with a canonical encoding as words, from which its hash is taken.
pub trait Encode {
    /// The canonical encoding.
    spec fn words(self) -> Seq<u64>;

    /// Returns the canonical encoding.
    fn encode(&self) -> (r: Vec<u64>)
        ensures
            r@ == self.words(),
    ;
}

/// A transition that blocks and pools can carry: copied freely and compared.
pub trait Transaction: Encode + Copy + Sized {
    /// Whether two transitions are the same.
    fn same(&self, other: &Self) -> (r: bool)
        ensures
            r == (*self == *other),
    ;
}

impl Encode for u64 {
    open spec fn words(self) -> Seq<u64> {
        seq![self]
    }

    fn encode(&self) -> (r: Vec<u64>) {
        let v = vec![*self];
        assert(v@ =~= seq![*self]);
        v
    }
}

impl Transaction for u64 {
    fn same(&self, other: &Self) -> (r: bool) {
        *self == *other
    }
}

/// The state after executing every transition of `body` in order, from `pre`.
pub open spec fn run<SM: StateMachine>(pre: SM::State, body: Seq<SM::Transition>) -> SM::State
    decreases body.len(),
{
    if body.len() == 0 {
        pre
    } else {
        SM::next(run::<SM>(pre, body.drop_last()), body.last())
    }
}

/// Returns the state after executing every transition of `body` in order, from `pre`.
pub fn execute<SM: StateMachine>(pre: &SM::State, body: &[SM::Transition]) -> (r: SM::State)
    where
        SM::State: Copy,
    ensures
        r == run::<SM>(*pre, body@),
{
    let mut state = *pre;
    let mut i: usize = 0;
    assert(body@.subrange(0, 0) =~= Seq::<SM::Transition>::empty());
    while i < body.len()
        invariant
            0 <= i <= body@.len(),
            state == run::<SM>(*pre, body@.subrange(0, i as int)),
        decreases body.len() - i,
    {
        assert(body@.subrange(0, i + 1).drop_last() =~= body@.subrange(0, i as int));
        state = SM::next_state(&state, &body[i]);
        i = i + 1;
    }
    assert(body@.subrange(0, i as int) =~= body@);
    state
}

} // verus!
