//! Transaction pools: where transitions wait to be included in a block.
use vstd::prelude::*;
use crate::state_machine::Transaction;
use std::collections::VecDeque;

verus! {

/// `s` with every occurrence of `t` taken out.
pub open spec fn without<T>(s: Seq<T>, t: T) -> Seq<T>
    decreases s.len(),
{
    if s.len() == 0 {
        s
    } else if s.last() == t {
        without(s.drop_last(), t)
    } else {
        without(s.drop_last(), t).push(s.last())
    }
}

/// Returns `pending` with every occurrence of `t` taken out.
fn remove_all<T: Transaction>(pending: &Vec<T>, t: &T) -> (r: Vec<T>)
    ensures
        r@ == without(pending@, *t),
{
    let mut kept: Vec<T> = Vec::new();
    let mut i: usize = 0;
    while i < pending.len()
        invariant
            0 <= i <= pending@.len(),
            kept@ == without(pending@.subrange(0, i as int), *t),
        decreases pending.len() - i,
    {
        assert(pending@.subrange(0, i + 1).drop_last() =~= pending@.subrange(0, i as int));
        if !pending[i].same(t) {
            kept.push(pending[i]);
        }
        i = i + 1;
    }
    assert(pending@.subrange(0, i as int) =~= pending@);
    kept
}

/// Returns whether `t` is in `pending`.
fn holds<T: Transaction>(pending: &Vec<T>, t: &T) -> (r: bool)
    ensures
        r == pending@.contains(*t),
{
    let mut i: usize = 0;
    while i < pending.len()
        invariant
            0 <= i <= pending@.len(),
            forall|j: int| 0 <= j < i ==> pending@[j] != *t,
        decreases pending.len() - i,
    {
        if pending[i].same(t) {
            return true;
        }
        i = i + 1;
    }
    false
}

/// Returns `queue` with every occurrence of `t` taken out.
fn remove_all_queued<T: Transaction>(queue: &VecDeque<T>, t: &T) -> (r: VecDeque<T>)
    ensures
        r@ == without(queue@, *t),
{
    let mut kept: VecDeque<T> = VecDeque::new();
    let mut i: usize = 0;
    while i < queue.len()
        invariant
            0 <= i <= queue@.len(),
            kept@ == without(queue@.subrange(0, i as int), *t),
        decreases queue.len() - i,
    {
        assert(queue@.subrange(0, i + 1).drop_last() =~= queue@.subrange(0, i as int));
        let x = queue[i];
        if !x.same(t) {
            kept.push_back(x);
        }
        i = i + 1;
    }
    assert(queue@.subrange(0, i as int) =~= queue@);
    kept
}

/// Returns whether `t` is in `queue`.
fn queued<T: Transaction>(queue: &VecDeque<T>, t: &T) -> (r: bool)
    ensures
        r == queue@.contains(*t),
{
    let mut i: usize = 0;
    while i < queue.len()
        invariant
            0 <= i <= queue@.len(),
            forall|j: int| 0 <= j < i ==> queue@[j] != *t,
        decreases queue.len() - i,
    {
        if queue[i].same(t) {
            return true;
        }
        i = i + 1;
    }
    false
}

/// A queue of pending transitions.
pub trait TransactionPool<T: Transaction> {
    /// The transitions waiting, oldest first.
    spec fn pending(&self) -> Seq<T>;

    /// Whether the pool's policy accepts `t`.
    spec fn admits(&self, t: T) -> bool;

    /// Adds `t` where the policy accepts it; returns whether it did.
    fn try_insert(&mut self, t: T) -> (r: bool)
        ensures
            r == old(self).admits(t),
            r ==> final(self).pending() == old(self).pending().push(t),
            !r ==> final(self).pending() == old(self).pending(),
            forall|x: T| final(self).admits(x) == old(self).admits(x),
    ;

    /// Takes every occurrence of `t` out of the pool.
    fn remove(&mut self, t: T)
        ensures
            final(self).pending() == without(old(self).pending(), t),
            forall|x: T| final(self).admits(x) == old(self).admits(x),
    ;

    /// Returns the number of transitions waiting.
    fn size(&self) -> (r: usize)
        ensures
            r == self.pending().len(),
    ;

    /// Returns whether `t` is waiting.
    fn contains(&self, t: T) -> (r: bool)
        ensures
            r == self.pending().contains(t),
    ;

    /// Takes out and returns the next transition by the pool's own priority; `None` when the
    /// pool is empty.
    fn next_from_pool(&mut self) -> (r: Option<T>)
        ensures
            r is None <==> old(self).pending().len() == 0,
            r is None ==> final(self).pending() == old(self).pending(),
            r matches Some(t) ==> exists|i: int|
                0 <= i < old(self).pending().len() && old(self).pending()[i] == t
                    && final(self).pending() == old(self).pending().remove(i),
            forall|x: T| final(self).admits(x) == old(self).admits(x),
    ;
}

/// A first-in, first-out pool that accepts everything.
pub struct SimplePool<T> {
    queue: VecDeque<T>,
}

impl<T: Transaction> SimplePool<T> {
    /// Returns an empty pool.
    pub fn new() -> (r: Self)
        ensures
            r.pending().len() == 0,
            forall|t: T| r.admits(t),
    {
        SimplePool { queue: VecDeque::new() }
    }
}

impl<T: Transaction> TransactionPool<T> for SimplePool<T> {
    closed spec fn pending(&self) -> Seq<T> {
        self.queue@
    }

    closed spec fn admits(&self, t: T) -> bool {
        true
    }

    fn try_insert(&mut self, t: T) -> (r: bool) {
        self.queue.push_back(t);
        true
    }

    fn remove(&mut self, t: T) {
        self.queue = remove_all_queued(&self.queue, &t);
    }

    fn size(&self) -> (r: usize) {
        self.queue.len()
    }

    fn contains(&self, t: T) -> (r: bool) {
        queued(&self.queue, &t)
    }

    /// Takes out the oldest transition.
    fn next_from_pool(&mut self) -> (r: Option<T>)
        ensures
            r matches Some(t) ==> t == old(self).pending()[0],
    {
        let ghost before = self.queue@;
        let r = self.queue.pop_front();
        proof {
            if r is Some {
                assert(self.queue@ =~= before.remove(0));
            }
        }
        r
    }
}

/// Gives each transition a priority.
pub trait Prioritizer<T> {
    /// The priority of `t`.
    spec fn priority_of(&self, t: T) -> u64;

    /// Returns the priority of `t`.
    fn priority(&self, t: &T) -> (r: u64)
        ensures
            r == self.priority_of(*t),
    ;
}

/// Flags the transitions that a pool must refuse.
pub trait Censor<T> {
    /// Whether `t` is flagged.
    spec fn flags(&self, t: T) -> bool;

    /// Returns whether `t` is flagged.
    fn might_be_terrorist(&self, t: &T) -> (r: bool)
        ensures
            r == self.flags(*t),
    ;
}

/// Ranks a numeric transition by its value.
pub struct ValuePriority;

impl Prioritizer<u64> for ValuePriority {
    open spec fn priority_of(&self, t: u64) -> u64 {
        t
    }

    fn priority(&self, t: &u64) -> (r: u64) {
        *t
    }
}

/// Flags the numeric transitions on a list.
pub struct DenyList {
    pub denied: Vec<u64>,
}

impl Censor<u64> for DenyList {
    open spec fn flags(&self, t: u64) -> bool {
        self.denied@.contains(t)
    }

    fn might_be_terrorist(&self, t: &u64) -> (r: bool) {
        holds(&self.denied, t)
    }
}

/// A pool that hands out the highest priority first (the oldest among equals) and refuses what
/// falls below a minimum priority.
pub struct PriorityPool<T, P: Prioritizer<T>> {
    prioritizer: P,
    minimum_priority: u64,
    queue: Vec<T>,
}

impl<T: Transaction, P: Prioritizer<T>> PriorityPool<T, P> {
    /// Returns an empty pool with the given prioritizer and minimum priority.
    pub fn new(prioritizer: P, minimum_priority: u64) -> (r: Self)
        ensures
            r.pending().len() == 0,
            forall|t: T| r.admits(t) == (prioritizer.priority_of(t) >= minimum_priority),
    {
        PriorityPool { prioritizer, minimum_priority, queue: Vec::new() }
    }

    /// The priority of `t` in this pool.
    pub closed spec fn priority_in(&self, t: T) -> u64 {
        self.prioritizer.priority_of(t)
    }
}

impl<T: Transaction, P: Prioritizer<T>> TransactionPool<T> for PriorityPool<T, P> {
    closed spec fn pending(&self) -> Seq<T> {
        self.queue@
    }

    closed spec fn admits(&self, t: T) -> bool {
        self.prioritizer.priority_of(t) >= self.minimum_priority
    }

    fn try_insert(&mut self, t: T) -> (r: bool) {
        if self.prioritizer.priority(&t) < self.minimum_priority {
            return false;
        }
        self.queue.push(t);
        true
    }

    fn remove(&mut self, t: T) {
        self.queue = remove_all(&self.queue, &t);
    }

    fn size(&self) -> (r: usize) {
        self.queue.len()
    }

    fn contains(&self, t: T) -> (r: bool) {
        holds(&self.queue, &t)
    }

    /// Takes out the transition of highest priority, the oldest among equals.
    fn next_from_pool(&mut self) -> (r: Option<T>)
        ensures
            r matches Some(t) ==> forall|j: int|
                0 <= j < old(self).pending().len() ==> old(self).priority_in(
                    #[trigger] old(self).pending()[j],
                ) <= old(self).priority_in(t),
    {
        if self.queue.len() == 0 {
            return None;
        }
        let mut best: usize = 0;
        let mut best_priority = self.prioritizer.priority(&self.queue[0]);
        let mut i: usize = 1;
        while i < self.queue.len()
            invariant
                1 <= i <= self.queue@.len(),
                0 <= best < i,
                best_priority == self.priority_in(self.queue@[best as int]),
                forall|j: int|
                    0 <= j < i ==> self.priority_in(#[trigger] self.queue@[j]) <= best_priority,
            decreases self.queue.len() - i,
        {
            let p = self.prioritizer.priority(&self.queue[i]);
            if p > best_priority {
                best = i;
                best_priority = p;
            }
            i = i + 1;
        }
        let ghost before = self.queue@;
        let t = self.queue.remove(best);
        assert(before[best as int] == t && self.queue@ == before.remove(best as int));
        assert(self.pending() == before.remove(best as int) && before == old(self).pending());
        assert(exists|i: int|
            0 <= i < old(self).pending().len() && old(self).pending()[i] == t
                && self.pending() == old(self).pending().remove(i));
        Some(t)
    }
}

/// A first-in, first-out pool that refuses every transition its censor flags.
pub struct CensoringPool<T, P: Censor<T>> {
    censor: P,
    queue: Vec<T>,
}

impl<T: Transaction, P: Censor<T>> CensoringPool<T, P> {
    /// Returns an empty pool with the given censor.
    pub fn new(censor: P) -> (r: Self)
        ensures
            r.pending().len() == 0,
            forall|t: T| r.admits(t) == !censor.flags(t),
    {
        CensoringPool { censor, queue: Vec::new() }
    }
}

impl<T: Transaction, P: Censor<T>> TransactionPool<T> for CensoringPool<T, P> {
    closed spec fn pending(&self) -> Seq<T> {
        self.queue@
    }

    closed spec fn admits(&self, t: T) -> bool {
        !self.censor.flags(t)
    }

    fn try_insert(&mut self, t: T) -> (r: bool) {
        if self.censor.might_be_terrorist(&t) {
            return false;
        }
        self.queue.push(t);
        true
    }

    fn remove(&mut self, t: T) {
        self.queue = remove_all(&self.queue, &t);
    }

    fn size(&self) -> (r: usize) {
        self.queue.len()
    }

    fn contains(&self, t: T) -> (r: bool) {
        holds(&self.queue, &t)
    }

    /// Takes out the oldest transition.
    fn next_from_pool(&mut self) -> (r: Option<T>)
        ensures
            r matches Some(t) ==> t == old(self).pending()[0],
    {
        if self.queue.len() == 0 {
            return None;
        }
        let ghost before = self.queue@;
        let t = self.queue.remove(0);
        assert(before[0] == t && self.queue@ == before.remove(0));
        assert(self.pending() == before.remove(0) && before == old(self).pending());
        assert(exists|i: int|
            0 <= i < old(self).pending().len() && old(self).pending()[i] == t
                && self.pending() == old(self).pending().remove(i));
        Some(t)
    }
}

} // verus!
