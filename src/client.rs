//! A full client: owns the block database, the state database, the leaf set and a transaction
//! pool, and imports, authors, ranks and finalizes blocks.
use vstd::prelude::*;
use crate::block::{
    Block, block_accepts, extrinsics_root_of, partial_child, partial_child_spec, state_root,
    state_root_of,
};
use crate::consensus::{Consensus, ConsensusAuthority, Header};
use crate::pool::{TransactionPool, without};
use crate::state_machine::{Encode, StateMachine, Transaction, execute, run};

verus! {

/// The largest weight, in absolute value, that a fork-choice rule gives a header.
pub const MAX_WEIGHT: i128 = 0x1_0000_0000_0000_0000;

/// The most transitions that an automatically authored block takes from the pool.
pub const MAX_BLOCK_TRANSACTIONS: usize = 100;

/// A fork-choice rule for the client: each header weighs something, a chain weighs the sum of
/// its headers, and the best block is the leaf whose chain weighs most.
pub trait ForkChoice<D> {
    /// The weight of a header.
    spec fn weight_of(&self, header: Header<D>) -> int;

    /// Returns the weight of a header.
    fn weight(&self, header: &Header<D>) -> (r: i128)
        ensures
            r == self.weight_of(*header),
            -MAX_WEIGHT <= r <= MAX_WEIGHT,
    ;
}

/// The chain with the most blocks is the best.
pub struct LongestChain;

impl<D> ForkChoice<D> for LongestChain {
    open spec fn weight_of(&self, header: Header<D>) -> int {
        1
    }

    fn weight(&self, header: &Header<D>) -> (r: i128) {
        1
    }
}

/// The chain with the most accumulated work is the best, where a header's work is the
/// threshold minus its hash.
pub struct HeaviestChain {
    pub threshold: u64,
}

impl ForkChoice<u64> for HeaviestChain {
    open spec fn weight_of(&self, header: Header<u64>) -> int {
        self.threshold as int - header.spec_hash() as int
    }

    fn weight(&self, header: &Header<u64>) -> (r: i128) {
        self.threshold as i128 - header.hash() as i128
    }
}

/// The chain with the most blocks signed by Alice is the best.
pub struct MostAliceSigs;

impl ForkChoice<ConsensusAuthority> for MostAliceSigs {
    open spec fn weight_of(&self, header: Header<ConsensusAuthority>) -> int {
        if header.consensus_digest == ConsensusAuthority::Alice {
            1
        } else {
            0
        }
    }

    fn weight(&self, header: &Header<ConsensusAuthority>) -> (r: i128) {
        if header.consensus_digest == ConsensusAuthority::Alice {
            1
        } else {
            0
        }
    }
}

/// `pending` with every transition of `body` taken out.
pub open spec fn without_all<T>(pending: Seq<T>, body: Seq<T>) -> Seq<T>
    decreases body.len(),
{
    if body.len() == 0 {
        pending
    } else {
        without(without_all(pending, body.drop_last()), body.last())
    }
}

/// A client of the chain, generic over the consensus engine, the state machine, the fork-choice
/// rule and the transaction pool.
pub struct FullClient<C: Consensus, SM: StateMachine, FC, P> {
    consensus_engine: C,
    fork_choice: FC,
    transaction_pool: P,
    /// The imported blocks, genesis first; a block stands after its parent.
    blocks: Vec<Block<C, SM>>,
    /// The hash of each block's header.
    hashes: Vec<u64>,
    /// The index of each block's parent (genesis names itself).
    parents: Vec<usize>,
    /// The state after each block.
    states: Vec<SM::State>,
    /// Whether each block is a leaf: no known block has it as parent.
    leaves: Vec<bool>,
    /// Whether each block is final.
    finalized: Vec<bool>,
    /// The fork-choice weight of each block's chain, genesis included.
    scores: Vec<i128>,
}

impl<C: Consensus, SM: StateMachine, FC: ForkChoice<C::Digest>, P: TransactionPool<
    SM::Transition,
>> FullClient<C, SM, FC, P> where SM::State: Encode + Copy, SM::Transition: Transaction {
    /// Whether the client's databases agree with each other.
    pub closed spec fn well_formed(&self) -> bool {
        let n = self.blocks@.len();
        &&& n >= 1
        &&& self.hashes@.len() == n && self.parents@.len() == n && self.states@.len() == n
        &&& self.leaves@.len() == n && self.finalized@.len() == n && self.scores@.len() == n
        &&& self.consensus_engine.well_formed()
        &&& forall|i: int| 0 <= i < n ==> #[trigger] self.hashes@[i] == self.blocks@[i].header.spec_hash()
        &&& forall|i: int, j: int| 0 <= i < n && 0 <= j < n && i != j ==> self.hashes@[i] != self.hashes@[j]
        &&& forall|i: int| 0 <= i < n ==> self.blocks@[i].header.state_root == state_root_of(#[trigger] self.states@[i])
        &&& self.parents@[0] == 0
        &&& self.blocks@[0].header.height == 0
        &&& forall|i: int| 1 <= i < n ==> #[trigger] self.parents@[i] < i
        &&& forall|i: int| 1 <= i < n ==> self.blocks@[self.parents@[i] as int].header.links_to(#[trigger] self.blocks@[i].header)
        &&& forall|i: int| 1 <= i < n ==> #[trigger] self.states@[i] == run::<SM>(self.states@[self.parents@[i] as int], self.blocks@[i].body@)
        &&& forall|i: int| 0 <= i < n ==> (#[trigger] self.leaves@[i] <==> !exists|j: int| 1 <= j < n && #[trigger] self.parents@[j] == i)
        &&& forall|i: int| 0 <= i < n && #[trigger] self.finalized@[i] ==> self.finalized@[self.parents@[i] as int]
        &&& self.scores@[0] == self.fork_choice.weight_of(self.blocks@[0].header)
        &&& forall|i: int| 1 <= i < n ==> #[trigger] self.scores@[i] == self.scores@[self.parents@[i] as int] + self.fork_choice.weight_of(self.blocks@[i].header)
        &&& forall|i: int| 0 <= i < n ==> -(i + 1) * MAX_WEIGHT <= #[trigger] self.scores@[i] <= (i + 1) * MAX_WEIGHT
    }

    /// The number of blocks known.
    pub closed spec fn block_count(&self) -> nat {
        self.blocks@.len()
    }

    /// Whether a block with this hash is known.
    pub closed spec fn known(&self, h: u64) -> bool {
        self.hashes@.contains(h)
    }

    /// The index of the block with this hash.
    pub closed spec fn index_of(&self, h: u64) -> int {
        choose|i: int| 0 <= i < self.hashes@.len() && self.hashes@[i] == h
    }

    /// The known block with this hash.
    pub closed spec fn block_with_hash(&self, h: u64) -> Block<C, SM> {
        self.blocks@[self.index_of(h)]
    }

    /// The state after the known block with this hash.
    pub closed spec fn state_with_hash(&self, h: u64) -> SM::State {
        self.states@[self.index_of(h)]
    }

    /// The hashes of the known blocks that no known block has as parent.
    pub closed spec fn leaf_set(&self) -> Set<u64> {
        Set::new(|h: u64| exists|i: int| 0 <= i < self.hashes@.len() && self.hashes@[i] == h && self.leaves@[i])
    }

    /// Whether the known block with this hash is final.
    pub closed spec fn is_final(&self, h: u64) -> bool {
        self.known(h) && self.finalized@[self.index_of(h)]
    }

    /// The weight of the chain that ends in the known block with this hash.
    pub closed spec fn score_of(&self, h: u64) -> int {
        self.scores@[self.index_of(h)] as int
    }

    /// The transitions waiting in the pool.
    pub closed spec fn pool(&self) -> Seq<SM::Transition> {
        self.transaction_pool.pending()
    }

    /// Whether the pool's policy accepts `t`.
    pub closed spec fn pool_admits(&self, t: SM::Transition) -> bool {
        self.transaction_pool.admits(t)
    }

    /// The consensus engine.
    pub closed spec fn engine(&self) -> C {
        self.consensus_engine
    }

    /// Whether `block` passes every check of import: its hash is new, its parent is known, its
    /// header follows the parent's, the engine accepts it against the parent's digest, and its
    /// body commits to its extrinsics root and, executed on the parent's post state, to its
    /// state root.
    pub open spec fn importable(&self, block: Block<C, SM>) -> bool {
        let h = block.header.spec_hash();
        let p = block.header.parent;
        &&& !self.known(h)
        &&& self.known(p)
        &&& self.block_with_hash(p).header.links_to(block.header)
        &&& self.engine().valid(self.block_with_hash(p).header.consensus_digest, block.header)
        &&& block_accepts(self.block_with_hash(p).header, self.state_with_hash(p), block)
    }

    /// Whether every final block's parent is final too, so that finality covers every ancestor
    /// of a final block.
    pub open spec fn finality_closed(&self) -> bool {
        forall|h: u64|
            #[trigger] self.is_final(h) && self.block_with_hash(h).header.height > 0 ==> self.is_final(
                self.block_with_hash(h).header.parent,
            )
    }

    /// A well-formed client's finality covers every ancestor of a final block.
    pub proof fn lemma_finality_closed(&self)
        requires
            self.well_formed(),
        ensures
            self.finality_closed(),
    {
        assert forall|h: u64|
            #[trigger] self.is_final(h) && self.block_with_hash(h).header.height > 0 implies self.is_final(
            self.block_with_hash(h).header.parent,
        ) by {
            let i = self.index_of(h);
            self.lemma_index_of(i);
            if i == 0 {
                assert(self.blocks@[0].header.height == 0);
            } else {
                self.lemma_index_of(self.parents@[i] as int);
            }
        }
    }

    /// Whether the two clients agree on everything but the pool.
    spec fn same_chain(&self, other: &Self) -> bool {
        &&& self.blocks == other.blocks
        &&& self.hashes == other.hashes
        &&& self.parents == other.parents
        &&& self.states == other.states
        &&& self.leaves == other.leaves
        &&& self.finalized == other.finalized
        &&& self.scores == other.scores
        &&& self.consensus_engine == other.consensus_engine
        &&& self.fork_choice == other.fork_choice
    }

    proof fn lemma_same_chain(&self, other: &Self)
        requires
            self.same_chain(other),
        ensures
            self.block_count() == other.block_count(),
            forall|x: u64| #[trigger] self.known(x) == other.known(x),
            forall|x: u64| #[trigger] self.block_with_hash(x) == other.block_with_hash(x),
            forall|x: u64| #[trigger] self.state_with_hash(x) == other.state_with_hash(x),
            forall|x: u64| #[trigger] self.is_final(x) == other.is_final(x),
            forall|x: u64| #[trigger] self.score_of(x) == other.score_of(x),
            forall|b: Block<C, SM>| #[trigger] self.importable(b) == other.importable(b),
            self.leaf_set() == other.leaf_set(),
            self.engine() == other.engine(),
    {
        assert(self.leaf_set() =~= other.leaf_set());
    }

    proof fn lemma_index_of(&self, i: int)
        requires
            self.well_formed(),
            0 <= i < self.blocks@.len(),
        ensures
            self.known(self.hashes@[i]),
            self.index_of(self.hashes@[i]) == i,
    {
        assert(self.hashes@[i] == self.hashes@[i]);
        let h = self.hashes@[i];
        assert(0 <= i < self.hashes@.len() && self.hashes@[i] == h);
        let k = self.index_of(h);
        assert(0 <= k < self.hashes@.len() && self.hashes@[k] == h);
    }

    /// Returns the number of blocks known.
    pub fn num_blocks(&self) -> (r: usize)
        ensures
            r == self.block_count(),
    {
        self.blocks.len()
    }

    /// Returns the index of the block with this hash, if it is known.
    fn find(&self, h: u64) -> (r: Option<usize>)
        requires
            self.well_formed(),
        ensures
            r is None <==> !self.known(h),
            r matches Some(i) ==> i < self.blocks@.len() && self.hashes@[i as int] == h && self.index_of(h) == i,
    {
        let mut i: usize = 0;
        while i < self.hashes.len()
            invariant
                self.well_formed(),
                0 <= i <= self.hashes@.len(),
                forall|j: int| 0 <= j < i ==> self.hashes@[j] != h,
            decreases self.hashes.len() - i,
        {
            if self.hashes[i] == h {
                proof {
                    self.lemma_index_of(i as int);
                }
                return Some(i);
            }
            i = i + 1;
        }
        None
    }

    /// Returns a client that knows only the genesis block built on `genesis_state`, with an
    /// empty leaf set but for genesis.
    pub fn new(consensus_engine: C, fork_choice: FC, transaction_pool: P, genesis_state: SM::State) -> (r: Self)
        requires
            consensus_engine.well_formed(),
        ensures
            r.well_formed(),
            r.block_count() == 1,
            r.leaf_set() == set![Block::<C, SM>::genesis_spec_hash(genesis_state)],
            r.known(Block::<C, SM>::genesis_spec_hash(genesis_state)),
            r.block_with_hash(Block::<C, SM>::genesis_spec_hash(genesis_state)).header
                == Header::<C::Digest>::genesis_spec(state_root_of(genesis_state)),
            r.block_with_hash(Block::<C, SM>::genesis_spec_hash(genesis_state)).body@.len() == 0,
            r.state_with_hash(Block::<C, SM>::genesis_spec_hash(genesis_state)) == genesis_state,
            !r.is_final(Block::<C, SM>::genesis_spec_hash(genesis_state)),
            r.pool() == transaction_pool.pending(),
    {
        let genesis = Block::<C, SM>::genesis(&genesis_state);
        let h = genesis.header.hash();
        let score = fork_choice.weight(&genesis.header);
        let r = FullClient {
            consensus_engine,
            fork_choice,
            transaction_pool,
            blocks: vec![genesis],
            hashes: vec![h],
            parents: vec![0],
            states: vec![genesis_state],
            leaves: vec![true],
            finalized: vec![false],
            scores: vec![score],
        };
        proof {
            r.lemma_index_of(0);
            assert(r.leaf_set() =~= set![h]);
        }
        r
    }
}

impl<C: Consensus, SM: StateMachine, FC: ForkChoice<C::Digest>, P: TransactionPool<
    SM::Transition,
>> FullClient<C, SM, FC, P> where SM::State: Encode + Copy, SM::Transition: Transaction {
    /// Imports `block` where every check passes (see `importable`); otherwise leaves the client
    /// as it was. On success the block and its post state are stored, its parent leaves the leaf
    /// set and the block joins it, and its transitions leave the pool.
    #[verifier::rlimit(50)]
    pub fn import_block(&mut self, block: Block<C, SM>) -> (r: bool)
        requires
            old(self).well_formed(),
            old(self).block_count() < i64::MAX,
        ensures
            final(self).well_formed(),
            r == old(self).importable(block),
            !r ==> *final(self) == *old(self),
            r ==> final(self).block_count() == old(self).block_count() + 1,
            r ==> final(self).known(block.header.spec_hash()),
            r ==> final(self).block_with_hash(block.header.spec_hash()) == block,
            r ==> final(self).state_with_hash(block.header.spec_hash()) == run::<SM>(
                old(self).state_with_hash(block.header.parent),
                block.body@,
            ),
            r ==> final(self).leaf_set() == old(self).leaf_set().remove(block.header.parent).insert(
                block.header.spec_hash(),
            ),
            r ==> final(self).pool() == without_all(old(self).pool(), block.body@),
            r ==> forall|x: u64| #[trigger] old(self).known(x) ==> final(self).known(x)
                && final(self).block_with_hash(x) == old(self).block_with_hash(x)
                && final(self).is_final(x) == old(self).is_final(x),
            r ==> !final(self).is_final(block.header.spec_hash()),
            final(self).engine() == old(self).engine(),
            forall|t: SM::Transition| final(self).pool_admits(t) == old(self).pool_admits(t),
    {
        let ghost old_self = *self;
        let h = block.header.hash();
        if self.find(h).is_some() {
            return false;
        }
        let p = match self.find(block.header.parent) {
            Some(p) => p,
            None => {
                return false;
            },
        };
        let parent_header = self.blocks[p].header;
        if !parent_header.verify_child(&block.header) {
            return false;
        }
        if !self.consensus_engine.validate(&parent_header.consensus_digest, &block.header) {
            return false;
        }
        if extrinsics_root_of(block.body.as_slice()) != block.header.extrinsics_root {
            return false;
        }
        let post = execute::<SM>(&self.states[p], block.body.as_slice());
        if state_root(&post) != block.header.state_root {
            return false;
        }
        let n = self.blocks.len();
        let w = self.fork_choice.weight(&block.header);
        let parent_score = self.scores[p];
        proof {
            assert(-(p + 1) * MAX_WEIGHT <= parent_score <= (p + 1) * MAX_WEIGHT);
            assert(-(n as int) * MAX_WEIGHT <= parent_score <= (n as int) * MAX_WEIGHT) by (nonlinear_arith)
                requires
                    -(p + 1) * MAX_WEIGHT <= parent_score <= (p + 1) * MAX_WEIGHT,
                    p < n,
                    MAX_WEIGHT > 0,
            ;
            assert((n + 1) * MAX_WEIGHT <= 0x8000_0000_0000_0000 * MAX_WEIGHT) by (nonlinear_arith)
                requires
                    n < 0x7FFF_FFFF_FFFF_FFFF,
                    MAX_WEIGHT > 0,
            ;
        }
        let score = parent_score + w;
        let mut i: usize = 0;
        while i < block.body.len()
            invariant
                0 <= i <= block.body@.len(),
                self.transaction_pool.pending() == without_all(
                    old_self.transaction_pool.pending(),
                    block.body@.subrange(0, i as int),
                ),
                forall|t: SM::Transition| self.transaction_pool.admits(t) == old_self.transaction_pool.admits(t),
                self.blocks == old_self.blocks,
                self.hashes == old_self.hashes,
                self.parents == old_self.parents,
                self.states == old_self.states,
                self.leaves == old_self.leaves,
                self.finalized == old_self.finalized,
                self.scores == old_self.scores,
                self.consensus_engine == old_self.consensus_engine,
                self.fork_choice == old_self.fork_choice,
            decreases block.body.len() - i,
        {
            assert(block.body@.subrange(0, i + 1).drop_last() =~= block.body@.subrange(0, i as int));
            self.transaction_pool.remove(block.body[i]);
            i = i + 1;
        }
        assert(block.body@.subrange(0, i as int) =~= block.body@);
        self.leaves.set(p, false);
        self.blocks.push(block);
        self.hashes.push(h);
        self.parents.push(p);
        self.states.push(post);
        self.leaves.push(true);
        self.finalized.push(false);
        self.scores.push(score);
        proof {
            let new_self = *self;
            assert forall|j: int| 0 <= j < n + 1 implies (#[trigger] new_self.leaves@[j] <==> !exists|k: int|
                1 <= k < n + 1 && #[trigger] new_self.parents@[k] == j) by {
                if j == p {
                    assert(new_self.parents@[n as int] == j);
                } else if j < n {
                    assert(old_self.leaves@[j] <==> !exists|k: int| 1 <= k < n && #[trigger] old_self.parents@[k] == j);
                    if !old_self.leaves@[j] {
                        let k = choose|k: int| 1 <= k < n && #[trigger] old_self.parents@[k] == j;
                        assert(new_self.parents@[k] == j);
                    }
                } else {
                    assert forall|k: int| 1 <= k < n + 1 implies #[trigger] new_self.parents@[k] != j by {
                        if k < n {
                            assert(old_self.parents@[k] < k);
                        }
                    }
                }
            }
            assert(new_self.well_formed());
            new_self.lemma_index_of(n as int);
            old_self.lemma_index_of(p as int);
            assert forall|x: u64| #[trigger] old_self.known(x) implies new_self.known(x)
                && new_self.block_with_hash(x) == old_self.block_with_hash(x)
                && new_self.is_final(x) == old_self.is_final(x) by {
                let k = old_self.index_of(x);
                old_self.lemma_index_of(k);
                new_self.lemma_index_of(k);
            }
            let hp = block.header.parent;
            assert forall|x: u64| #[trigger] new_self.leaf_set().contains(x) == old_self.leaf_set().remove(hp).insert(h).contains(x) by {
                if new_self.leaf_set().contains(x) {
                    let k = choose|k: int| 0 <= k < new_self.hashes@.len() && new_self.hashes@[k] == x && new_self.leaves@[k];
                    if k < n {
                        assert(old_self.hashes@[k] == x && old_self.leaves@[k]);
                    }
                }
                if old_self.leaf_set().remove(hp).insert(h).contains(x) && x != h {
                    let k = choose|k: int| 0 <= k < old_self.hashes@.len() && old_self.hashes@[k] == x && old_self.leaves@[k];
                    assert(new_self.hashes@[k] == x && new_self.leaves@[k]);
                }
                if x == h {
                    assert(new_self.hashes@[n as int] == x && new_self.leaves@[n as int]);
                }
            }
            assert(new_self.leaf_set() =~= old_self.leaf_set().remove(hp).insert(h));
        }
        true
    }
}

/// Returns a copy of `block`.
fn copy_block<C: Consensus, SM: StateMachine>(block: &Block<C, SM>) -> (r: Block<C, SM>)
    where
        SM::Transition: Transaction,
    ensures
        r.header == block.header,
        r.body@ == block.body@,
{
    let mut body: Vec<SM::Transition> = Vec::new();
    let mut i: usize = 0;
    while i < block.body.len()
        invariant
            0 <= i <= block.body@.len(),
            body@ == block.body@.subrange(0, i as int),
        decreases block.body.len() - i,
    {
        body.push(block.body[i]);
        i = i + 1;
    }
    assert(body@ =~= block.body@);
    Block { header: block.header, body }
}

impl<C: Consensus, SM: StateMachine, FC: ForkChoice<C::Digest>, P: TransactionPool<
    SM::Transition,
>> FullClient<C, SM, FC, P> where SM::State: Encode + Copy, SM::Transition: Transaction {
    /// Returns a copy of the known block with this hash; `None` where it is unknown.
    pub fn get_block(&self, block_hash: u64) -> (r: Option<Block<C, SM>>)
        requires
            self.well_formed(),
        ensures
            r is None <==> !self.known(block_hash),
            r matches Some(b) ==> b.header == self.block_with_hash(block_hash).header && b.body@
                == self.block_with_hash(block_hash).body@,
    {
        match self.find(block_hash) {
            Some(i) => Some(copy_block(&self.blocks[i])),
            None => None,
        }
    }

    /// Returns whether the known block with this hash is a leaf; `None` where it is unknown.
    pub fn is_leaf(&self, block_hash: u64) -> (r: Option<bool>)
        requires
            self.well_formed(),
        ensures
            r is None <==> !self.known(block_hash),
            r matches Some(b) ==> b == self.leaf_set().contains(block_hash),
    {
        match self.find(block_hash) {
            Some(i) => {
                proof {
                    if self.leaf_set().contains(block_hash) {
                        let k = choose|k: int| 0 <= k < self.hashes@.len() && self.hashes@[k] == block_hash && self.leaves@[k];
                        assert(k == i);
                    }
                }
                Some(self.leaves[i])
            },
            None => None,
        }
    }

    /// Returns the hash of the best block: a leaf whose chain weighs most by the fork-choice
    /// rule.
    pub fn best_block(&self) -> (r: u64)
        requires
            self.well_formed(),
        ensures
            self.leaf_set().contains(r),
            forall|x: u64| #[trigger] self.leaf_set().contains(x) ==> self.score_of(x) <= self.score_of(r),
    {
        let n = self.blocks.len();
        let mut best: usize = n - 1;
        proof {
            assert forall|k: int| 1 <= k < n implies #[trigger] self.parents@[k] != n - 1 by {}
        }
        let mut i: usize = 0;
        while i < n
            invariant
                self.well_formed(),
                n == self.blocks@.len(),
                0 <= i <= n,
                best < n,
                self.leaves@[best as int],
                forall|j: int| 0 <= j < i && #[trigger] self.leaves@[j] ==> self.scores@[j] <= self.scores@[best as int],
                self.leaves@[n - 1] ==> self.scores@[n - 1] <= self.scores@[best as int],
            decreases n - i,
        {
            if self.leaves[i] && (self.scores[i] > self.scores[best] || (self.scores[i] == self.scores[best] && i < best)) {
                best = i;
            }
            i = i + 1;
        }
        proof {
            self.lemma_index_of(best as int);
            assert(self.hashes@[best as int] == self.hashes@[best as int] && self.leaves@[best as int]);
            assert forall|x: u64| #[trigger] self.leaf_set().contains(x) implies self.score_of(x) <= self.score_of(self.hashes@[best as int]) by {
                let k = choose|k: int| 0 <= k < self.hashes@.len() && self.hashes@[k] == x && self.leaves@[k];
                self.lemma_index_of(k);
            }
        }
        self.hashes[best]
    }

    /// Submits a transition to the pool, which keeps it where its policy accepts it.
    pub fn submit_transaction(&mut self, t: SM::Transition)
        requires
            old(self).well_formed(),
        ensures
            final(self).well_formed(),
            old(self).pool_admits(t) ==> final(self).pool() == old(self).pool().push(t),
            !old(self).pool_admits(t) ==> final(self).pool() == old(self).pool(),
            forall|x: u64| #[trigger] final(self).known(x) == old(self).known(x),
            forall|x: u64| #[trigger] final(self).block_with_hash(x) == old(self).block_with_hash(x),
            forall|x: u64| #[trigger] final(self).state_with_hash(x) == old(self).state_with_hash(x),
            forall|x: u64| #[trigger] final(self).is_final(x) == old(self).is_final(x),
            final(self).leaf_set() == old(self).leaf_set(),
            final(self).block_count() == old(self).block_count(),
    {
        let ghost before = *self;
        let _ = self.transaction_pool.try_insert(t);
        proof {
            self.lemma_same_chain(&before);
        }
    }

    /// Returns the number of transitions in the pool.
    pub fn pool_size(&self) -> (r: usize)
        ensures
            r == self.pool().len(),
    {
        self.transaction_pool.size()
    }

    /// Returns whether `t` is in the pool.
    pub fn pool_contains(&self, t: SM::Transition) -> (r: bool)
        ensures
            r == self.pool().contains(t),
    {
        self.transaction_pool.contains(t)
    }

    /// Marks the known block with this hash, and every ancestor of it, as final; returns whether
    /// the block was known. Finality is never taken back.
    pub fn manually_finalize_block(&mut self, block_hash: u64) -> (r: bool)
        requires
            old(self).well_formed(),
        ensures
            final(self).well_formed(),
            r == old(self).known(block_hash),
            !r ==> *final(self) == *old(self),
            r ==> final(self).is_final(block_hash),
            final(self).finality_closed(),
            r && old(self).block_with_hash(block_hash).header.height > 0 ==> final(self).is_final(
                old(self).block_with_hash(block_hash).header.parent,
            ),
            forall|x: u64| #[trigger] old(self).is_final(x) ==> final(self).is_final(x),
            forall|x: u64| #[trigger] final(self).known(x) == old(self).known(x),
            forall|x: u64| old(self).known(x) ==> #[trigger] final(self).block_with_hash(x) == old(self).block_with_hash(x),
            final(self).leaf_set() == old(self).leaf_set(),
            final(self).pool() == old(self).pool(),
    {
        let ghost old_self = *self;
        let target = match self.find(block_hash) {
            Some(i) => i,
            None => {
                proof {
                    self.lemma_finality_closed();
                }
                return false;
            },
        };
        let mut k: usize = target;
        loop
            invariant
                self.blocks == old_self.blocks,
                self.hashes == old_self.hashes,
                self.parents == old_self.parents,
                self.states == old_self.states,
                self.leaves == old_self.leaves,
                self.scores == old_self.scores,
                self.consensus_engine == old_self.consensus_engine,
                self.fork_choice == old_self.fork_choice,
                self.transaction_pool == old_self.transaction_pool,
                old_self.well_formed(),
                self.finalized@.len() == old_self.finalized@.len(),
                k < self.blocks@.len(),
                target < self.blocks@.len(),
                k == target || self.finalized@[target as int],
                k <= target,
                k != target ==> self.finalized@[self.parents@[target as int] as int] || self.parents@[target as int] == k,
                forall|j: int| 0 <= j < self.finalized@.len() && #[trigger] self.finalized@[j] ==> self.finalized@[self.parents@[j] as int] || self.parents@[j] == k,
                forall|j: int| 0 <= j < self.finalized@.len() && #[trigger] old_self.finalized@[j] ==> self.finalized@[j],
            ensures
                self.blocks == old_self.blocks,
                self.hashes == old_self.hashes,
                self.parents == old_self.parents,
                self.states == old_self.states,
                self.leaves == old_self.leaves,
                self.scores == old_self.scores,
                self.consensus_engine == old_self.consensus_engine,
                self.fork_choice == old_self.fork_choice,
                self.transaction_pool == old_self.transaction_pool,
                self.finalized@.len() == old_self.finalized@.len(),
                self.finalized@[target as int],
                self.finalized@[0],
                forall|j: int| 0 <= j < self.finalized@.len() && #[trigger] self.finalized@[j] ==> self.finalized@[self.parents@[j] as int],
                forall|j: int| 0 <= j < self.finalized@.len() && #[trigger] old_self.finalized@[j] ==> self.finalized@[j],
            decreases k,
        {
            self.finalized.set(k, true);
            if k == 0 {
                break;
            }
            k = self.parents[k];
        }
        proof {
            let new_self = *self;
            assert(new_self.well_formed());
            old_self.lemma_index_of(target as int);
            new_self.lemma_index_of(target as int);
            let pi = old_self.parents@[target as int] as int;
            old_self.lemma_index_of(pi);
            new_self.lemma_index_of(pi);
            if target > 0 {
                assert(old_self.blocks@[target as int].header.parent == old_self.hashes@[pi]);
            } else {
                assert(old_self.blocks@[0].header.height == 0);
            }
            assert forall|x: u64| #[trigger] old_self.is_final(x) implies new_self.is_final(x) by {
                old_self.lemma_index_of(old_self.index_of(x));
                new_self.lemma_index_of(old_self.index_of(x));
            }
            assert forall|x: u64| old_self.known(x) implies #[trigger] new_self.block_with_hash(x) == old_self.block_with_hash(x) by {
                old_self.lemma_index_of(old_self.index_of(x));
                new_self.lemma_index_of(old_self.index_of(x));
            }
            assert(new_self.leaf_set() =~= old_self.leaf_set());
            new_self.lemma_finality_closed();
        }
        true
    }
}

impl<C: Consensus, SM: StateMachine, FC: ForkChoice<C::Digest>, P: TransactionPool<
    SM::Transition,
>> FullClient<C, SM, FC, P> where SM::State: Encode + Copy, SM::Transition: Transaction {
    /// Authors a block with the given transitions on the known block `parent_hash`: builds its
    /// unsealed header with `partial_child`, lets the consensus engine seal it against the
    /// parent's digest, and imports the block through `import_block`. Returns whether the block
    /// was imported; nothing changes where it was not.
    pub fn author_and_import_manual_block(
        &mut self,
        transactions: Vec<SM::Transition>,
        parent_hash: u64,
    ) -> (r: bool)
        requires
            old(self).well_formed(),
            old(self).block_count() < i64::MAX,
        ensures
            final(self).well_formed(),
            !r ==> *final(self) == *old(self),
            !old(self).known(parent_hash) ==> !r,
            old(self).known(parent_hash) && old(self).block_with_hash(parent_hash).header.height
                == u64::MAX ==> !r,
            old(self).known(parent_hash) && old(self).block_with_hash(parent_hash).header.height
                < u64::MAX ==> exists|s: Option<Header<C::Digest>>|
                call_ensures(
                    C::seal,
                    (
                        &old(self).engine(),
                        &old(self).block_with_hash(parent_hash).header.consensus_digest,
                        partial_child_spec::<C::Digest, SM>(
                            old(self).block_with_hash(parent_hash).header,
                            old(self).state_with_hash(parent_hash),
                            transactions@,
                        ),
                    ),
                    s,
                ) && r == match s {
                    Some(h) => old(self).importable((Block { header: h, body: transactions })),
                    None => false,
                },
            r ==> final(self).block_count() == old(self).block_count() + 1,
            r ==> exists|b: Block<C, SM>|
                b.header.parent == parent_hash && b.body@ == transactions@ && old(self).importable(b)
                    && #[trigger] final(self).known(b.header.spec_hash())
                    && final(self).block_with_hash(b.header.spec_hash()) == b
                    && final(self).leaf_set().contains(b.header.spec_hash())
                    && final(self).leaf_set() == old(self).leaf_set().remove(parent_hash).insert(
                    b.header.spec_hash(),
                ),
            r ==> final(self).pool() == without_all(old(self).pool(), transactions@),
            r ==> forall|x: u64| #[trigger] old(self).known(x) ==> final(self).known(x)
                && final(self).block_with_hash(x) == old(self).block_with_hash(x)
                && final(self).is_final(x) == old(self).is_final(x),
    {
        let p = match self.find(parent_hash) {
            Some(p) => p,
            None => {
                return false;
            },
        };
        let parent_header = self.blocks[p].header;
        if parent_header.height == u64::MAX {
            return false;
        }
        proof {
            self.lemma_index_of(p as int);
        }
        let partial = partial_child::<C::Digest, SM>(
            &parent_header,
            &self.states[p],
            transactions.as_slice(),
        );
        let sealed = self.consensus_engine.seal(&parent_header.consensus_digest, partial);
        match sealed {
            Some(header) => {
                let ghost tx = transactions@;
                let block = Block { header, body: transactions };
                let ghost b = block;
                let ok = self.import_block(block);
                proof {
                    if ok {
                        assert(b.body@ == tx);
                        assert(self.known(b.header.spec_hash()) && self.block_with_hash(
                            b.header.spec_hash(),
                        ) == b);
                        assert(self.leaf_set().contains(b.header.spec_hash()));
                    }
                }
                ok
            },
            None => false,
        }
    }

    /// What automatic authoring did, going from `self` to `after` with result `r`: it built on
    /// `p`, a leaf whose chain weighs most, with `body`, the first `MAX_BLOCK_TRANSACTIONS`
    /// transitions (or all) that the pool handed out, each of them pending in the pool. A parent
    /// at the largest height gives `false`. Otherwise the engine sealed the unsealed header
    /// `partial_child` builds, and the result is whether that sealed block passes import. On
    /// success the block is stored, becomes a leaf in place of its parent, and the pool has lost
    /// at least the drained transitions.
    pub open spec fn authored_automatically(
        &self,
        after: &Self,
        r: bool,
        p: u64,
        body: Seq<SM::Transition>,
    ) -> bool {
        &&& self.leaf_set().contains(p)
        &&& forall|x: u64| #[trigger] self.leaf_set().contains(x) ==> self.score_of(x) <= self.score_of(p)
        &&& body.len() == (if self.pool().len() < MAX_BLOCK_TRANSACTIONS {
            self.pool().len() as int
        } else {
            MAX_BLOCK_TRANSACTIONS as int
        })
        &&& forall|k: int| 0 <= k < body.len() ==> self.pool().contains(#[trigger] body[k])
        &&& self.block_with_hash(p).header.height == u64::MAX ==> !r
        &&& self.block_with_hash(p).header.height < u64::MAX ==> exists|s: Option<Header<C::Digest>>|
            call_ensures(
                C::seal,
                (
                    &self.engine(),
                    &self.block_with_hash(p).header.consensus_digest,
                    partial_child_spec::<C::Digest, SM>(
                        self.block_with_hash(p).header,
                        self.state_with_hash(p),
                        body,
                    ),
                ),
                s,
            ) && r == match s {
                Some(h) => exists|b: Block<C, SM>|
                    b.header == h && b.body@ == body && #[trigger] self.importable(b),
                None => false,
            }
        &&& r ==> exists|b: Block<C, SM>|
            b.header.parent == p && b.body@ == body && self.importable(b)
                && #[trigger] after.known(b.header.spec_hash())
                && after.block_with_hash(b.header.spec_hash()) == b
                && after.leaf_set() == self.leaf_set().remove(p).insert(b.header.spec_hash())
                && after.pool().len() <= self.pool().len() - body.len()
    }

    /// Whether `b` passes import depends on its header and the transitions of its body alone.
    pub proof fn lemma_importable_by_view(&self, b1: Block<C, SM>, b2: Block<C, SM>)
        requires
            b1.header == b2.header,
            b1.body@ == b2.body@,
        ensures
            self.importable(b1) == self.importable(b2),
    {
    }

    /// Authors a block on the best block with transitions drained from the pool, at most
    /// `MAX_BLOCK_TRANSACTIONS` of them, through `author_and_import_manual_block`. Where the
    /// block is not imported, the drained transitions go back to the pool and no block is added.
    pub fn author_and_import_automatic_block(&mut self) -> (r: bool)
        requires
            old(self).well_formed(),
            old(self).block_count() < i64::MAX,
        ensures
            final(self).well_formed(),
            exists|p: u64, body: Seq<SM::Transition>|
                #[trigger] old(self).authored_automatically(final(self), r, p, body),
            r ==> final(self).block_count() == old(self).block_count() + 1,
            !r ==> final(self).block_count() == old(self).block_count(),
            !r ==> final(self).leaf_set() == old(self).leaf_set(),
            !r ==> forall|x: u64| #[trigger] old(self).block_with_hash(x) == final(self).block_with_hash(x),
            forall|x: u64| #[trigger] old(self).known(x) ==> final(self).known(x),
            forall|x: u64| #[trigger] old(self).is_final(x) ==> final(self).is_final(x),
    {
        let parent = self.best_block();
        let mut taken: Vec<SM::Transition> = Vec::new();
        let ghost old_self = *self;
        while taken.len() < MAX_BLOCK_TRANSACTIONS
            invariant
                self.well_formed(),
                self.same_chain(&old_self),
                taken@.len() <= MAX_BLOCK_TRANSACTIONS,
                self.pool().len() + taken@.len() == old_self.pool().len(),
                forall|k: int| 0 <= k < taken@.len() ==> old_self.pool().contains(#[trigger] taken@[k]),
                forall|t: SM::Transition| #[trigger] self.pool().contains(t) ==> old_self.pool().contains(t),
            ensures
                taken@.len() == MAX_BLOCK_TRANSACTIONS || self.pool().len() == 0,
            decreases MAX_BLOCK_TRANSACTIONS - taken@.len(),
        {
            let ghost before = self.pool();
            match self.transaction_pool.next_from_pool() {
                Some(t) => {
                    proof {
                        let i = choose|i: int|
                            0 <= i < before.len() && before[i] == t && self.pool() == before.remove(i);
                        assert(before.contains(t));
                        assert forall|x: SM::Transition| #[trigger] self.pool().contains(x) implies before.contains(x) by {
                            let k = choose|k: int| 0 <= k < self.pool().len() && self.pool()[k] == x;
                            if k < i {
                                assert(before[k] == x);
                            } else {
                                assert(before[k + 1] == x);
                            }
                        }
                    }
                    taken.push(t);
                },
                None => break,
            }
        }
        let mut restore: Vec<SM::Transition> = Vec::new();
        let mut i: usize = 0;
        while i < taken.len()
            invariant
                0 <= i <= taken@.len(),
                restore@ == taken@.subrange(0, i as int),
            decreases taken.len() - i,
        {
            restore.push(taken[i]);
            i = i + 1;
        }
        assert(restore@ =~= taken@);
        let ghost drained = *self;
        let ghost body = taken@;
        proof {
            drained.lemma_same_chain(&old_self);
        }
        let ghost tv = taken;
        let ok = self.author_and_import_manual_block(taken, parent);
        proof {
            let after = *self;
            assert(old_self.known(parent)) by {
                let i = choose|i: int|
                    0 <= i < old_self.hashes@.len() && old_self.hashes@[i] == parent && old_self.leaves@[i];
                assert(old_self.hashes@[i] == parent);
            }
            let ph = old_self.block_with_hash(parent).header;
            let partial = partial_child_spec::<C::Digest, SM>(ph, old_self.state_with_hash(parent), body);
            if ph.height < u64::MAX {
                let s = choose|s: Option<Header<C::Digest>>|
                    call_ensures(
                        C::seal,
                        (
                            &drained.engine(),
                            &drained.block_with_hash(parent).header.consensus_digest,
                            partial_child_spec::<C::Digest, SM>(
                                drained.block_with_hash(parent).header,
                                drained.state_with_hash(parent),
                                tv@,
                            ),
                        ),
                        s,
                    ) && ok == match s {
                        Some(h) => drained.importable((Block { header: h, body: tv })),
                        None => false,
                    };
                match s {
                    Some(h) => {
                        if ok {
                            assert(tv@ == body);
                            assert(old_self.importable((Block { header: h, body: tv })));
                        } else {
                            assert forall|b: Block<C, SM>|
                                b.header == h && b.body@ == body implies !#[trigger] old_self.importable(b) by {
                                old_self.lemma_importable_by_view(b, (Block { header: h, body: tv }));
                            }
                        }
                    },
                    None => {},
                }
                assert(call_ensures(C::seal, (&old_self.engine(), &ph.consensus_digest, partial), s));
                assert(ok == match s {
                    Some(h) => exists|b: Block<C, SM>|
                        b.header == h && b.body@ == body && #[trigger] old_self.importable(b),
                    None => false,
                });
            }
            assert(body.len() == (if old_self.pool().len() < MAX_BLOCK_TRANSACTIONS {
                old_self.pool().len() as int
            } else {
                MAX_BLOCK_TRANSACTIONS as int
            }));
            assert(forall|k: int| 0 <= k < body.len() ==> old_self.pool().contains(#[trigger] body[k]));
            assert(old_self.leaf_set().contains(parent));
            if ok {
                let b = choose|b: Block<C, SM>|
                    b.header.parent == parent && b.body@ == tv@ && drained.importable(b)
                        && #[trigger] after.known(b.header.spec_hash())
                        && after.block_with_hash(b.header.spec_hash()) == b
                        && after.leaf_set().contains(b.header.spec_hash())
                        && after.leaf_set() == drained.leaf_set().remove(parent).insert(
                        b.header.spec_hash(),
                    );
                lemma_without_all_shrinks(drained.pool(), body);
                assert(after.pool().len() <= old_self.pool().len() - body.len());
                assert(b.header.parent == parent && b.body@ == body && old_self.importable(b));
                assert(after.leaf_set() == old_self.leaf_set().remove(parent).insert(b.header.spec_hash()));
            }
            assert(old_self.authored_automatically(&after, ok, parent, body));
        }
        if ok {
            proof {
                assert forall|x: u64| #[trigger] old_self.known(x) implies self.known(x) by {
                    assert(drained.known(x));
                }
                assert forall|x: u64| #[trigger] old_self.is_final(x) implies self.is_final(x) by {
                    assert(drained.known(x));
                }
            }
            return true;
        }
        let mut j: usize = 0;
        while j < restore.len()
            invariant
                self.well_formed(),
                self.same_chain(&drained),
            decreases restore.len() - j,
        {
            let _ = self.transaction_pool.try_insert(restore[j]);
            j = j + 1;
        }
        proof {
            self.lemma_same_chain(&drained);
            assert(old_self.authored_automatically(self, false, parent, body));
        }
        false
    }
}

/// Taking transitions out of a sequence never lengthens it.
pub proof fn lemma_without_all_shrinks<T>(pending: Seq<T>, body: Seq<T>)
    ensures
        without_all(pending, body).len() <= pending.len(),
    decreases body.len(),
{
    if body.len() > 0 {
        lemma_without_all_shrinks(pending, body.drop_last());
        lemma_without_shrinks(without_all(pending, body.drop_last()), body.last());
    }
}

/// Taking a transition out of a sequence never lengthens it.
pub proof fn lemma_without_shrinks<T>(s: Seq<T>, t: T)
    ensures
        without(s, t).len() <= s.len(),
    decreases s.len(),
{
    if s.len() > 0 {
        lemma_without_shrinks(s.drop_last(), t);
    }
}

impl<C: Consensus, SM: StateMachine, FC: ForkChoice<C::Digest>, P: TransactionPool<
    SM::Transition,
>> FullClient<C, SM, FC, P> where SM::State: Encode + Copy, SM::Transition: Transaction {
    /// The leaf set after an import, as `import_block` states it: a parent that was not a leaf
    /// does not become one, and importing a child of the only leaf leaves the child as the only
    /// leaf, so a single chain of imports always has exactly one leaf, its newest block.
    pub proof fn lemma_leaves_after_import(before: &Self, after: &Self, block: Block<C, SM>)
        requires
            after.leaf_set() == before.leaf_set().remove(block.header.parent).insert(
                block.header.spec_hash(),
            ),
            block.header.spec_hash() != block.header.parent,
        ensures
            !before.leaf_set().contains(block.header.parent) ==> !after.leaf_set().contains(
                block.header.parent,
            ),
            before.leaf_set() == set![block.header.parent] ==> after.leaf_set() == set![
                block.header.spec_hash(),
            ],
    {
        if before.leaf_set() == set![block.header.parent] {
            assert(after.leaf_set() =~= set![block.header.spec_hash()]);
        }
    }

    /// The weight of a known block's chain is the weight of its parent's chain plus its own.
    pub proof fn lemma_score_extends(&self, h: u64)
        requires
            self.well_formed(),
            self.known(h),
            self.block_with_hash(h).header.height > 0,
        ensures
            self.known(self.block_with_hash(h).header.parent),
            self.score_of(h) == self.score_of(self.block_with_hash(h).header.parent)
                + self.fork_choice_weight(self.block_with_hash(h).header),
    {
        let i = self.index_of(h);
        self.lemma_index_of(i);
        if i == 0 {
            assert(self.blocks@[0].header.height == 0);
        } else {
            self.lemma_index_of(self.parents@[i] as int);
        }
    }

    /// The weight that the client's fork-choice rule gives a header.
    pub closed spec fn fork_choice_weight(&self, header: Header<C::Digest>) -> int {
        self.fork_choice.weight_of(header)
    }
}

/// `x`, or the largest `u64` where `x` is larger.
pub open spec fn capped(x: int) -> int {
    if x > u64::MAX {
        u64::MAX as int
    } else {
        x
    }
}

impl<C: Consensus, SM: StateMachine, FC: ForkChoice<C::Digest>, P: TransactionPool<
    SM::Transition,
>> FullClient<C, SM, FC, P> where SM::State: Encode + Copy, SM::Transition: Transaction {
    /// The number of blocks in the subtree of the block at index `i`: itself and every known
    /// descendant.
    spec fn subtree_size(&self, i: int) -> int
        decreases 2 * (self.blocks@.len() - i) + 1,
    {
        if 0 <= i < self.blocks@.len() {
            1 + self.children_size(i, i + 1)
        } else {
            0
        }
    }

    /// The sizes of the subtrees of the children of block `i` that stand at index `k` or later.
    spec fn children_size(&self, i: int, k: int) -> int
        decreases 2 * (self.blocks@.len() - k) + 2,
    {
        if 0 <= i < k < self.blocks@.len() {
            (if self.parents@[k] == i {
                self.subtree_size(k)
            } else {
                0
            }) + self.children_size(i, k + 1)
        } else {
            0
        }
    }

    proof fn lemma_subtree_nonnegative(&self, i: int)
        ensures
            self.subtree_size(i) >= 0,
        decreases 2 * (self.blocks@.len() - i) + 1,
    {
        if 0 <= i < self.blocks@.len() {
            self.lemma_children_nonnegative(i, i + 1);
        }
    }

    proof fn lemma_children_nonnegative(&self, i: int, k: int)
        ensures
            self.children_size(i, k) >= 0,
        decreases 2 * (self.blocks@.len() - k) + 2,
    {
        if 0 <= i < k < self.blocks@.len() {
            self.lemma_subtree_nonnegative(k);
            self.lemma_children_nonnegative(i, k + 1);
        }
    }

    /// Whether `c` is the child of block `i` that GHOST follows: of all of `i`'s children, the
    /// one with the largest subtree (sizes capped at the largest `u64`), the earliest imported
    /// among equals.
    pub closed spec fn best_child(&self, i: int, c: int) -> bool {
        &&& 1 <= c < self.blocks@.len()
        &&& self.parents@[c] == i
        &&& forall|k: int|
            1 <= k < self.blocks@.len() && #[trigger] self.parents@[k] == i ==> capped(
                self.subtree_size(k),
            ) < capped(self.subtree_size(c)) || (capped(self.subtree_size(k)) == capped(
                self.subtree_size(c),
            ) && c <= k)
    }

    /// Whether `path` walks from genesis through best children, each step to the best child
    /// of the block before.
    pub closed spec fn ghost_path(&self, path: Seq<int>) -> bool {
        &&& path.len() >= 1
        &&& path[0] == 0
        &&& forall|m: int| 0 <= m < path.len() - 1 ==> self.best_child(path[m], #[trigger] path[m + 1])
    }

    /// Whether `h` is the hash of the block where a walk through best children from genesis
    /// ends.
    pub closed spec fn ghost_choice(&self, h: u64) -> bool {
        exists|path: Seq<int>| self.ghost_path(path) && #[trigger] self.hashes@[path.last()] == h
    }

    /// Returns the capped subtree size of every block.
    fn subtree_sizes(&self) -> (r: Vec<u64>)
        requires
            self.well_formed(),
        ensures
            r@.len() == self.blocks@.len(),
            forall|j: int| 0 <= j < r@.len() ==> #[trigger] r@[j] == capped(self.subtree_size(j)),
    {
        let n = self.blocks.len();
        let mut sizes: Vec<u64> = Vec::new();
        let mut m: usize = 0;
        while m < n
            invariant
                sizes@.len() == m,
                m <= n,
            decreases n - m,
        {
            sizes.push(0);
            m = m + 1;
        }
        let mut j: usize = n;
        while j > 0
            invariant
                self.well_formed(),
                n == self.blocks@.len(),
                j <= n,
                sizes@.len() == n,
                forall|x: int| j <= x < n ==> #[trigger] sizes@[x] == capped(self.subtree_size(x)),
            decreases j,
        {
            j = j - 1;
            let mut acc: u64 = 0;
            let mut k: usize = n;
            while k > j + 1
                invariant
                    self.well_formed(),
                    n == self.blocks@.len(),
                    j < n,
                    j + 1 <= k <= n,
                    sizes@.len() == n,
                    forall|x: int| j < x < n ==> #[trigger] sizes@[x] == capped(self.subtree_size(x)),
                    acc == capped(self.children_size(j as int, k as int)),
                decreases k,
            {
                k = k - 1;
                proof {
                    self.lemma_subtree_nonnegative(k as int);
                    self.lemma_children_nonnegative(j as int, k + 1);
                }
                if self.parents[k] == j {
                    acc = acc.saturating_add(sizes[k]);
                }
            }
            proof {
                self.lemma_children_nonnegative(j as int, j + 1);
            }
            let size = acc.saturating_add(1);
            sizes.set(j, size);
        }
        sizes
    }

    /// Returns the best block by GHOST, the greedy heaviest observed subtree rule: from genesis,
    /// step at each block to the child with the largest subtree, until a leaf.
    pub fn ghost_best_block(&self) -> (r: u64)
        requires
            self.well_formed(),
        ensures
            self.leaf_set().contains(r),
            self.ghost_choice(r),
    {
        let n = self.blocks.len();
        let sizes = self.subtree_sizes();
        let mut cur: usize = 0;
        let ghost mut path: Seq<int> = seq![0];
        loop
            invariant
                self.well_formed(),
                n == self.blocks@.len(),
                sizes@.len() == n,
                forall|j: int| 0 <= j < n ==> #[trigger] sizes@[j] == capped(self.subtree_size(j)),
                cur < n,
                self.ghost_path(path),
                path.last() == cur,
            decreases n - cur,
        {
            let mut best: usize = 0;
            let mut found = false;
            let mut k: usize = cur + 1;
            while k < n
                invariant
                    self.well_formed(),
                    n == self.blocks@.len(),
                    sizes@.len() == n,
                    forall|j: int| 0 <= j < n ==> #[trigger] sizes@[j] == capped(self.subtree_size(j)),
                    cur < k <= n || (cur + 1 == k && k > n),
                    cur < n,
                    found ==> cur < best < k && self.parents@[best as int] == cur,
                    found ==> forall|x: int|
                        cur < x < k && #[trigger] self.parents@[x] == cur ==> sizes@[x] < sizes@[best as int]
                            || (sizes@[x] == sizes@[best as int] && best <= x),
                    !found ==> forall|x: int| cur < x < k ==> #[trigger] self.parents@[x] != cur,
                decreases n - k,
            {
                if self.parents[k] == cur && (!found || sizes[k] > sizes[best]) {
                    best = k;
                    found = true;
                }
                k = k + 1;
            }
            if !found {
                proof {
                    assert forall|x: int| 1 <= x < n implies #[trigger] self.parents@[x] != cur by {
                        if x <= cur {
                            assert(self.parents@[x] < x);
                        }
                    }
                    self.lemma_index_of(cur as int);
                    assert(self.hashes@[cur as int] == self.hashes@[cur as int] && self.leaves@[cur as int]);
                    assert(self.hashes@[path.last()] == self.hashes@[cur as int]);
                }
                return self.hashes[cur];
            }
            proof {
                assert forall|x: int| 1 <= x < n && #[trigger] self.parents@[x] == cur implies capped(
                    self.subtree_size(x),
                ) < capped(self.subtree_size(best as int)) || (capped(self.subtree_size(x)) == capped(
                    self.subtree_size(best as int),
                ) && best <= x) by {
                    if x <= cur {
                        assert(self.parents@[x] < x);
                    }
                }
                let old_path = path;
                path = path.push(best as int);
                assert forall|m: int| 0 <= m < path.len() - 1 implies self.best_child(path[m], #[trigger] path[m + 1]) by {
                    if m < old_path.len() - 1 {
                        assert(path[m] == old_path[m] && path[m + 1] == old_path[m + 1]);
                    }
                }
            }
            cur = best;
        }
    }
}

impl<C: Consensus, SM: StateMachine> Block<C, SM> where SM::State: Encode + Copy, SM::Transition: Transaction {
    /// The hash of the genesis block built on `genesis_state`.
    pub open spec fn genesis_spec_hash(genesis_state: SM::State) -> u64 {
        Header::<C::Digest>::genesis_spec(state_root_of(genesis_state)).spec_hash()
    }
}

} // verus!
