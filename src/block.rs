//! Blocks that are generic over the consensus engine and the state machine. A header commits to
//! the block's body through its extrinsics root and to the post state through its state root.
use vstd::prelude::*;
use crate::consensus::{Consensus, ConsensusDigest, Header};
use crate::hashing::{hash_words, words_hash};
use crate::state_machine::{Encode, StateMachine, Transaction, execute, run};

verus! {

/// The encoding of a body: the encodings of its transitions, one after the other.
pub open spec fn body_words<T: Encode>(body: Seq<T>) -> Seq<u64>
    decreases body.len(),
{
    if body.len() == 0 {
        Seq::empty()
    } else {
        body_words(body.drop_last()) + body.last().words()
    }
}

/// The extrinsics root that a header must carry for `body`.
pub open spec fn body_root<T: Encode>(body: Seq<T>) -> u64 {
    words_hash(body_words(body))
}

/// The state root that a header must carry for `state`.
pub open spec fn state_root_of<S: Encode>(state: S) -> u64 {
    words_hash(state.words())
}

/// Returns the extrinsics root of `body`.
pub fn extrinsics_root_of<T: Encode>(body: &[T]) -> (r: u64)
    ensures
        r == body_root(body@),
{
    let mut words: Vec<u64> = Vec::new();
    let mut i: usize = 0;
    while i < body.len()
        invariant
            0 <= i <= body@.len(),
            words@ == body_words(body@.subrange(0, i as int)),
        decreases body.len() - i,
    {
        assert(body@.subrange(0, i + 1).drop_last() =~= body@.subrange(0, i as int));
        let mut more = body[i].encode();
        words.append(&mut more);
        i = i + 1;
    }
    assert(body@.subrange(0, i as int) =~= body@);
    hash_words(&words)
}

/// Returns the state root of `state`.
pub fn state_root<S: Encode>(state: &S) -> (r: u64)
    ensures
        r == state_root_of(*state),
{
    hash_words(&state.encode())
}

/// The unsealed header of a block that executes `transactions` on top of the block whose header
/// is `parent` and whose post state is `parent_state`.
pub open spec fn partial_child_spec<D: ConsensusDigest, SM: StateMachine>(
    parent: Header<D>,
    parent_state: SM::State,
    transactions: Seq<SM::Transition>,
) -> Header<()> where SM::State: Encode, SM::Transition: Encode {
    Header {
        parent: parent.spec_hash(),
        height: (parent.height + 1) as u64,
        state_root: state_root_of(run::<SM>(parent_state, transactions)),
        extrinsics_root: body_root(transactions),
        consensus_digest: (),
    }
}

/// Returns the unsealed header of a block that executes `transactions` on top of the block whose
/// header is `parent` and whose post state is `parent_state`.
pub fn partial_child<D: ConsensusDigest, SM: StateMachine>(
    parent: &Header<D>,
    parent_state: &SM::State,
    transactions: &[SM::Transition],
) -> (r: Header<()>)
    where
        SM::State: Encode + Copy,
        SM::Transition: Encode,
    requires
        parent.height < u64::MAX,
    ensures
        r == partial_child_spec::<D, SM>(*parent, *parent_state, transactions@),
{
    let post = execute::<SM>(parent_state, transactions);
    Header {
        parent: parent.hash(),
        height: parent.height + 1,
        state_root: state_root(&post),
        extrinsics_root: extrinsics_root_of(transactions),
        consensus_digest: (),
    }
}

/// A header together with the transitions that it commits to.
pub struct Block<C: Consensus, SM: StateMachine> {
    pub header: Header<C::Digest>,
    pub body: Vec<SM::Transition>,
}

/// Whether `child`, executed from `pre`, may follow a block whose header is `parent`: its header
/// follows, its extrinsics root commits to its body and its state root to the post state.
pub open spec fn block_accepts<C: Consensus, SM: StateMachine>(
    parent: Header<C::Digest>,
    pre: SM::State,
    child: Block<C, SM>,
) -> bool where SM::State: Encode, SM::Transition: Encode {
    &&& parent.links_to(child.header)
    &&& child.header.extrinsics_root == body_root(child.body@)
    &&& child.header.state_root == state_root_of(run::<SM>(pre, child.body@))
}

/// The state after the bodies of the first `n` blocks of `chain`, from `pre`.
pub open spec fn state_after<C: Consensus, SM: StateMachine>(
    pre: SM::State,
    chain: Seq<Block<C, SM>>,
    n: int,
) -> SM::State
    decreases n,
{
    if n <= 0 {
        pre
    } else {
        run::<SM>(state_after(pre, chain, n - 1), chain[n - 1].body@)
    }
}

/// Whether `chain[i]` follows the block before it (`root` for the first), executed from the
/// state that the blocks before it lead to.
pub open spec fn block_ok_at<C: Consensus, SM: StateMachine>(
    root: Block<C, SM>,
    pre: SM::State,
    chain: Seq<Block<C, SM>>,
    i: int,
) -> bool where SM::State: Encode, SM::Transition: Encode {
    let parent = if i == 0 {
        root.header
    } else {
        chain[i - 1].header
    };
    block_accepts(parent, state_after(pre, chain, i), chain[i])
}

impl<C: Consensus, SM: StateMachine> Block<C, SM> where
    SM::State: Encode + Copy,
    SM::Transition: Transaction,
 {
    /// Whether `pre` is this block's post state and every block of `chain` follows the one
    /// before it.
    pub open spec fn valid_sub_chain(self, pre: SM::State, chain: Seq<Block<C, SM>>) -> bool {
        &&& self.header.state_root == state_root_of(pre)
        &&& forall|i: int| 0 <= i < chain.len() ==> #[trigger] block_ok_at(self, pre, chain, i)
    }

    /// Returns a new valid genesis block for the given genesis state, with no transitions.
    pub fn genesis(genesis_state: &SM::State) -> (r: Self)
        ensures
            r.header == Header::<C::Digest>::genesis_spec(state_root_of(*genesis_state)),
            r.body@.len() == 0,
    {
        Block { header: Header::genesis(state_root(genesis_state)), body: Vec::new() }
    }

    /// Creates a valid child block that executes `extrinsics` from `pre_state`. Its header
    /// carries this block's digest until a consensus engine seals it.
    pub fn child(&self, pre_state: &SM::State, extrinsics: Vec<SM::Transition>) -> (r: Self)
        requires
            self.header.height < u64::MAX,
        ensures
            block_accepts(self.header, *pre_state, r),
            r.body@ == extrinsics@,
            r.header.consensus_digest == self.header.consensus_digest,
    {
        let post = execute::<SM>(pre_state, extrinsics.as_slice());
        let header = self.header.child(state_root(&post), extrinsics_root_of(extrinsics.as_slice()));
        Block { header, body: extrinsics }
    }

    /// Verifies `pre_state` against this block, then every block of `chain`: header link,
    /// extrinsics root, execution and state root.
    pub fn verify_sub_chain(&self, pre_state: &SM::State, chain: &[Self]) -> (r: bool)
        ensures
            r == self.valid_sub_chain(*pre_state, chain@),
    {
        if state_root(pre_state) != self.header.state_root {
            return false;
        }
        let mut state = *pre_state;
        let mut i: usize = 0;
        while i < chain.len()
            invariant
                0 <= i <= chain@.len(),
                self.header.state_root == state_root_of(*pre_state),
                state == state_after(*pre_state, chain@, i as int),
                forall|j: int| 0 <= j < i ==> #[trigger] block_ok_at(*self, *pre_state, chain@, j),
            decreases chain.len() - i,
        {
            let parent = if i == 0 {
                &self.header
            } else {
                &chain[i - 1].header
            };
            let block = &chain[i];
            let post = execute::<SM>(&state, block.body.as_slice());
            if !parent.verify_child(&block.header) || extrinsics_root_of(block.body.as_slice())
                != block.header.extrinsics_root || state_root(&post) != block.header.state_root {
                assert(!block_ok_at(*self, *pre_state, chain@, i as int));
                return false;
            }
            state = post;
            i = i + 1;
        }
        true
    }
}

/// Builds a chain of `n` blocks without transitions from the given genesis state, genesis
/// included (a chain always holds genesis).
pub fn create_empty_chain<C: Consensus, SM: StateMachine>(n: u64, genesis_state: &SM::State) -> (r:
    Vec<Block<C, SM>>)
    where
        SM::State: Encode + Copy,
        SM::Transition: Transaction,
    ensures
        r@.len() == (if n == 0 { 1int } else { n as int }),
        r@[0].header == Header::<C::Digest>::genesis_spec(state_root_of(*genesis_state)),
        forall|i: int| 0 <= i < r@.len() ==> (#[trigger] r@[i]).body@.len() == 0,
        r@[0].valid_sub_chain(*genesis_state, r@.drop_first()),
{
    let mut chain: Vec<Block<C, SM>> = Vec::new();
    chain.push(Block::genesis(genesis_state));
    let mut i: u64 = 1;
    while i < n
        invariant
            1 <= i,
            i <= n || (n == 0 && i == 1),
            chain@.len() == i,
            chain@[0].header == Header::<C::Digest>::genesis_spec(state_root_of(*genesis_state)),
            forall|j: int| 0 <= j < i ==> (#[trigger] chain@[j]).body@.len() == 0 && chain@[j].header.height == j,
            forall|j: int| 1 <= j < i ==> block_accepts(chain@[j - 1].header, *genesis_state, #[trigger] chain@[j]),
        decreases n - i,
    {
        let last = chain.len() - 1;
        let next = chain[last].child(genesis_state, Vec::new());
        chain.push(next);
        i = i + 1;
    }
    proof {
        let sub = chain@.drop_first();
        assert forall|k: int| 0 <= k <= sub.len() implies #[trigger] state_after(*genesis_state, sub, k)
            == *genesis_state by {
            lemma_empty_bodies_keep_state(*genesis_state, sub, k);
        }
        assert forall|k: int| 0 <= k < sub.len() implies #[trigger] block_ok_at(chain@[0], *genesis_state, sub, k) by {
            assert(chain@[k + 1] == sub[k]);
            assert(state_after(*genesis_state, sub, k) == *genesis_state);
            if k > 0 {
                assert(chain@[k] == sub[k - 1]);
            }
        }
    }
    chain
}

/// Blocks without transitions leave the state as it was.
proof fn lemma_empty_bodies_keep_state<C: Consensus, SM: StateMachine>(
    pre: SM::State,
    chain: Seq<Block<C, SM>>,
    k: int,
)
    requires
        0 <= k <= chain.len(),
        forall|i: int| 0 <= i < chain.len() ==> (#[trigger] chain[i]).body@.len() == 0,
    ensures
        state_after(pre, chain, k) == pre,
    decreases k,
{
    if k > 0 {
        lemma_empty_bodies_keep_state(pre, chain, k - 1);
        assert(chain[k - 1].body@.len() == 0);
    }
}

} // verus!
