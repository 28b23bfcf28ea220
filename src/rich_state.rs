//! Blocks whose state lives outside the chain. The state tracks both the sum and the product of
//! all extrinsics, and headers commit to it through a state root.
use vstd::prelude::*;
use crate::hashing::{hash_words, words_hash};
use crate::batched::{body_root, extrinsics_root};

verus! {

/// The running sum and product of every extrinsic so far.
#[derive(Clone, Copy, Debug, PartialEq, Eq)]
pub struct State {
    pub sum: u64,
    pub product: u64,
}

/// A header that commits to its extrinsics and to the post state by their hashes.
#[derive(Clone, Copy, Debug, PartialEq, Eq)]
pub struct Header {
    pub parent: u64,
    pub height: u64,
    pub extrinsics_root: u64,
    pub state_root: u64,
    pub consensus_digest: u64,
}

/// A header together with the extrinsics that it commits to.
#[derive(Clone, Debug, PartialEq, Eq)]
pub struct Block {
    pub header: Header,
    pub body: Vec<u64>,
}

impl State {
    /// The hash of the state, which is what a state root must equal.
    pub open spec fn spec_hash(self) -> u64 {
        words_hash(seq![self.sum, self.product])
    }

    /// Returns the hash of this state.
    pub fn hash(&self) -> (r: u64)
        ensures
            r == self.spec_hash(),
    {
        let words = vec![self.sum, self.product];
        assert(words@ =~= seq![self.sum, self.product]);
        hash_words(&words)
    }
}

/// The state after one extrinsic; `None` where the sum or the product leaves `u64`.
pub open spec fn step(s: State, e: u64) -> Option<State> {
    if s.sum + e <= u64::MAX && s.product * e <= u64::MAX {
        Some(State { sum: (s.sum + e) as u64, product: (s.product * e) as u64 })
    } else {
        None
    }
}

/// The state after every extrinsic of `body`, from `pre`; `None` where a step overflows.
pub open spec fn post_state(pre: State, body: Seq<u64>) -> Option<State>
    decreases body.len(),
{
    if body.len() == 0 {
        Some(pre)
    } else {
        match post_state(pre, body.drop_last()) {
            Some(s) => step(s, body.last()),
            None => None,
        }
    }
}

/// Once a step overflows on a prefix, execution fails on every longer prefix.
proof fn lemma_overflow_sticks(pre: State, body: Seq<u64>, k: int)
    requires
        0 < k <= body.len(),
        post_state(pre, body.subrange(0, k)) is None,
    ensures
        post_state(pre, body) is None,
    decreases body.len() - k,
{
    if k < body.len() {
        assert(body.subrange(0, k + 1).drop_last() =~= body.subrange(0, k));
        lemma_overflow_sticks(pre, body, k + 1);
    } else {
        assert(body.subrange(0, k) =~= body);
    }
}

/// Applies every extrinsic of `body` to `pre`.
pub fn execute(pre: &State, body: &Vec<u64>) -> (r: Option<State>)
    ensures
        r == post_state(*pre, body@),
{
    let mut acc = *pre;
    let mut i: usize = 0;
    while i < body.len()
        invariant
            0 <= i <= body.len(),
            post_state(*pre, body@.subrange(0, i as int)) == Some(acc),
        decreases body.len() - i,
    {
        assert(body@.subrange(0, i + 1).drop_last() =~= body@.subrange(0, i as int));
        let e = body[i];
        let sum = acc.sum.checked_add(e);
        let product = acc.product.checked_mul(e);
        match (sum, product) {
            (Some(s), Some(p)) => {
                acc = State { sum: s, product: p };
            },
            _ => {
                proof {
                    lemma_overflow_sticks(*pre, body@, i as int + 1);
                }
                return None;
            },
        }
        i = i + 1;
    }
    assert(body@.subrange(0, i as int) =~= body@);
    Some(acc)
}

impl Header {
    /// The canonical encoding of the header.
    pub open spec fn words(self) -> Seq<u64> {
        seq![self.parent, self.height, self.extrinsics_root, self.state_root, self.consensus_digest]
    }

    /// The hash of the header.
    pub open spec fn spec_hash(self) -> u64 {
        words_hash(self.words())
    }

    /// Whether `child` may follow `self` as a header: linked and at the next height.
    pub open spec fn links_to(self, child: Header) -> bool {
        child.parent == self.spec_hash() && child.height == self.height + 1
    }

    /// Whether every header of `chain` follows the one before it, starting from `self`.
    pub open spec fn valid_sub_chain(self, chain: Seq<Header>) -> bool {
        forall|i: int|
            0 <= i < chain.len() ==> (#[trigger] header_before(self, chain, i)).links_to(chain[i])
    }

    /// Returns the hash of this header.
    pub fn hash(&self) -> (r: u64)
        ensures
            r == self.spec_hash(),
    {
        let words = vec![
            self.parent,
            self.height,
            self.extrinsics_root,
            self.state_root,
            self.consensus_digest,
        ];
        assert(words@ =~= self.words());
        hash_words(&words)
    }

    /// Returns a new valid genesis header that commits to the given genesis state root.
    pub fn genesis(genesis_state_root: u64) -> (r: Self)
        ensures
            r == (Header {
                parent: 0,
                height: 0,
                extrinsics_root: 0,
                state_root: genesis_state_root,
                consensus_digest: 0,
            }),
    {
        Header {
            parent: 0,
            height: 0,
            extrinsics_root: 0,
            state_root: genesis_state_root,
            consensus_digest: 0,
        }
    }

    /// Creates a child header with the given roots.
    pub fn child(&self, extrinsics_root: u64, state_root: u64) -> (r: Self)
        requires
            self.height < u64::MAX,
        ensures
            self.links_to(r),
            r.extrinsics_root == extrinsics_root,
            r.state_root == state_root,
            r.consensus_digest == 0,
    {
        Header {
            parent: self.hash(),
            height: self.height + 1,
            extrinsics_root,
            state_root,
            consensus_digest: 0,
        }
    }

    /// Whether `child` may follow this header.
    pub fn verify_child(&self, child: &Header) -> (r: bool)
        ensures
            r == self.links_to(*child),
    {
        self.height < u64::MAX && child.parent == self.hash() && child.height == self.height + 1
    }

    /// Verifies that the given headers form a valid chain from this header to the tip.
    pub fn verify_sub_chain(&self, chain: &[Header]) -> (r: bool)
        ensures
            r == self.valid_sub_chain(chain@),
    {
        let mut tip = *self;
        let mut i: usize = 0;
        while i < chain.len()
            invariant
                0 <= i <= chain.len(),
                tip == header_before(*self, chain@, i as int),
                forall|j: int|
                    0 <= j < i ==> (#[trigger] header_before(*self, chain@, j)).links_to(chain@[j]),
            decreases chain.len() - i,
        {
            if !tip.verify_child(&chain[i]) {
                assert(!header_before(*self, chain@, i as int).links_to(chain@[i as int]));
                return false;
            }
            tip = chain[i];
            i = i + 1;
        }
        true
    }
}

/// The header that `chain[i]` must follow: `root` for the first one.
pub open spec fn header_before(root: Header, chain: Seq<Header>, i: int) -> Header {
    if i == 0 {
        root
    } else {
        chain[i - 1]
    }
}

/// Whether `child`, executed from `pre`, may follow the block whose header is `parent`: its
/// header follows, its body commits to the extrinsics root, and its post state to the state root.
pub open spec fn accepts(parent: Header, pre: State, child: Block) -> bool {
    &&& parent.links_to(child.header)
    &&& child.header.extrinsics_root == body_root(child.body@)
    &&& match post_state(pre, child.body@) {
        Some(post) => child.header.state_root == post.spec_hash(),
        None => false,
    }
}

/// The state after the first `n` blocks of `chain`, from `pre`.
pub open spec fn state_after(pre: State, chain: Seq<Block>, n: int) -> Option<State>
    decreases n,
{
    if n <= 0 {
        Some(pre)
    } else {
        match state_after(pre, chain, n - 1) {
            Some(s) => post_state(s, chain[n - 1].body@),
            None => None,
        }
    }
}

impl Block {
    /// Whether `pre` is this block's post state and every block of `chain` follows the one
    /// before it, each executed from the state that the blocks before it lead to.
    pub open spec fn valid_sub_chain(self, pre: State, chain: Seq<Block>) -> bool {
        &&& self.header.state_root == pre.spec_hash()
        &&& forall|i: int| 0 <= i < chain.len() ==> #[trigger] block_ok(self, pre, chain, i)
    }

    /// Returns a new valid genesis block for the given genesis state, with no extrinsics.
    pub fn genesis(genesis_state: &State) -> (r: Self)
        ensures
            r.header == (Header {
                parent: 0,
                height: 0,
                extrinsics_root: 0,
                state_root: genesis_state.spec_hash(),
                consensus_digest: 0,
            }),
            r.body@.len() == 0,
    {
        Block { header: Header::genesis(genesis_state.hash()), body: Vec::new() }
    }

    /// Creates a valid child block that executes `extrinsics` from `pre_state`.
    pub fn child(&self, pre_state: &State, extrinsics: Vec<u64>) -> (r: Self)
        requires
            self.header.height < u64::MAX,
            post_state(*pre_state, extrinsics@) is Some,
        ensures
            accepts(self.header, *pre_state, r),
            r.body@ == extrinsics@,
    {
        let post = match execute(pre_state, &extrinsics) {
            Some(s) => s,
            None => *pre_state,
        };
        let root = extrinsics_root(&extrinsics);
        Block { header: self.header.child(root, post.hash()), body: extrinsics }
    }

    /// Verifies `pre_state` against this block, then every block of `chain`: header link,
    /// extrinsics root, execution and state root.
    pub fn verify_sub_chain(&self, pre_state: &State, chain: &[Block]) -> (r: bool)
        ensures
            r == self.valid_sub_chain(*pre_state, chain@),
    {
        if pre_state.hash() != self.header.state_root {
            return false;
        }
        let mut state = *pre_state;
        let mut i: usize = 0;
        while i < chain.len()
            invariant
                0 <= i <= chain.len(),
                self.header.state_root == pre_state.spec_hash(),
                state_after(*pre_state, chain@, i as int) == Some(state),
                forall|j: int| 0 <= j < i ==> #[trigger] block_ok(*self, *pre_state, chain@, j),
            decreases chain.len() - i,
        {
            let parent = if i == 0 {
                self.header
            } else {
                chain[i - 1].header
            };
            let block = &chain[i];
            let ok = parent.verify_child(&block.header) && extrinsics_root(&block.body)
                == block.header.extrinsics_root;
            if !ok {
                assert(!block_ok(*self, *pre_state, chain@, i as int));
                return false;
            }
            match execute(&state, &block.body) {
                Some(post) => {
                    if post.hash() != block.header.state_root {
                        assert(!block_ok(*self, *pre_state, chain@, i as int));
                        return false;
                    }
                    state = post;
                },
                None => {
                    assert(!block_ok(*self, *pre_state, chain@, i as int));
                    return false;
                },
            }
            i = i + 1;
        }
        true
    }
}

/// Whether `chain[i]` follows the block before it, executed from the state before it.
pub open spec fn block_ok(root: Block, pre: State, chain: Seq<Block>, i: int) -> bool {
    let parent = if i == 0 {
        root.header
    } else {
        chain[i - 1].header
    };
    match state_after(pre, chain, i) {
        Some(s) => accepts(parent, s, chain[i]),
        None => false,
    }
}

/// Builds a child of `parent` whose header is valid but whose block is not: the header commits to
/// the right extrinsics but to `pre_state` itself as the post state, although the body adds 1.
pub fn build_invalid_child_block_with_valid_header(parent: &Header, pre_state: &State) -> (r: Block)
    requires
        parent.height < u64::MAX,
    ensures
        parent.links_to(r.header),
        r.header.extrinsics_root == body_root(r.body@),
        r.header.state_root == pre_state.spec_hash(),
        r.body@ == seq![1u64],
{
    let body = vec![1u64];
    assert(body@ =~= seq![1u64]);
    let root = extrinsics_root(&body);
    Block { header: parent.child(root, pre_state.hash()), body }
}

} // verus!
