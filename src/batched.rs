//! Blocks that batch their extrinsics in a body. The header commits to the body through its
//! extrinsics root and still carries the running sum as its state.
use vstd::prelude::*;
use crate::hashing::{hash_words, words_hash};

verus! {

/// A header that commits to a batch of extrinsics and carries the state after them.
#[derive(Clone, Copy, Debug, PartialEq, Eq)]
pub struct Header {
    pub parent: u64,
    pub height: u64,
    pub extrinsics_root: u64,
    pub state: u64,
    pub consensus_digest: u64,
}

/// A header together with the extrinsics that it commits to.
#[derive(Clone, Debug, PartialEq, Eq)]
pub struct Block {
    pub header: Header,
    pub body: Vec<u64>,
}

/// The state after adding every extrinsic of `body` to `pre`; `None` where it leaves `u64`.
pub open spec fn post_state(pre: u64, body: Seq<u64>) -> Option<u64>
    decreases body.len(),
{
    if body.len() == 0 {
        Some(pre)
    } else {
        match post_state(pre, body.drop_last()) {
            Some(s) => if s + body.last() <= u64::MAX {
                Some((s + body.last()) as u64)
            } else {
                None
            },
            None => None,
        }
    }
}

/// Adds every extrinsic of `body` to `pre`; `None` where the sum leaves `u64`.
pub fn execute(pre: u64, body: &Vec<u64>) -> (r: Option<u64>)
    ensures
        r == post_state(pre, body@),
{
    let mut acc: u64 = pre;
    let mut i: usize = 0;
    while i < body.len()
        invariant
            0 <= i <= body.len(),
            post_state(pre, body@.subrange(0, i as int)) == Some(acc),
        decreases body.len() - i,
    {
        assert(body@.subrange(0, i + 1).drop_last() =~= body@.subrange(0, i as int));
        if acc > u64::MAX - body[i] {
            proof {
                lemma_overflow_sticks(pre, body@, i as int + 1);
            }
            return None;
        }
        acc = acc + body[i];
        i = i + 1;
    }
    assert(body@.subrange(0, i as int) =~= body@);
    Some(acc)
}

/// Once the sum leaves `u64` on a prefix, it stays out on every longer prefix.
proof fn lemma_overflow_sticks(pre: u64, body: Seq<u64>, k: int)
    requires
        0 < k <= body.len(),
        post_state(pre, body.subrange(0, k)) is None,
    ensures
        post_state(pre, body) is None,
    decreases body.len() - k,
{
    if k < body.len() {
        assert(body.subrange(0, k + 1).drop_last() =~= body.subrange(0, k));
        lemma_overflow_sticks(pre, body, k + 1);
    } else {
        assert(body.subrange(0, k) =~= body);
    }
}

/// The hash of a body, which is what an extrinsics root must equal.
pub open spec fn body_root(body: Seq<u64>) -> u64 {
    words_hash(body)
}

/// Returns the extrinsics root of `body`.
pub fn extrinsics_root(body: &Vec<u64>) -> (r: u64)
    ensures
        r == body_root(body@),
{
    hash_words(body)
}

impl Header {
    /// The canonical encoding of the header.
    pub open spec fn words(self) -> Seq<u64> {
        seq![self.parent, self.height, self.extrinsics_root, self.state, self.consensus_digest]
    }

    /// The hash of the header.
    pub open spec fn spec_hash(self) -> u64 {
        words_hash(self.words())
    }

    /// The genesis header.
    pub open spec fn genesis_spec() -> Header {
        Header { parent: 0, height: 0, extrinsics_root: 0, state: 0, consensus_digest: 0 }
    }

    /// Whether `child` may follow `self` as a header: linked and at the next height.
    pub open spec fn links_to(self, child: Header) -> bool {
        child.parent == self.spec_hash() && child.height == self.height + 1
    }

    /// Whether every header of `chain` follows the one before it, starting from `self`.
    pub open spec fn valid_sub_chain(self, chain: Seq<Header>) -> bool {
        forall|i: int|
            0 <= i < chain.len() ==> (#[trigger] header_before(self, chain, i)).links_to(chain[i])
    }

    /// Returns the hash of this header.
    pub fn hash(&self) -> (r: u64)
        ensures
            r == self.spec_hash(),
    {
        let words = vec![
            self.parent,
            self.height,
            self.extrinsics_root,
            self.state,
            self.consensus_digest,
        ];
        assert(words@ =~= self.words());
        hash_words(&words)
    }

    /// Returns a new valid genesis header.
    pub fn genesis() -> (r: Self)
        ensures
            r == Header::genesis_spec(),
    {
        Header { parent: 0, height: 0, extrinsics_root: 0, state: 0, consensus_digest: 0 }
    }

    /// Creates a child header with the given extrinsics root and post state.
    pub fn child(&self, extrinsics_root: u64, state: u64) -> (r: Self)
        requires
            self.height < u64::MAX,
        ensures
            self.links_to(r),
            r.extrinsics_root == extrinsics_root,
            r.state == state,
            r.consensus_digest == 0,
    {
        Header {
            parent: self.hash(),
            height: self.height + 1,
            extrinsics_root,
            state,
            consensus_digest: 0,
        }
    }

    /// Whether `child` may follow this header.
    pub fn verify_child(&self, child: &Header) -> (r: bool)
        ensures
            r == self.links_to(*child),
    {
        self.height < u64::MAX && child.parent == self.hash() && child.height == self.height + 1
    }

    /// Verifies that the given headers form a valid chain from this header to the tip.
    pub fn verify_sub_chain(&self, chain: &[Header]) -> (r: bool)
        ensures
            r == self.valid_sub_chain(chain@),
    {
        let mut tip = *self;
        let mut i: usize = 0;
        while i < chain.len()
            invariant
                0 <= i <= chain.len(),
                tip == header_before(*self, chain@, i as int),
                forall|j: int|
                    0 <= j < i ==> (#[trigger] header_before(*self, chain@, j)).links_to(chain@[j]),
            decreases chain.len() - i,
        {
            if !tip.verify_child(&chain[i]) {
                assert(!header_before(*self, chain@, i as int).links_to(chain@[i as int]));
                return false;
            }
            tip = chain[i];
            i = i + 1;
        }
        true
    }
}

/// The header that `chain[i]` must follow: `root` for the first one.
pub open spec fn header_before(root: Header, chain: Seq<Header>, i: int) -> Header {
    if i == 0 {
        root
    } else {
        chain[i - 1]
    }
}

impl Block {
    /// Whether `child` may follow `self`: its header follows, its state is this state plus its
    /// extrinsics, and its extrinsics root is the hash of its body.
    pub open spec fn accepts(self, child: Block) -> bool {
        &&& self.header.links_to(child.header)
        &&& post_state(self.header.state, child.body@) == Some(child.header.state)
        &&& child.header.extrinsics_root == body_root(child.body@)
    }

    /// Whether every block of `chain` follows the one before it, starting from `self`.
    pub open spec fn valid_sub_chain(self, chain: Seq<Block>) -> bool {
        forall|i: int|
            0 <= i < chain.len() ==> (#[trigger] block_before(self, chain, i)).accepts(chain[i])
    }

    /// Returns a new valid genesis block, with no extrinsics.
    pub fn genesis() -> (r: Self)
        ensures
            r.header == Header::genesis_spec(),
            r.body@.len() == 0,
    {
        Block { header: Header::genesis(), body: Vec::new() }
    }

    /// Creates a valid child block that executes `extrinsics`.
    pub fn child(&self, extrinsics: Vec<u64>) -> (r: Self)
        requires
            self.header.height < u64::MAX,
            post_state(self.header.state, extrinsics@) is Some,
        ensures
            self.accepts(r),
            r.body@ == extrinsics@,
    {
        let state = match execute(self.header.state, &extrinsics) {
            Some(s) => s,
            None => 0,
        };
        let root = extrinsics_root(&extrinsics);
        Block { header: self.header.child(root, state), body: extrinsics }
    }

    /// Whether `child` may follow this block.
    pub fn verify_child(&self, child: &Block) -> (r: bool)
        ensures
            r == self.accepts(*child),
    {
        if !self.header.verify_child(&child.header) {
            return false;
        }
        match execute(self.header.state, &child.body) {
            Some(s) => s == child.header.state && extrinsics_root(&child.body)
                == child.header.extrinsics_root,
            None => false,
        }
    }

    /// Verifies that the given blocks form a valid chain from this block to the tip: headers,
    /// execution and extrinsics roots.
    pub fn verify_sub_chain(&self, chain: &[Block]) -> (r: bool)
        ensures
            r == self.valid_sub_chain(chain@),
    {
        let mut i: usize = 0;
        while i < chain.len()
            invariant
                0 <= i <= chain.len(),
                forall|j: int|
                    0 <= j < i ==> (#[trigger] block_before(*self, chain@, j)).accepts(chain@[j]),
            decreases chain.len() - i,
        {
            let ok = if i == 0 {
                self.verify_child(&chain[0])
            } else {
                chain[i - 1].verify_child(&chain[i])
            };
            if !ok {
                assert(!block_before(*self, chain@, i as int).accepts(chain@[i as int]));
                return false;
            }
            i = i + 1;
        }
        true
    }
}

/// The block that `chain[i]` must follow: `root` for the first one.
pub open spec fn block_before(root: Block, chain: Seq<Block>, i: int) -> Block {
    if i == 0 {
        root
    } else {
        chain[i - 1]
    }
}

/// Builds a child of `parent` whose header is valid but whose block is not: the header claims
/// the extrinsics 0 to 5 and a state of 15, while the body holds a single 0.
pub fn build_invalid_child_block_with_valid_header(parent: &Header) -> (r: Block)
    requires
        parent.height < u64::MAX,
    ensures
        parent.links_to(r.header),
        r.header.extrinsics_root == body_root(seq![0u64, 1, 2, 3, 4, 5]),
        r.header.state == 15,
        r.body@ == seq![0u64],
{
    let claimed = vec![0u64, 1, 2, 3, 4, 5];
    let root = extrinsics_root(&claimed);
    let body = vec![0u64];
    assert(claimed@ =~= seq![0u64, 1, 2, 3, 4, 5]);
    assert(body@ =~= seq![0u64]);
    Block { header: parent.child(root, 15), body }
}

} // verus!
