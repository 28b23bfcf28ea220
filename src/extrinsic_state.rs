//! A header chain that carries one extrinsic per header and a running sum as its state.
//!
//! The chain works as an adder: the state starts at zero and each header adds its extrinsic.
use vstd::prelude::*;
use crate::hashing::{hash_words, words_hash};

verus! {

/// A header that embeds its extrinsic and the state after it.
#[derive(Clone, Copy, Debug, PartialEq, Eq)]
pub struct Header {
    pub parent: u64,
    pub height: u64,
    pub extrinsic: u64,
    pub state: u64,
}

impl Header {
    /// The canonical encoding of the header.
    pub open spec fn words(self) -> Seq<u64> {
        seq![self.parent, self.height, self.extrinsic, self.state]
    }

    /// The hash of the header.
    pub open spec fn spec_hash(self) -> u64 {
        words_hash(self.words())
    }

    /// The genesis header.
    pub open spec fn genesis_spec() -> Header {
        Header { parent: 0, height: 0, extrinsic: 0, state: 0 }
    }

    /// Whether `child` may follow `self`: linked, next height, and its state is this state plus
    /// its extrinsic.
    pub open spec fn links_to(self, child: Header) -> bool {
        &&& child.parent == self.spec_hash()
        &&& child.height == self.height + 1
        &&& child.state == self.state + child.extrinsic
    }

    /// Whether every header of `chain` follows the one before it, starting from `self`.
    pub open spec fn valid_sub_chain(self, chain: Seq<Header>) -> bool {
        forall|i: int| 0 <= i < chain.len() ==> #[trigger] link_at(self, chain, i)
    }

    /// Returns the hash of this header.
    pub fn hash(&self) -> (r: u64)
        ensures
            r == self.spec_hash(),
    {
        let words = vec![self.parent, self.height, self.extrinsic, self.state];
        assert(words@ =~= self.words());
        hash_words(&words)
    }

    /// Returns a new valid genesis header.
    pub fn genesis() -> (r: Self)
        ensures
            r == Header::genesis_spec(),
    {
        Header { parent: 0, height: 0, extrinsic: 0, state: 0 }
    }

    /// Creates a valid child header that applies `extrinsic`.
    pub fn child(&self, extrinsic: u64) -> (r: Self)
        requires
            self.height < u64::MAX,
            self.state + extrinsic <= u64::MAX,
        ensures
            self.links_to(r),
            r.extrinsic == extrinsic,
    {
        Header {
            parent: self.hash(),
            height: self.height + 1,
            extrinsic,
            state: self.state + extrinsic,
        }
    }

    /// Whether `child` may follow this header.
    pub fn verify_child(&self, child: &Header) -> (r: bool)
        ensures
            r == self.links_to(*child),
    {
        self.height < u64::MAX && child.parent == self.hash() && child.height == self.height + 1
            && self.state <= u64::MAX - child.extrinsic && child.state == self.state
            + child.extrinsic
    }

    /// Verifies that the given headers form a valid chain from this header to the tip, checking
    /// the state transition of each.
    pub fn verify_sub_chain(&self, chain: &[Header]) -> (r: bool)
        ensures
            r == self.valid_sub_chain(chain@),
    {
        let mut tip = *self;
        let mut i: usize = 0;
        while i < chain.len()
            invariant
                0 <= i <= chain.len(),
                tip == prev_of(*self, chain@, i as int),
                forall|j: int| 0 <= j < i ==> #[trigger] link_at(*self, chain@, j),
            decreases chain.len() - i,
        {
            if !tip.verify_child(&chain[i]) {
                assert(!link_at(*self, chain@, i as int));
                return false;
            }
            tip = chain[i];
            i = i + 1;
        }
        true
    }
}

/// The header that `chain[i]` must follow: `root` for the first one.
pub open spec fn prev_of(root: Header, chain: Seq<Header>, i: int) -> Header {
    if i == 0 {
        root
    } else {
        chain[i - 1]
    }
}

/// Whether `chain[i]` follows the header before it.
pub open spec fn link_at(root: Header, chain: Seq<Header>, i: int) -> bool {
    prev_of(root, chain, i).links_to(chain[i])
}

/// Whether `chain` starts with a genesis header and is valid from there.
pub open spec fn valid_from_genesis(chain: Seq<Header>) -> bool {
    &&& chain.len() >= 1
    &&& chain[0] == Header::genesis_spec()
    &&& chain[0].valid_sub_chain(chain.drop_first())
}

/// Builds a valid chain of `n` headers with empty extrinsics, genesis included (a chain always
/// holds genesis).
pub fn build_valid_chain(n: u64) -> (r: Vec<Header>)
    ensures
        r@.len() == (if n == 0 { 1int } else { n as int }),
        valid_from_genesis(r@),
{
    let mut chain: Vec<Header> = vec![Header::genesis()];
    let mut i: u64 = 1;
    while i < n
        invariant
            1 <= i,
            i <= n || (n == 0 && i == 1),
            chain@.len() == i,
            chain@[0] == Header::genesis_spec(),
            forall|j: int| 0 <= j < i ==> (#[trigger] chain@[j]).height == j && chain@[j].state == 0,
            forall|j: int| 1 <= j < i ==> chain@[j - 1].links_to(#[trigger] chain@[j]),
        decreases n - i,
    {
        let next = chain[chain.len() - 1].child(0);
        chain.push(next);
        i = i + 1;
    }
    proof {
        let sub = chain@.drop_first();
        assert forall|k: int| 0 <= k < sub.len() implies #[trigger] link_at(chain@[0], sub, k) by {
            assert(chain@[k + 1] == sub[k]);
            if k > 0 {
                assert(chain@[k] == sub[k - 1]);
            }
        }
    }
    chain
}

/// Builds a chain of three headers, made only with `genesis` and `child`, that starts at genesis
/// but is not valid: its second header belongs to a fork.
pub fn build_an_invalid_chain() -> (r: Vec<Header>)
    ensures
        r@.len() == 3,
        r@[0] == Header::genesis_spec(),
        !r@[0].valid_sub_chain(r@.drop_first()),
{
    let g = Header::genesis();
    let b1 = g.child(1);
    let b2 = b1.child(2);
    let evil_b1 = g.child(3);
    let chain = vec![g, evil_b1, b2];
    assert(!link_at(chain@[0], chain@.drop_first(), 1));
    chain
}

/// Builds two valid chains that share their genesis header and end in different headers.
pub fn build_forked_chain() -> (r: (Vec<Header>, Vec<Header>))
    ensures
        valid_from_genesis(r.0@),
        valid_from_genesis(r.1@),
        r.0@.last() != r.1@.last(),
{
    let g = Header::genesis();
    let b1 = g.child(1);
    let b2 = b1.child(2);
    let b3 = b2.child(3);
    let b4 = b3.child(4);
    let b3_prime = b2.child(5);
    let b4_prime = b3_prime.child(6);
    let c1 = vec![g, b1, b2, b3, b4];
    let c2 = vec![g, b1, b2, b3_prime, b4_prime];
    proof {
        let s1 = c1@.drop_first();
        let s2 = c2@.drop_first();
        assert(link_at(g, s1, 0) && link_at(g, s1, 1) && link_at(g, s1, 2) && link_at(g, s1, 3));
        assert(link_at(g, s2, 0) && link_at(g, s2, 1) && link_at(g, s2, 2) && link_at(g, s2, 3));
        assert(c1@.last().state != c2@.last().state);
    }
    (c1, c2)
}

} // verus!
