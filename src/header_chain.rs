//! The simplest chain: headers linked by the hash of their parent, with consecutive heights.
use vstd::prelude::*;
use crate::hashing::{hash_words, words_hash};

verus! {

/// A bare header: a link to its parent and its height.
#[derive(Clone, Copy, Debug, PartialEq, Eq)]
pub struct Header {
    pub parent: u64,
    pub height: u64,
}

impl Header {
    /// The canonical encoding of the header.
    pub open spec fn words(self) -> Seq<u64> {
        seq![self.parent, self.height]
    }

    /// The hash of the header.
    pub open spec fn spec_hash(self) -> u64 {
        words_hash(self.words())
    }

    /// Whether `child` may follow `self`.
    pub open spec fn links_to(self, child: Header) -> bool {
        child.parent == self.spec_hash() && child.height == self.height + 1
    }

    /// Whether every header of `chain` follows the one before it, starting from `self`.
    pub open spec fn valid_sub_chain(self, chain: Seq<Header>) -> bool {
        forall|i: int| 0 <= i < chain.len() ==> #[trigger] link_at(self, chain, i)
    }

    /// Returns the hash of this header.
    pub fn hash(&self) -> (r: u64)
        ensures
            r == self.spec_hash(),
    {
        let words = vec![self.parent, self.height];
        assert(words@ =~= self.words());
        hash_words(&words)
    }

    /// Returns a new valid genesis header.
    pub fn genesis() -> (r: Self)
        ensures
            r.parent == 0,
            r.height == 0,
    {
        Header { parent: 0, height: 0 }
    }

    /// Creates a valid child header.
    pub fn child(&self) -> (r: Self)
        requires
            self.height < u64::MAX,
        ensures
            self.links_to(r),
    {
        Header { parent: self.hash(), height: self.height + 1 }
    }

    /// Whether `child` may follow this header.
    pub fn verify_child(&self, child: &Header) -> (r: bool)
        ensures
            r == self.links_to(*child),
    {
        self.height < u64::MAX && child.parent == self.hash() && child.height == self.height + 1
    }

    /// Verifies that the given headers form a valid chain from this header to the tip.
    pub fn verify_sub_chain(&self, chain: &[Header]) -> (r: bool)
        ensures
            r == self.valid_sub_chain(chain@),
    {
        let mut tip = *self;
        let mut i: usize = 0;
        while i < chain.len()
            invariant
                0 <= i <= chain.len(),
                tip == prev_of(*self, chain@, i as int),
                forall|j: int| 0 <= j < i ==> #[trigger] link_at(*self, chain@, j),
            decreases chain.len() - i,
        {
            if !tip.verify_child(&chain[i]) {
                assert(!link_at(*self, chain@, i as int));
                return false;
            }
            tip = chain[i];
            i = i + 1;
        }
        true
    }
}

/// The header that `chain[i]` must follow: `root` for the first one.
pub open spec fn prev_of(root: Header, chain: Seq<Header>, i: int) -> Header {
    if i == 0 { root } else { chain[i - 1] }
}

/// Whether `chain[i]` follows the header before it.
pub open spec fn link_at(root: Header, chain: Seq<Header>, i: int) -> bool {
    prev_of(root, chain, i).links_to(chain[i])
}

/// Whether `chain` starts with a genesis header and is valid from there.
pub open spec fn valid_from_genesis(chain: Seq<Header>) -> bool {
    &&& chain.len() >= 1
    &&& chain[0] == Header::genesis_spec()
    &&& chain[0].valid_sub_chain(chain.drop_first())
}

impl Header {
    /// The genesis header.
    pub open spec fn genesis_spec() -> Header {
        Header { parent: 0, height: 0 }
    }
}

/// Builds a valid chain of `len` headers, genesis included (a chain always holds genesis).
pub fn build_valid_chain(len: u64) -> (r: Vec<Header>)
    ensures
        r@.len() == (if len == 0 { 1int } else { len as int }),
        valid_from_genesis(r@),
{
    let mut chain: Vec<Header> = vec![Header::genesis()];
    let mut i: u64 = 1;
    while i < len
        invariant
            1 <= i,
            i <= len || (len == 0 && i == 1),
            chain@.len() == i,
            chain@[0] == Header::genesis_spec(),
            forall|j: int| 0 <= j < i ==> (#[trigger] chain@[j]).height == j,
            forall|j: int| 1 <= j < i ==> chain@[j - 1].links_to(#[trigger] chain@[j]),
        decreases len - i,
    {
        let next = chain[chain.len() - 1].child();
        chain.push(next);
        i = i + 1;
    }
    proof {
        let sub = chain@.drop_first();
        assert forall|k: int| 0 <= k < sub.len() implies #[trigger] link_at(chain@[0], sub, k) by {
            assert(chain@[k + 1] == sub[k]);
            if k > 0 {
                assert(chain@[k] == sub[k - 1]);
            }
        }
    }
    chain
}

/// Builds a valid chain of exactly five headers, genesis included.
pub fn build_valid_chain_length_5() -> (r: Vec<Header>)
    ensures
        r@.len() == 5,
        valid_from_genesis(r@),
{
    build_valid_chain(5)
}

/// Builds a chain of three headers that starts at genesis but is not valid: the last height is
/// wrong.
pub fn build_an_invalid_chain() -> (r: Vec<Header>)
    ensures
        r@.len() == 3,
        r@[0] == Header::genesis_spec(),
        !r@[0].valid_sub_chain(r@.drop_first()),
{
    let g = Header::genesis();
    let b1 = g.child();
    let mut b2 = b1.child();
    b2.height = 100;
    let chain = vec![g, b1, b2];
    assert(!link_at(chain@[0], chain@.drop_first(), 1));
    chain
}

/// Builds two distinct valid chains that share their genesis header.
pub fn build_forked_chain() -> (r: (Vec<Header>, Vec<Header>))
    ensures
        valid_from_genesis(r.0@),
        valid_from_genesis(r.1@),
        r.0@ != r.1@,
{
    let g = Header::genesis();
    let b1 = g.child();
    let c1 = vec![g];
    let c2 = vec![g, b1];
    assert(link_at(c2@[0], c2@.drop_first(), 0));
    assert(c1@.len() != c2@.len());
    (c1, c2)
}

} // verus!
