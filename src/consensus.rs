//! The generic header and the consensus abstraction.
//!
//! A header is generic over the digest that its consensus engine attaches. Engines check and
//! produce digests over headers only: they never execute transitions nor check ancestry.
use vstd::prelude::*;
use crate::hashing::{hash_words, words_hash};

verus! {

/// A digest that a consensus engine attaches to a header.
pub trait ConsensusDigest: Copy + Sized {
    /// The canonical encoding of the digest, part of the header's hash.
    spec fn words(self) -> Seq<u64>;

    /// The digest that a genesis header carries.
    spec fn genesis_spec() -> Self;

    /// Returns the canonical encoding of the digest.
    fn encode(&self) -> (r: Vec<u64>)
        ensures
            r@ == self.words(),
    ;

    /// Returns the digest that a genesis header carries.
    fn genesis() -> (r: Self)
        ensures
            r == Self::genesis_spec(),
    ;
}

/// The accounts that identity-based consensus engines know.
#[derive(Clone, Copy, Debug, PartialEq, Eq, Structural)]
pub enum ConsensusAuthority {
    Alice,
    Bob,
    Charlie,
}

impl ConsensusAuthority {
    /// The number that stands for the account in encodings.
    pub open spec fn code(self) -> u64 {
        match self {
            ConsensusAuthority::Alice => 0,
            ConsensusAuthority::Bob => 1,
            ConsensusAuthority::Charlie => 2,
        }
    }

    /// Returns the number that stands for the account in encodings.
    pub fn to_code(&self) -> (r: u64)
        ensures
            r == self.code(),
    {
        match self {
            ConsensusAuthority::Alice => 0,
            ConsensusAuthority::Bob => 1,
            ConsensusAuthority::Charlie => 2,
        }
    }
}

/// The digest of engines that attach nothing to headers.
#[derive(Clone, Copy, Debug, PartialEq, Eq, Structural)]
pub struct NoDigest;

impl ConsensusDigest for NoDigest {
    open spec fn words(self) -> Seq<u64> {
        Seq::empty()
    }

    open spec fn genesis_spec() -> Self {
        NoDigest
    }

    fn encode(&self) -> (r: Vec<u64>) {
        Vec::new()
    }

    fn genesis() -> (r: Self) {
        NoDigest
    }
}

impl ConsensusDigest for u64 {
    open spec fn words(self) -> Seq<u64> {
        seq![self]
    }

    open spec fn genesis_spec() -> Self {
        0
    }

    fn encode(&self) -> (r: Vec<u64>) {
        let v = vec![*self];
        assert(v@ =~= seq![*self]);
        v
    }

    fn genesis() -> (r: Self) {
        0
    }
}

impl ConsensusDigest for ConsensusAuthority {
    open spec fn words(self) -> Seq<u64> {
        seq![self.code()]
    }

    open spec fn genesis_spec() -> Self {
        ConsensusAuthority::Alice
    }

    fn encode(&self) -> (r: Vec<u64>) {
        let v = vec![self.to_code()];
        assert(v@ =~= seq![self.code()]);
        v
    }

    fn genesis() -> (r: Self) {
        ConsensusAuthority::Alice
    }
}

/// A block header, generic over the consensus digest.
#[derive(Clone, Copy, Debug, PartialEq, Eq)]
pub struct Header<D> {
    pub parent: u64,
    pub height: u64,
    pub state_root: u64,
    pub extrinsics_root: u64,
    pub consensus_digest: D,
}

impl<D: ConsensusDigest> Header<D> {
    /// The canonical encoding of the header.
    pub open spec fn words(self) -> Seq<u64> {
        seq![self.parent, self.height, self.state_root, self.extrinsics_root]
            + self.consensus_digest.words()
    }

    /// The hash of the header.
    pub open spec fn spec_hash(self) -> u64 {
        words_hash(self.words())
    }

    /// The genesis header that commits to the given state root.
    pub open spec fn genesis_spec(state_root: u64) -> Self {
        Header {
            parent: 0,
            height: 0,
            state_root,
            extrinsics_root: 0,
            consensus_digest: D::genesis_spec(),
        }
    }

    /// The child that `child` builds: linked to this header, at the next height, with the given
    /// roots and, until it is sealed, this header's digest.
    pub open spec fn child_spec(self, state_root: u64, extrinsics_root: u64) -> Self {
        Header {
            parent: self.spec_hash(),
            height: (self.height + 1) as u64,
            state_root,
            extrinsics_root,
            consensus_digest: self.consensus_digest,
        }
    }

    /// Whether `child` may follow `self`: it names this header's hash as its parent and stands
    /// at the next height.
    pub open spec fn links_to(self, child: Self) -> bool {
        child.parent == self.spec_hash() && child.height == self.height + 1
    }

    /// Whether every header of `chain` follows the one before it, starting from `self`.
    pub open spec fn valid_sub_chain(self, chain: Seq<Self>) -> bool {
        forall|i: int|
            0 <= i < chain.len() ==> (#[trigger] header_before(self, chain, i)).links_to(chain[i])
    }

    /// Whether this header is `partial` with a digest attached.
    pub open spec fn seals(self, partial: Header<()>) -> bool {
        &&& self.parent == partial.parent
        &&& self.height == partial.height
        &&& self.state_root == partial.state_root
        &&& self.extrinsics_root == partial.extrinsics_root
    }

    /// The header without its digest.
    pub open spec fn unsealed(self) -> Header<()> {
        Header {
            parent: self.parent,
            height: self.height,
            state_root: self.state_root,
            extrinsics_root: self.extrinsics_root,
            consensus_digest: (),
        }
    }

    /// Returns the hash of this header.
    pub fn hash(&self) -> (r: u64)
        ensures
            r == self.spec_hash(),
    {
        let mut words = vec![self.parent, self.height, self.state_root, self.extrinsics_root];
        let mut digest = self.consensus_digest.encode();
        words.append(&mut digest);
        assert(words@ =~= self.words());
        hash_words(&words)
    }

    /// Returns a new valid genesis header that commits to the given state root.
    pub fn genesis(genesis_state_root: u64) -> (r: Self)
        ensures
            r == Self::genesis_spec(genesis_state_root),
    {
        Header {
            parent: 0,
            height: 0,
            state_root: genesis_state_root,
            extrinsics_root: 0,
            consensus_digest: D::genesis(),
        }
    }

    /// Creates a child header with the given roots, carrying this header's digest until a
    /// consensus engine seals it.
    pub fn child(&self, state_root: u64, extrinsics_root: u64) -> (r: Self)
        requires
            self.height < u64::MAX,
        ensures
            r == self.child_spec(state_root, extrinsics_root),
    {
        Header {
            parent: self.hash(),
            height: self.height + 1,
            state_root,
            extrinsics_root,
            consensus_digest: self.consensus_digest,
        }
    }

    /// Whether `child` may follow this header.
    pub fn verify_child(&self, child: &Self) -> (r: bool)
        ensures
            r == self.links_to(*child),
    {
        self.height < u64::MAX && child.parent == self.hash() && child.height == self.height + 1
    }

    /// Verifies that the given headers form a valid chain from this header to the tip.
    pub fn verify_sub_chain(&self, chain: &[Self]) -> (r: bool)
        ensures
            r == self.valid_sub_chain(chain@),
    {
        let mut tip = *self;
        let mut i: usize = 0;
        while i < chain.len()
            invariant
                0 <= i <= chain.len(),
                tip == header_before(*self, chain@, i as int),
                forall|j: int|
                    0 <= j < i ==> (#[trigger] header_before(*self, chain@, j)).links_to(chain@[j]),
            decreases chain.len() - i,
        {
            if !tip.verify_child(&chain[i]) {
                assert(!header_before(*self, chain@, i as int).links_to(chain@[i as int]));
                return false;
            }
            tip = chain[i];
            i = i + 1;
        }
        true
    }

    /// Returns the header without its digest, ready to be sealed.
    pub fn to_unsealed(&self) -> (r: Header<()>)
        ensures
            r == self.unsealed(),
    {
        Header {
            parent: self.parent,
            height: self.height,
            state_root: self.state_root,
            extrinsics_root: self.extrinsics_root,
            consensus_digest: (),
        }
    }
}

impl Header<()> {
    /// The header with the given digest attached.
    pub open spec fn sealed_with<D>(self, digest: D) -> Header<D> {
        Header {
            parent: self.parent,
            height: self.height,
            state_root: self.state_root,
            extrinsics_root: self.extrinsics_root,
            consensus_digest: digest,
        }
    }

    /// Returns the header with the given digest attached.
    pub fn with_digest<D>(&self, digest: D) -> (r: Header<D>)
        ensures
            r == self.sealed_with(digest),
    {
        Header {
            parent: self.parent,
            height: self.height,
            state_root: self.state_root,
            extrinsics_root: self.extrinsics_root,
            consensus_digest: digest,
        }
    }
}

/// The header that `chain[i]` must follow: `root` for the first one.
pub open spec fn header_before<D>(root: Header<D>, chain: Seq<Header<D>>, i: int) -> Header<D> {
    if i == 0 {
        root
    } else {
        chain[i - 1]
    }
}

/// A child header is always accepted by its parent, one height above it.
pub proof fn lemma_child_verifies<D: ConsensusDigest>(
    header: Header<D>,
    state_root: u64,
    extrinsics_root: u64,
)
    requires
        header.height < u64::MAX,
    ensures
        header.links_to(header.child_spec(state_root, extrinsics_root)),
        header.child_spec(state_root, extrinsics_root).height == header.height + 1,
{
}

/// Every suffix of a valid chain is valid when verified from its own first header.
pub proof fn lemma_suffix_valid<D: ConsensusDigest>(root: Header<D>, chain: Seq<Header<D>>, k: int)
    requires
        root.valid_sub_chain(chain),
        0 <= k < chain.len(),
    ensures
        chain[k].valid_sub_chain(chain.subrange(k + 1, chain.len() as int)),
{
    let suffix = chain.subrange(k + 1, chain.len() as int);
    assert forall|i: int| 0 <= i < suffix.len() implies (#[trigger] header_before(
        chain[k],
        suffix,
        i,
    )).links_to(suffix[i]) by {
        assert(header_before(root, chain, k + 1 + i).links_to(chain[k + 1 + i]));
    }
}

/// A consensus engine: checks and produces the consensus digests of headers.
pub trait Consensus {
    /// The digest that this engine attaches to headers.
    type Digest: ConsensusDigest;

    /// Whether `header` is valid at the consensus layer, given its parent's digest.
    spec fn valid(&self, parent_digest: Self::Digest, header: Header<Self::Digest>) -> bool;

    /// Whether the engine is fit for use (its parameters make sense).
    spec fn well_formed(&self) -> bool;

    /// Checks consensus-layer legitimacy only: work, signer, slot ordering.
    fn validate(&self, parent_digest: &Self::Digest, header: &Header<Self::Digest>) -> (r: bool)
        requires
            self.well_formed(),
        ensures
            r == self.valid(*parent_digest, *header),
    ;

    /// Attaches a valid digest to the partial header, where the engine can.
    fn seal(&self, parent_digest: &Self::Digest, partial_header: Header<()>) -> (r: Option<
        Header<Self::Digest>,
    >)
        requires
            self.well_formed(),
        ensures
            r matches Some(h) ==> h.seals(partial_header) && self.valid(*parent_digest, h),
    ;

    /// Verifies every header of `chain` at the consensus layer, each against the digest of the
    /// header before it, the first against `parent_digest`.
    fn verify_sub_chain(&self, parent_digest: &Self::Digest, chain: &[Header<Self::Digest>]) -> (r:
        bool)
        requires
            self.well_formed(),
        ensures
            r == (forall|i: int|
                0 <= i < chain@.len() ==> self.valid(
                    #[trigger] digest_before(*parent_digest, chain@, i),
                    chain@[i],
                )),
    {
        let mut i: usize = 0;
        while i < chain.len()
            invariant
                0 <= i <= chain@.len(),
                self.well_formed(),
                forall|j: int|
                    0 <= j < i ==> self.valid(
                        #[trigger] digest_before(*parent_digest, chain@, j),
                        chain@[j],
                    ),
            decreases chain.len() - i,
        {
            let ok = if i == 0 {
                self.validate(parent_digest, &chain[0])
            } else {
                self.validate(&chain[i - 1].consensus_digest, &chain[i])
            };
            if !ok {
                assert(!self.valid(digest_before(*parent_digest, chain@, i as int), chain@[i as int]));
                return false;
            }
            i = i + 1;
        }
        true
    }
}

/// The digest that `chain[i]` is checked against: `parent_digest` for the first header.
pub open spec fn digest_before<D>(parent_digest: D, chain: Seq<Header<D>>, i: int) -> D {
    if i == 0 {
        parent_digest
    } else {
        chain[i - 1].consensus_digest
    }
}

} // verus!
