//! The adder chain secured by proof of work, and two rival rule sets that a contentious fork at
//! `FORK_HEIGHT` introduced: one that wants even states after the fork, one that wants odd ones.
use vstd::prelude::*;
use crate::hashing::{hash_words, words_hash};

verus! {

/// A header's hash must stay below this for its proof of work to count (about 1 in 100 nonces).
pub const THRESHOLD: u64 = 0x028F_5C28_F5C2_8F5C;

/// The first height above which the rival rule sets differ.
pub const FORK_HEIGHT: u64 = 2;

/// A header with an extrinsic, the state after it and a proof-of-work nonce.
#[derive(Clone, Copy, Debug, PartialEq, Eq)]
pub struct Header {
    pub parent: u64,
    pub height: u64,
    pub extrinsic: u64,
    pub state: u64,
    pub consensus_digest: u64,
}

impl Header {
    /// The canonical encoding of the header.
    pub open spec fn words(self) -> Seq<u64> {
        seq![self.parent, self.height, self.extrinsic, self.state, self.consensus_digest]
    }

    /// The hash of the header.
    pub open spec fn spec_hash(self) -> u64 {
        words_hash(self.words())
    }

    /// The genesis header. Its nonce is zero by convention and needs no work.
    pub open spec fn genesis_spec() -> Header {
        Header { parent: 0, height: 0, extrinsic: 0, state: 0, consensus_digest: 0 }
    }

    /// The same header with another nonce.
    pub open spec fn with_nonce(self, nonce: u64) -> Header {
        Header { consensus_digest: nonce, ..self }
    }

    /// Whether the header carries enough work.
    pub open spec fn meets_pow(self) -> bool {
        self.spec_hash() < THRESHOLD
    }

    /// Whether some nonce gives this header enough work.
    pub open spec fn can_be_sealed(self) -> bool {
        exists|n: u64| #[trigger] self.with_nonce(n).meets_pow()
    }

    /// Whether `child` is linked to `self`, at the next height, with the state transition
    /// applied; work is not looked at.
    pub open spec fn links_to(self, child: Header) -> bool {
        &&& child.parent == self.spec_hash()
        &&& child.height == self.height + 1
        &&& child.state == self.state + child.extrinsic
    }

    /// Whether `child` may follow `self` under the base rules.
    pub open spec fn accepts(self, child: Header) -> bool {
        self.links_to(child) && child.meets_pow()
    }

    /// Whether every header of `chain` follows the one before it, starting from `self`.
    pub open spec fn valid_sub_chain(self, chain: Seq<Header>) -> bool {
        forall|i: int| 0 <= i < chain.len() ==> #[trigger] link_at(self, chain, i)
    }

    /// The base rules, and an even state at every height above the fork.
    pub open spec fn valid_sub_chain_even(self, chain: Seq<Header>) -> bool {
        &&& self.valid_sub_chain(chain)
        &&& forall|i: int|
            0 <= i < chain.len() && #[trigger] chain[i].height > FORK_HEIGHT ==> chain[i].state
                % 2 == 0
    }

    /// The base rules, and an odd state at every height above the fork.
    pub open spec fn valid_sub_chain_odd(self, chain: Seq<Header>) -> bool {
        &&& self.valid_sub_chain(chain)
        &&& forall|i: int|
            0 <= i < chain.len() && #[trigger] chain[i].height > FORK_HEIGHT ==> chain[i].state
                % 2 == 1
    }

    /// Returns the hash of this header.
    pub fn hash(&self) -> (r: u64)
        ensures
            r == self.spec_hash(),
    {
        let words = vec![
            self.parent,
            self.height,
            self.extrinsic,
            self.state,
            self.consensus_digest,
        ];
        assert(words@ =~= self.words());
        hash_words(&words)
    }

    /// Returns a new valid genesis header.
    pub fn genesis() -> (r: Self)
        ensures
            r == Header::genesis_spec(),
    {
        Header { parent: 0, height: 0, extrinsic: 0, state: 0, consensus_digest: 0 }
    }

    /// Creates a child header that applies `extrinsic`, and mines it: its nonce is the least one
    /// that gives enough work, or zero where no nonce does.
    pub fn child(&self, extrinsic: u64) -> (r: Self)
        requires
            self.height < u64::MAX,
            self.state + extrinsic <= u64::MAX,
        ensures
            self.links_to(r),
            r.extrinsic == extrinsic,
            r.can_be_sealed() ==> r.meets_pow(),
    {
        let mut header = Header {
            parent: self.hash(),
            height: self.height + 1,
            extrinsic,
            state: self.state + extrinsic,
            consensus_digest: 0,
        };
        match solve_pow(&header) {
            Some(nonce) => {
                header.consensus_digest = nonce;
            },
            None => {},
        }
        header
    }

    /// Whether `child` may follow this header under the base rules.
    pub fn verify_child(&self, child: &Header) -> (r: bool)
        ensures
            r == self.accepts(*child),
    {
        self.height < u64::MAX && child.parent == self.hash() && child.height == self.height + 1
            && self.state <= u64::MAX - child.extrinsic && child.state == self.state
            + child.extrinsic && verify_pow(child)
    }

    /// Verifies that the given headers form a valid chain from this header to the tip.
    pub fn verify_sub_chain(&self, chain: &[Header]) -> (r: bool)
        ensures
            r == self.valid_sub_chain(chain@),
    {
        self.verify_sub_chain_with_parity(chain, None)
    }

    /// Verifies the chain under the rules of the even side of the fork.
    pub fn verify_sub_chain_even(&self, chain: &[Header]) -> (r: bool)
        ensures
            r == self.valid_sub_chain_even(chain@),
    {
        self.verify_sub_chain_with_parity(chain, Some(0))
    }

    /// Verifies the chain under the rules of the odd side of the fork.
    pub fn verify_sub_chain_odd(&self, chain: &[Header]) -> (r: bool)
        ensures
            r == self.valid_sub_chain_odd(chain@),
    {
        self.verify_sub_chain_with_parity(chain, Some(1))
    }

    /// Verifies the chain, and where `parity` is given, that every state above the fork has it.
    fn verify_sub_chain_with_parity(&self, chain: &[Header], parity: Option<u64>) -> (r: bool)
        requires
            parity matches Some(p) ==> p < 2,
        ensures
            r == (self.valid_sub_chain(chain@) && match parity {
                Some(p) => forall|i: int|
                    0 <= i < chain@.len() && #[trigger] chain@[i].height > FORK_HEIGHT
                        ==> chain@[i].state % 2 == p,
                None => true,
            }),
    {
        let mut tip = *self;
        let mut i: usize = 0;
        while i < chain.len()
            invariant
                0 <= i <= chain.len(),
                parity matches Some(p) ==> p < 2,
                tip == prev_of(*self, chain@, i as int),
                forall|j: int| 0 <= j < i ==> #[trigger] link_at(*self, chain@, j),
                match parity {
                    Some(p) => forall|j: int|
                        0 <= j < i && #[trigger] chain@[j].height > FORK_HEIGHT ==> chain@[j].state
                            % 2 == p,
                    None => true,
                },
            decreases chain.len() - i,
        {
            let next = chain[i];
            if !tip.verify_child(&next) {
                assert(!link_at(*self, chain@, i as int));
                return false;
            }
            match parity {
                Some(p) => {
                    if next.height > FORK_HEIGHT && next.state % 2 != p {
                        return false;
                    }
                },
                None => {},
            }
            tip = next;
            i = i + 1;
        }
        true
    }
}

/// The header that `chain[i]` must follow: `root` for the first one.
pub open spec fn prev_of(root: Header, chain: Seq<Header>, i: int) -> Header {
    if i == 0 {
        root
    } else {
        chain[i - 1]
    }
}

/// Whether `chain[i]` follows the header before it.
pub open spec fn link_at(root: Header, chain: Seq<Header>, i: int) -> bool {
    prev_of(root, chain, i).accepts(chain[i])
}

/// Whether the header's hash is below `THRESHOLD`.
pub fn verify_pow(header: &Header) -> (r: bool)
    ensures
        r == header.meets_pow(),
{
    header.hash() < THRESHOLD
}

/// Searches the nonces upwards from zero for one that gives the header enough work; `None` where
/// no nonce does.
pub fn solve_pow(header: &Header) -> (r: Option<u64>)
    ensures
        r matches Some(n) ==> header.with_nonce(n).meets_pow() && forall|k: u64|
            k < n ==> !(#[trigger] header.with_nonce(k)).meets_pow(),
        r is None <==> !header.can_be_sealed(),
{
    let mut trial = *header;
    let mut nonce: u64 = 0;
    trial.consensus_digest = nonce;
    loop
        invariant
            trial == header.with_nonce(nonce),
            forall|k: u64| k < nonce ==> !(#[trigger] header.with_nonce(k)).meets_pow(),
        decreases u64::MAX - nonce,
    {
        if verify_pow(&trial) {
            return Some(nonce);
        }
        if nonce == u64::MAX {
            assert forall|n: u64| !(#[trigger] header.with_nonce(n)).meets_pow() by {
                if n == nonce {
                } else {
                    assert(n < nonce);
                }
            }
            return None;
        }
        nonce = nonce + 1;
        trial.consensus_digest = nonce;
    }
}

/// Builds a common prefix from genesis to the fork height, then an even suffix and an odd suffix
/// on top of it, each mined with `child`.
pub fn build_contentious_forked_chain() -> (r: (Vec<Header>, Vec<Header>, Vec<Header>))
    ensures
        r.0@.len() == 3 && r.1@.len() == 2 && r.2@.len() == 2,
        r.0@[0] == Header::genesis_spec(),
        r.0@[0].links_to(r.0@[1]) && r.0@[1].links_to(r.0@[2]),
        r.0@[2].links_to(r.1@[0]) && r.1@[0].links_to(r.1@[1]),
        r.0@[2].links_to(r.2@[0]) && r.2@[0].links_to(r.2@[1]),
        r.0@[2].height == FORK_HEIGHT,
        forall|i: int| 0 <= i < 2 ==> (#[trigger] r.1@[i]).state % 2 == 0 && r.2@[i].state % 2 == 1,
{
    let g = Header::genesis();
    let b1 = g.child(2);
    let b2 = b1.child(1);
    let even_b3 = b2.child(1);
    let even_b4 = even_b3.child(2);
    let odd_b3 = b2.child(2);
    let odd_b4 = odd_b3.child(2);
    (vec![g, b1, b2], vec![even_b3, even_b4], vec![odd_b3, odd_b4])
}

} // verus!
