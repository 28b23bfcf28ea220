//! Fork-choice rules over chains of batched headers: which of two chains is better, and the best
//! of many. The chains need not share a genesis; they are assumed valid.
use vstd::prelude::*;
use crate::batched::{Block, Header, extrinsics_root};
use crate::pow_chain::THRESHOLD;

verus! {

/// The work of one header: how far its hash lies below the threshold (negative above it).
pub open spec fn header_work(h: Header) -> int {
    THRESHOLD as int - h.spec_hash() as int
}

/// The accumulated work of a chain: the sum of the work of every header.
pub open spec fn chain_work(chain: Seq<Header>) -> int
    decreases chain.len(),
{
    if chain.len() == 0 {
        0
    } else {
        chain_work(chain.drop_last()) + header_work(chain.last())
    }
}

/// The number of headers of a chain whose hash is even.
pub open spec fn even_hash_count(chain: Seq<Header>) -> int
    decreases chain.len(),
{
    if chain.len() == 0 {
        0
    } else {
        even_hash_count(chain.drop_last()) + if chain.last().spec_hash() % 2 == 0 {
            1int
        } else {
            0
        }
    }
}

/// The chains that the candidates hold.
pub open spec fn chain_views(candidates: Seq<&[Header]>) -> Seq<Seq<Header>> {
    candidates.map_values(|c: &[Header]| c@)
}

/// The index of the winner among the first `n` candidates: the first is the running winner, and
/// each later one replaces it unless the running winner is at least as good by `prefers`.
pub open spec fn winner(
    chains: Seq<Seq<Header>>,
    n: int,
    prefers: spec_fn(Seq<Header>, Seq<Header>) -> bool,
) -> int
    decreases n,
{
    if n <= 1 {
        0
    } else {
        let w = winner(chains, n - 1, prefers);
        if prefers(chains[w], chains[n - 1]) {
            w
        } else {
            n - 1
        }
    }
}

/// Whether a chain is short enough for its work to be summed in an `i128`, as every slice of
/// headers that memory can hold is.
pub open spec fn fits(chain: Seq<Header>) -> bool {
    chain.len() <= i64::MAX
}

/// Judges which chain is best when there are several candidates.
pub trait ForkChoice {
    /// Whether the first chain is at least as good as the second.
    spec fn prefers(chain_1: Seq<Header>, chain_2: Seq<Header>) -> bool;

    /// Compares two chains; ties favour the first.
    fn first_chain_is_better(chain_1: &[Header], chain_2: &[Header]) -> (r: bool)
        requires
            fits(chain_1@),
            fits(chain_2@),
        ensures
            r == Self::prefers(chain_1@, chain_2@),
    ;

    /// Returns the best of the candidates, folding the comparison over them with the first as
    /// the running winner.
    fn best_chain<'a>(candidate_chains: &[&'a [Header]]) -> (r: &'a [Header])
        requires
            candidate_chains@.len() > 0,
            forall|i: int| 0 <= i < candidate_chains@.len() ==> fits(#[trigger] candidate_chains@[i]@),
        ensures
            r@ == chain_views(candidate_chains@)[winner(
                chain_views(candidate_chains@),
                candidate_chains@.len() as int,
                |a: Seq<Header>, b: Seq<Header>| Self::prefers(a, b),
            )],
    {
        let ghost chains = chain_views(candidate_chains@);
        let mut best: &'a [Header] = candidate_chains[0];
        let ghost mut w: int = 0;
        let mut i: usize = 1;
        while i < candidate_chains.len()
            invariant
                1 <= i <= candidate_chains@.len(),
                chains == chain_views(candidate_chains@),
                forall|j: int| 0 <= j < candidate_chains@.len() ==> fits(#[trigger] candidate_chains@[j]@),
                w == winner(chains, i as int, |a: Seq<Header>, b: Seq<Header>| Self::prefers(a, b)),
                0 <= w < i,
                best@ == chains[w],
            decreases candidate_chains@.len() - i,
        {
            let next = candidate_chains[i];
            if !Self::first_chain_is_better(best, next) {
                best = next;
                proof {
                    w = i as int;
                }
            }
            i = i + 1;
        }
        best
    }
}

/// The best chain is the longest.
pub struct LongestChainRule;

impl ForkChoice for LongestChainRule {
    open spec fn prefers(chain_1: Seq<Header>, chain_2: Seq<Header>) -> bool {
        chain_1.len() >= chain_2.len()
    }

    fn first_chain_is_better(chain_1: &[Header], chain_2: &[Header]) -> (r: bool) {
        chain_1.len() >= chain_2.len()
    }
}

/// The best chain has the most accumulated work, where a header's work is the threshold minus
/// its hash.
pub struct HeaviestChainRule;

/// Returns the accumulated work of a chain.
fn total_work(chain: &[Header]) -> (r: i128)
    requires
        fits(chain@),
    ensures
        r == chain_work(chain@),
{
    let mut sum: i128 = 0;
    let mut i: usize = 0;
    while i < chain.len()
        invariant
            0 <= i <= chain@.len(),
            fits(chain@),
            sum == chain_work(chain@.subrange(0, i as int)),
            -(i as int) * 0x1_0000_0000_0000_0000 <= sum <= (i as int) * 0x1_0000_0000_0000_0000,
        decreases chain.len() - i,
    {
        assert(chain@.subrange(0, i + 1).drop_last() =~= chain@.subrange(0, i as int));
        let term = THRESHOLD as i128 - chain[i].hash() as i128;
        assert((i + 1) as int * 0x1_0000_0000_0000_0000 <= 0x8000_0000_0000_0000 * 0x1_0000_0000_0000_0000) by (nonlinear_arith)
            requires i + 1 <= 0x8000_0000_0000_0000;
        sum = sum + term;
        i = i + 1;
    }
    assert(chain@.subrange(0, i as int) =~= chain@);
    sum
}

impl ForkChoice for HeaviestChainRule {
    open spec fn prefers(chain_1: Seq<Header>, chain_2: Seq<Header>) -> bool {
        chain_work(chain_1) >= chain_work(chain_2)
    }

    fn first_chain_is_better(chain_1: &[Header], chain_2: &[Header]) -> (r: bool) {
        total_work(chain_1) >= total_work(chain_2)
    }
}

/// The best chain has the most headers with an even hash.
pub struct MostBlocksWithEvenHash;

/// Returns the number of headers of a chain whose hash is even.
fn count_even_hashes(chain: &[Header]) -> (r: u64)
    requires
        fits(chain@),
    ensures
        r == even_hash_count(chain@),
{
    let mut count: u64 = 0;
    let mut i: usize = 0;
    while i < chain.len()
        invariant
            0 <= i <= chain@.len(),
            fits(chain@),
            count == even_hash_count(chain@.subrange(0, i as int)),
            count <= i,
        decreases chain.len() - i,
    {
        assert(chain@.subrange(0, i + 1).drop_last() =~= chain@.subrange(0, i as int));
        if chain[i].hash() % 2 == 0 {
            count = count + 1;
        }
        i = i + 1;
    }
    assert(chain@.subrange(0, i as int) =~= chain@);
    count
}

impl ForkChoice for MostBlocksWithEvenHash {
    open spec fn prefers(chain_1: Seq<Header>, chain_2: Seq<Header>) -> bool {
        even_hash_count(chain_1) >= even_hash_count(chain_2)
    }

    fn first_chain_is_better(chain_1: &[Header], chain_2: &[Header]) -> (r: bool) {
        count_even_hashes(chain_1) >= count_even_hashes(chain_2)
    }
}

impl Header {
    /// The same header with another nonce.
    pub open spec fn with_nonce(self, nonce: u64) -> Header {
        Header { consensus_digest: nonce, ..self }
    }
}

/// Mines the block's header further, so that its hash falls below `threshold`: tries the nonces
/// upwards from the current one, and leaves the block as it was where none of them reaches it.
pub fn mine_extra_hard(block: &mut Block, threshold: u64)
    ensures
        final(block).body == old(block).body,
        exists|n: u64| final(block).header == old(block).header.with_nonce(n),
        (exists|n: u64|
            n >= old(block).header.consensus_digest && (#[trigger] old(block).header.with_nonce(
                n,
            )).spec_hash() < threshold) ==> final(block).header.spec_hash() < threshold,
{
    let ghost start = block.header;
    let mut trial = block.header;
    assert(trial == start.with_nonce(start.consensus_digest));
    loop
        invariant
            trial == start.with_nonce(trial.consensus_digest),
            trial.consensus_digest >= start.consensus_digest,
            block.header == start,
            block.body == old(block).body,
            start == old(block).header,
            forall|k: u64|
                start.consensus_digest <= k < trial.consensus_digest ==> (#[trigger] start.with_nonce(
                    k,
                )).spec_hash() >= threshold,
        decreases u64::MAX - trial.consensus_digest,
    {
        if trial.hash() < threshold {
            block.header = trial;
            return;
        }
        if trial.consensus_digest == u64::MAX {
            assert(start.with_nonce(start.consensus_digest) == start);
            return;
        }
        trial.consensus_digest = trial.consensus_digest + 1;
    }
}

/// Builds a common prefix and two suffixes on it: a longer one, and a shorter one whose last
/// header is mined to a thousandth of the hash range.
pub fn create_fork_one_side_longer_other_side_heavier() -> (r: (Vec<Header>, Vec<Header>, Vec<Header>))
    ensures
        r.0@.len() == 3 && r.1@.len() == 2 && r.2@.len() == 1,
        r.0@[0] == Header::genesis_spec(),
        r.0@[0].links_to(r.0@[1]) && r.0@[1].links_to(r.0@[2]),
        r.0@[2].links_to(r.1@[0]) && r.1@[0].links_to(r.1@[1]),
        r.0@[2].links_to(r.2@[0]),
{
    let g = Header::genesis();
    let b1 = g.child(extrinsics_root(&vec![2, 3]), 5);
    let b2 = b1.child(extrinsics_root(&vec![4, 5, 6]), 15);
    let b3 = b2.child(extrinsics_root(&vec![7]), 7);
    let b4 = b3.child(extrinsics_root(&vec![8, 9]), 17);
    let mut heavy = Block { header: b2.child(extrinsics_root(&vec![7]), 7), body: vec![7] };
    mine_extra_hard(&mut heavy, u64::MAX / 1000);
    (vec![g, b1, b2], vec![b3, b4], vec![heavy.header])
}

} // verus!
