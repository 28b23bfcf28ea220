//! Consensus engines: proof of work, identity-based engines and engines that decorate others.
use vstd::prelude::*;
use crate::consensus::{Consensus, ConsensusAuthority, ConsensusDigest, Header, NoDigest};

verus! {

/// An engine that considers every header valid and attaches nothing.
pub struct TrivialConsensus;

impl Consensus for TrivialConsensus {
    type Digest = NoDigest;

    open spec fn valid(&self, parent_digest: NoDigest, header: Header<NoDigest>) -> bool {
        true
    }

    open spec fn well_formed(&self) -> bool {
        true
    }

    fn validate(&self, parent_digest: &NoDigest, header: &Header<NoDigest>) -> (r: bool) {
        true
    }

    fn seal(&self, parent_digest: &NoDigest, partial_header: Header<()>) -> (r: Option<
        Header<NoDigest>,
    >)
        ensures
            r == Some(partial_header.sealed_with(NoDigest)),
    {
        Some(partial_header.with_digest(NoDigest))
    }
}

/// Proof of work: the digest is a nonce, and a header is valid when its hash is below the
/// threshold.
#[derive(Clone, Copy, Debug)]
pub struct Pow {
    pub threshold: u64,
}

impl Pow {
    /// Whether some nonce seals the partial header under this engine.
    pub open spec fn can_seal(&self, partial_header: Header<()>) -> bool {
        exists|n: u64| #[trigger] partial_header.sealed_with(n).spec_hash() < self.threshold
    }
}

impl Consensus for Pow {
    type Digest = u64;

    open spec fn valid(&self, parent_digest: u64, header: Header<u64>) -> bool {
        header.spec_hash() < self.threshold
    }

    open spec fn well_formed(&self) -> bool {
        true
    }

    /// Checks that the header's hash is below the threshold; the parent digest plays no part.
    fn validate(&self, parent_digest: &u64, header: &Header<u64>) -> (r: bool) {
        header.hash() < self.threshold
    }

    /// Searches the nonces upwards from zero and seals with the first that reaches the
    /// threshold; `None` only where no nonce does.
    fn seal(&self, parent_digest: &u64, partial_header: Header<()>) -> (r: Option<Header<u64>>)
        ensures
            r is None <==> !self.can_seal(partial_header),
            r matches Some(h) ==> forall|k: u64|
                k < h.consensus_digest ==> (#[trigger] partial_header.sealed_with(k)).spec_hash()
                    >= self.threshold,
    {
        let mut nonce: u64 = 0;
        loop
            invariant
                forall|k: u64|
                    k < nonce ==> (#[trigger] partial_header.sealed_with(k)).spec_hash()
                        >= self.threshold,
            decreases u64::MAX - nonce,
        {
            let trial = partial_header.with_digest(nonce);
            if trial.hash() < self.threshold {
                return Some(trial);
            }
            if nonce == u64::MAX {
                assert forall|n: u64|
                    (#[trigger] partial_header.sealed_with(n)).spec_hash() >= self.threshold by {
                    if n < nonce {
                    }
                }
                return None;
            }
            nonce = nonce + 1;
        }
    }
}

/// Returns a proof-of-work engine under which about 1 in 100 nonces is valid.
pub fn moderate_difficulty_pow() -> (r: Pow)
    ensures
        r.threshold == u64::MAX / 100,
{
    Pow { threshold: u64::MAX / 100 }
}

/// Returns a proof-of-work engine whose threshold is the largest there is, so that every hash
/// but the largest is valid.
pub fn trivial_always_valid_pow() -> (r: Pow)
    ensures
        r.threshold == u64::MAX,
{
    Pow { threshold: u64::MAX }
}

/// An engine under which only the dictator may sign.
#[derive(Clone, Copy, Debug)]
pub struct DictatorConsensus {
    pub dictator: ConsensusAuthority,
}

impl Consensus for DictatorConsensus {
    type Digest = ConsensusAuthority;

    open spec fn valid(&self, parent_digest: ConsensusAuthority, header: Header<
        ConsensusAuthority,
    >) -> bool {
        header.consensus_digest == self.dictator
    }

    open spec fn well_formed(&self) -> bool {
        true
    }

    fn validate(&self, parent_digest: &ConsensusAuthority, header: &Header<ConsensusAuthority>) -> (r:
        bool) {
        header.consensus_digest == self.dictator
    }

    fn seal(&self, parent_digest: &ConsensusAuthority, partial_header: Header<()>) -> (r: Option<
        Header<ConsensusAuthority>,
    >)
        ensures
            r == Some(partial_header.sealed_with(self.dictator)),
    {
        Some(partial_header.with_digest(self.dictator))
    }
}

/// Returns whether `who` is among `authorities`.
fn is_authority(authorities: &Vec<ConsensusAuthority>, who: ConsensusAuthority) -> (r: bool)
    ensures
        r == authorities@.contains(who),
{
    let mut i: usize = 0;
    while i < authorities.len()
        invariant
            0 <= i <= authorities@.len(),
            forall|j: int| 0 <= j < i ==> authorities@[j] != who,
        decreases authorities.len() - i,
    {
        if authorities[i] == who {
            return true;
        }
        i = i + 1;
    }
    false
}

/// Proof of authority: any of the authorities may sign.
#[derive(Clone, Debug)]
pub struct SimplePoa {
    pub authorities: Vec<ConsensusAuthority>,
}

impl Consensus for SimplePoa {
    type Digest = ConsensusAuthority;

    open spec fn valid(&self, parent_digest: ConsensusAuthority, header: Header<
        ConsensusAuthority,
    >) -> bool {
        self.authorities@.contains(header.consensus_digest)
    }

    open spec fn well_formed(&self) -> bool {
        true
    }

    fn validate(&self, parent_digest: &ConsensusAuthority, header: &Header<ConsensusAuthority>) -> (r:
        bool) {
        is_authority(&self.authorities, header.consensus_digest)
    }

    /// Signs as the first authority; `None` where there is none.
    fn seal(&self, parent_digest: &ConsensusAuthority, partial_header: Header<()>) -> (r: Option<
        Header<ConsensusAuthority>,
    >)
        ensures
            r is None <==> self.authorities@.len() == 0,
            r matches Some(h) ==> h.consensus_digest == self.authorities@[0],
    {
        if self.authorities.len() == 0 {
            return None;
        }
        let signer = self.authorities[0];
        assert(self.authorities@.contains(signer));
        Some(partial_header.with_digest(signer))
    }
}

/// Proof of authority where the authorities take turns by height.
#[derive(Clone, Debug)]
pub struct PoaRoundRobinByHeight {
    pub authorities: Vec<ConsensusAuthority>,
}

impl PoaRoundRobinByHeight {
    /// The authority whose turn it is at `height`.
    pub open spec fn scheduled(&self, height: u64) -> ConsensusAuthority {
        self.authorities@[(height % (self.authorities@.len() as u64)) as int]
    }
}

impl Consensus for PoaRoundRobinByHeight {
    type Digest = ConsensusAuthority;

    open spec fn valid(&self, parent_digest: ConsensusAuthority, header: Header<
        ConsensusAuthority,
    >) -> bool {
        self.authorities@.len() > 0 && header.consensus_digest == self.scheduled(header.height)
    }

    open spec fn well_formed(&self) -> bool {
        true
    }

    fn validate(&self, parent_digest: &ConsensusAuthority, header: &Header<ConsensusAuthority>) -> (r:
        bool) {
        if self.authorities.len() == 0 {
            return false;
        }
        let index = (header.height % (self.authorities.len() as u64)) as usize;
        header.consensus_digest == self.authorities[index]
    }

    /// Signs as the authority whose turn it is; `None` where there are no authorities.
    fn seal(&self, parent_digest: &ConsensusAuthority, partial_header: Header<()>) -> (r: Option<
        Header<ConsensusAuthority>,
    >)
        ensures
            r is None <==> self.authorities@.len() == 0,
    {
        if self.authorities.len() == 0 {
            return None;
        }
        let index = (partial_header.height % (self.authorities.len() as u64)) as usize;
        Some(partial_header.with_digest(self.authorities[index]))
    }
}

/// With Alice and Bob as authorities in turn by height, Alice must sign the even heights and Bob
/// the odd ones, and no other signer is valid.
pub proof fn lemma_round_robin_alice_bob(
    engine: PoaRoundRobinByHeight,
    parent_digest: ConsensusAuthority,
    header: Header<ConsensusAuthority>,
)
    requires
        engine.authorities@ == seq![ConsensusAuthority::Alice, ConsensusAuthority::Bob],
    ensures
        engine.valid(parent_digest, header) <==> header.consensus_digest == if header.height % 2
            == 0 {
            ConsensusAuthority::Alice
        } else {
            ConsensusAuthority::Bob
        },
{
}

/// The digest of slot-based proof of authority: the slot and the signer.
#[derive(Clone, Copy, Debug, PartialEq, Eq)]
pub struct SlotDigest {
    pub slot: u64,
    pub signature: ConsensusAuthority,
}

impl ConsensusDigest for SlotDigest {
    open spec fn words(self) -> Seq<u64> {
        seq![self.slot, self.signature.code()]
    }

    open spec fn genesis_spec() -> Self {
        SlotDigest { slot: 0, signature: ConsensusAuthority::Alice }
    }

    fn encode(&self) -> (r: Vec<u64>) {
        let v = vec![self.slot, self.signature.to_code()];
        assert(v@ =~= self.words());
        v
    }

    fn genesis() -> (r: Self) {
        SlotDigest { slot: 0, signature: ConsensusAuthority::Alice }
    }
}

/// Proof of authority where the authorities take turns by slot. Slots may be skipped but never
/// repeated nor reversed.
#[derive(Clone, Debug)]
pub struct PoaRoundRobinBySlot {
    pub authorities: Vec<ConsensusAuthority>,
}

impl PoaRoundRobinBySlot {
    /// The authority whose turn it is in `slot`.
    pub open spec fn scheduled(&self, slot: u64) -> ConsensusAuthority {
        self.authorities@[(slot % (self.authorities@.len() as u64)) as int]
    }
}

impl Consensus for PoaRoundRobinBySlot {
    type Digest = SlotDigest;

    open spec fn valid(&self, parent_digest: SlotDigest, header: Header<SlotDigest>) -> bool {
        &&& self.authorities@.len() > 0
        &&& header.consensus_digest.slot > parent_digest.slot
        &&& header.consensus_digest.signature == self.scheduled(header.consensus_digest.slot)
    }

    open spec fn well_formed(&self) -> bool {
        true
    }

    fn validate(&self, parent_digest: &SlotDigest, header: &Header<SlotDigest>) -> (r: bool) {
        if self.authorities.len() == 0 {
            return false;
        }
        let slot = header.consensus_digest.slot;
        let index = (slot % (self.authorities.len() as u64)) as usize;
        slot > parent_digest.slot && header.consensus_digest.signature == self.authorities[index]
    }

    /// Signs in the slot right after the parent's, as the authority of that slot; `None` where
    /// there are no authorities or no later slot.
    fn seal(&self, parent_digest: &SlotDigest, partial_header: Header<()>) -> (r: Option<
        Header<SlotDigest>,
    >)
        ensures
            r is None <==> self.authorities@.len() == 0 || parent_digest.slot == u64::MAX,
            r matches Some(h) ==> h.consensus_digest.slot == parent_digest.slot + 1,
    {
        if self.authorities.len() == 0 || parent_digest.slot == u64::MAX {
            return None;
        }
        let slot = parent_digest.slot + 1;
        let index = (slot % (self.authorities.len() as u64)) as usize;
        Some(partial_header.with_digest(SlotDigest { slot, signature: self.authorities[index] }))
    }
}

/// An engine that also requires an even state root, on top of the rules of the engine inside.
pub struct EvenOnly<Inner: Consensus> {
    pub inner: Inner,
}

impl<Inner: Consensus> Consensus for EvenOnly<Inner> {
    type Digest = Inner::Digest;

    open spec fn valid(&self, parent_digest: Inner::Digest, header: Header<Inner::Digest>) -> bool {
        header.state_root % 2 == 0 && self.inner.valid(parent_digest, header)
    }

    open spec fn well_formed(&self) -> bool {
        self.inner.well_formed()
    }

    fn validate(&self, parent_digest: &Inner::Digest, header: &Header<Inner::Digest>) -> (r: bool) {
        if header.state_root % 2 != 0 {
            return false;
        }
        self.inner.validate(parent_digest, header)
    }

    /// Refuses to seal a header with an odd state root; otherwise the engine inside seals.
    fn seal(&self, parent_digest: &Inner::Digest, partial_header: Header<()>) -> (r: Option<
        Header<Inner::Digest>,
    >)
        ensures
            partial_header.state_root % 2 == 1 ==> r is None,
            partial_header.state_root % 2 == 0 ==> call_ensures(
                Inner::seal,
                (&self.inner, parent_digest, partial_header),
                r,
            ),
    {
        if partial_header.state_root % 2 != 0 {
            return None;
        }
        self.inner.seal(parent_digest, partial_header)
    }
}

/// The digest of engines that mix proof of work and proof of authority.
#[derive(Clone, Copy, Debug, PartialEq, Eq)]
pub enum PowOrPoaDigest {
    Pow(u64),
    Poa(ConsensusAuthority),
}

impl ConsensusDigest for PowOrPoaDigest {
    open spec fn words(self) -> Seq<u64> {
        match self {
            PowOrPoaDigest::Pow(nonce) => seq![0, nonce],
            PowOrPoaDigest::Poa(a) => seq![1, a.code()],
        }
    }

    open spec fn genesis_spec() -> Self {
        PowOrPoaDigest::Pow(0)
    }

    fn encode(&self) -> (r: Vec<u64>) {
        let v = match self {
            PowOrPoaDigest::Pow(nonce) => vec![0, *nonce],
            PowOrPoaDigest::Poa(a) => vec![1, a.to_code()],
        };
        assert(v@ =~= self.words());
        v
    }

    fn genesis() -> (r: Self) {
        PowOrPoaDigest::Pow(0)
    }
}

/// Proof of work seen through the mixed digest: only a `Pow` digest can be valid.
pub struct MixedPow {
    pub pow: Pow,
}

impl Consensus for MixedPow {
    type Digest = PowOrPoaDigest;

    open spec fn valid(&self, parent_digest: PowOrPoaDigest, header: Header<PowOrPoaDigest>) -> bool {
        match header.consensus_digest {
            PowOrPoaDigest::Pow(nonce) => self.pow.valid(0, header.unsealed().sealed_with(nonce)),
            PowOrPoaDigest::Poa(_) => false,
        }
    }

    open spec fn well_formed(&self) -> bool {
        true
    }

    fn validate(&self, parent_digest: &PowOrPoaDigest, header: &Header<PowOrPoaDigest>) -> (r:
        bool) {
        match header.consensus_digest {
            PowOrPoaDigest::Pow(nonce) => self.pow.validate(
                &0,
                &header.to_unsealed().with_digest(nonce),
            ),
            PowOrPoaDigest::Poa(_) => false,
        }
    }

    fn seal(&self, parent_digest: &PowOrPoaDigest, partial_header: Header<()>) -> (r: Option<
        Header<PowOrPoaDigest>,
    >)
        ensures
            r is None <==> !self.pow.can_seal(partial_header),
    {
        match self.pow.seal(&0, partial_header) {
            Some(h) => {
                let lifted = partial_header.with_digest(PowOrPoaDigest::Pow(h.consensus_digest));
                assert(lifted.unsealed().sealed_with(h.consensus_digest) == h);
                Some(lifted)
            },
            None => None,
        }
    }
}

/// Proof of authority seen through the mixed digest: only a `Poa` digest can be valid.
pub struct MixedPoa {
    pub poa: SimplePoa,
}

impl Consensus for MixedPoa {
    type Digest = PowOrPoaDigest;

    open spec fn valid(&self, parent_digest: PowOrPoaDigest, header: Header<PowOrPoaDigest>) -> bool {
        match header.consensus_digest {
            PowOrPoaDigest::Pow(_) => false,
            PowOrPoaDigest::Poa(a) => self.poa.valid(
                ConsensusAuthority::Alice,
                header.unsealed().sealed_with(a),
            ),
        }
    }

    open spec fn well_formed(&self) -> bool {
        true
    }

    fn validate(&self, parent_digest: &PowOrPoaDigest, header: &Header<PowOrPoaDigest>) -> (r:
        bool) {
        match header.consensus_digest {
            PowOrPoaDigest::Pow(_) => false,
            PowOrPoaDigest::Poa(a) => self.poa.validate(
                &ConsensusAuthority::Alice,
                &header.to_unsealed().with_digest(a),
            ),
        }
    }

    fn seal(&self, parent_digest: &PowOrPoaDigest, partial_header: Header<()>) -> (r: Option<
        Header<PowOrPoaDigest>,
    >)
        ensures
            r is None <==> self.poa.authorities@.len() == 0,
    {
        match self.poa.seal(&ConsensusAuthority::Alice, partial_header) {
            Some(h) => Some(partial_header.with_digest(PowOrPoaDigest::Poa(h.consensus_digest))),
            None => None,
        }
    }
}

/// An engine that alternates: odd heights follow proof of work, even heights proof of
/// authority. A digest of the wrong kind for its height is invalid.
pub struct AlternatingPowPoa {
    pub pow: MixedPow,
    pub poa: MixedPoa,
}

impl AlternatingPowPoa {
    /// Returns the engine with the given work threshold and authorities.
    pub fn new(threshold: u64, authorities: Vec<ConsensusAuthority>) -> (r: Self)
        ensures
            r.pow.pow.threshold == threshold,
            r.poa.poa.authorities@ == authorities@,
    {
        AlternatingPowPoa {
            pow: MixedPow { pow: Pow { threshold } },
            poa: MixedPoa { poa: SimplePoa { authorities } },
        }
    }
}

impl Consensus for AlternatingPowPoa {
    type Digest = PowOrPoaDigest;

    open spec fn valid(&self, parent_digest: PowOrPoaDigest, header: Header<PowOrPoaDigest>) -> bool {
        if header.height % 2 == 0 {
            self.poa.valid(parent_digest, header)
        } else {
            self.pow.valid(parent_digest, header)
        }
    }

    open spec fn well_formed(&self) -> bool {
        true
    }

    fn validate(&self, parent_digest: &PowOrPoaDigest, header: &Header<PowOrPoaDigest>) -> (r:
        bool) {
        if header.height % 2 == 0 {
            self.poa.validate(parent_digest, header)
        } else {
            self.pow.validate(parent_digest, header)
        }
    }

    /// Seals even heights by authority and odd heights by work.
    fn seal(&self, parent_digest: &PowOrPoaDigest, partial_header: Header<()>) -> (r: Option<
        Header<PowOrPoaDigest>,
    >)
        ensures
            partial_header.height % 2 == 0 ==> (r is None <==> self.poa.poa.authorities@.len() == 0),
            partial_header.height % 2 == 1 ==> (r is None <==> !self.pow.pow.can_seal(partial_header)),
    {
        if partial_header.height % 2 == 0 {
            self.poa.seal(parent_digest, partial_header)
        } else {
            self.pow.seal(parent_digest, partial_header)
        }
    }
}

/// An engine that follows `before` below `fork_height` and `after` from it on.
pub struct Forked<B: Consensus, A: Consensus<Digest = B::Digest>> {
    pub fork_height: u64,
    pub before: B,
    pub after: A,
}

impl<B: Consensus, A: Consensus<Digest = B::Digest>> Consensus for Forked<B, A> {
    type Digest = B::Digest;

    open spec fn valid(&self, parent_digest: B::Digest, header: Header<B::Digest>) -> bool {
        if header.height < self.fork_height {
            self.before.valid(parent_digest, header)
        } else {
            self.after.valid(parent_digest, header)
        }
    }

    open spec fn well_formed(&self) -> bool {
        self.before.well_formed() && self.after.well_formed()
    }

    fn validate(&self, parent_digest: &B::Digest, header: &Header<B::Digest>) -> (r: bool) {
        if header.height < self.fork_height {
            self.before.validate(parent_digest, header)
        } else {
            self.after.validate(parent_digest, header)
        }
    }

    /// The engine on the header's side of the fork seals it.
    fn seal(&self, parent_digest: &B::Digest, partial_header: Header<()>) -> (r: Option<
        Header<B::Digest>,
    >)
        ensures
            partial_header.height < self.fork_height ==> call_ensures(
                B::seal,
                (&self.before, parent_digest, partial_header),
                r,
            ),
            partial_header.height >= self.fork_height ==> call_ensures(
                A::seal,
                (&self.after, parent_digest, partial_header),
                r,
            ),
    {
        if partial_header.height < self.fork_height {
            self.before.seal(parent_digest, partial_header)
        } else {
            self.after.seal(parent_digest, partial_header)
        }
    }
}

/// Returns a proof-of-authority engine whose authorities change at `fork_height`.
pub fn change_authorities(
    fork_height: u64,
    initial_authorities: Vec<ConsensusAuthority>,
    final_authorities: Vec<ConsensusAuthority>,
) -> (r: Forked<SimplePoa, SimplePoa>)
    ensures
        r.fork_height == fork_height,
        r.before.authorities@ == initial_authorities@,
        r.after.authorities@ == final_authorities@,
{
    Forked {
        fork_height,
        before: SimplePoa { authorities: initial_authorities },
        after: SimplePoa { authorities: final_authorities },
    }
}

/// Returns a proof-of-work engine whose threshold changes at `fork_height`.
pub fn change_difficulty(fork_height: u64, initial_difficulty: u64, final_difficulty: u64) -> (r:
    Forked<Pow, Pow>)
    ensures
        r.fork_height == fork_height,
        r.before.threshold == initial_difficulty,
        r.after.threshold == final_difficulty,
{
    Forked {
        fork_height,
        before: Pow { threshold: initial_difficulty },
        after: Pow { threshold: final_difficulty },
    }
}

/// Returns an engine that follows `engine` throughout, and from `fork_height` on also requires
/// even state roots; `engine_after` is the same engine as `engine`, for the later part.
pub fn even_after_given_height<C: Consensus>(fork_height: u64, engine: C, engine_after: C) -> (r:
    Forked<C, EvenOnly<C>>)
    ensures
        r.fork_height == fork_height,
        r.before == engine,
        r.after.inner == engine_after,
{
    Forked { fork_height, before: engine, after: EvenOnly { inner: engine_after } }
}

/// Returns an engine that moves from proof of work to proof of authority at `fork_height`.
pub fn pow_to_poa(fork_height: u64, difficulty: u64, authorities: Vec<ConsensusAuthority>) -> (r:
    Forked<MixedPow, MixedPoa>)
    ensures
        r.fork_height == fork_height,
        r.before.pow.threshold == difficulty,
        r.after.poa.authorities@ == authorities@,
{
    Forked {
        fork_height,
        before: MixedPow { pow: Pow { threshold: difficulty } },
        after: MixedPoa { poa: SimplePoa { authorities } },
    }
}

/// Builds a single-header chain that proof of work accepts under `moderate_difficulty_pow` but
/// that the even-only engine over it rejects: its state root is odd.
pub fn almost_valid_but_not_all_even() -> (r: Vec<Header<u64>>)
    ensures
        r@.len() <= 1,
        forall|i: int| 0 <= i < r@.len() ==> (#[trigger] r@[i]).state_root == 1
            && (Pow { threshold: u64::MAX / 100 }).valid(0, r@[i]),
{
    let partial = Header { parent: 0, height: 0, state_root: 1, extrinsics_root: 0, consensus_digest: () };
    let engine = moderate_difficulty_pow();
    match engine.seal(&0, partial) {
        Some(h) => vec![h],
        None => Vec::new(),
    }
}

} // verus!
