use blockchain::block::{Block, create_empty_chain, extrinsics_root_of, state_root};
use blockchain::client::{FullClient, LongestChain, MostAliceSigs};
use blockchain::consensus::ConsensusAuthority::{Alice, Bob, Charlie};
use blockchain::consensus::{Consensus, ConsensusAuthority, Header, NoDigest};
use blockchain::engines::{
    AlternatingPowPoa, DictatorConsensus, EvenOnly, PoaRoundRobinByHeight, PoaRoundRobinBySlot,
    PowOrPoaDigest, SimplePoa, SlotDigest, TrivialConsensus, almost_valid_but_not_all_even,
    change_authorities, change_difficulty, even_after_given_height, moderate_difficulty_pow,
    pow_to_poa, trivial_always_valid_pow,
};
use blockchain::machines::{Arithmetic, SumAndProduct, Totals};
use blockchain::pool::{
    CensoringPool, DenyList, PriorityPool, SimplePool, TransactionPool, ValuePriority,
};

type Client = FullClient<TrivialConsensus, SumAndProduct, LongestChain, SimplePool<Arithmetic>>;
type SumBlock = Block<TrivialConsensus, SumAndProduct>;

fn partial(height: u64, state_root: u64) -> Header<()> {
    Header { parent: 7, height, state_root, extrinsics_root: 3, consensus_digest: () }
}

fn new_client() -> Client {
    FullClient::new(TrivialConsensus, LongestChain, SimplePool::new(), Totals::identity())
}

#[test]
fn generic_child_header_verifies() {
    let g = Header::<u64>::genesis(5);
    let c = g.child(11, 12);
    assert!(g.verify_child(&c));
    assert_eq!(c.height, g.height + 1);
    assert_eq!(c.parent, g.hash());
    assert_eq!(c.state_root, 11);
    assert_eq!(c.extrinsics_root, 12);
    let mut bad = c;
    bad.height = 5;
    assert!(!g.verify_child(&bad));
}

#[test]
fn generic_suffix_of_valid_chain_is_valid() {
    let g = Header::<ConsensusAuthority>::genesis(0);
    let mut chain = vec![g.child(1, 1)];
    for i in 2..6 {
        let next = chain[chain.len() - 1].child(i, i);
        chain.push(next);
    }
    assert!(g.verify_sub_chain(&chain));
    for k in 0..chain.len() {
        assert!(chain[k].verify_sub_chain(&chain[k + 1..]));
    }
    let mut broken = chain.clone();
    broken[2].parent = 0;
    assert!(!g.verify_sub_chain(&broken));
}

#[test]
fn pow_seal_meets_threshold() {
    let pow = moderate_difficulty_pow();
    assert_eq!(pow.threshold, u64::MAX / 100);
    for height in 0..5 {
        let h = pow.seal(&0, partial(height, height)).expect("a nonce below the threshold exists");
        assert!(h.hash() < pow.threshold);
        assert!(pow.validate(&0, &h));
        assert_eq!(h.height, height);
        assert_eq!(h.extrinsics_root, 3);
    }
    let always = trivial_always_valid_pow();
    assert_eq!(always.threshold, u64::MAX);
    assert_eq!(always.seal(&0, partial(1, 1)).unwrap().consensus_digest, 0);
}

#[test]
fn round_robin_by_height_alice_then_bob() {
    let engine = PoaRoundRobinByHeight { authorities: vec![Alice, Bob] };
    let expected = [Alice, Bob, Alice, Bob];
    for height in 0..4u64 {
        let base = partial(height, 0);
        for who in [Alice, Bob, Charlie] {
            let h = base.with_digest(who);
            assert_eq!(engine.validate(&Alice, &h), who == expected[height as usize]);
        }
        let sealed = engine.seal(&Alice, base).unwrap();
        assert_eq!(sealed.consensus_digest, expected[height as usize]);
    }
    let empty = PoaRoundRobinByHeight { authorities: vec![] };
    assert!(!empty.validate(&Alice, &partial(0, 0).with_digest(Alice)));
    assert!(empty.seal(&Alice, partial(0, 0)).is_none());
}

#[test]
fn simple_poa_and_dictator() {
    let poa = SimplePoa { authorities: vec![Bob, Charlie] };
    assert!(poa.validate(&Alice, &partial(1, 0).with_digest(Charlie)));
    assert!(!poa.validate(&Alice, &partial(1, 0).with_digest(Alice)));
    assert_eq!(poa.seal(&Alice, partial(1, 0)).unwrap().consensus_digest, Bob);
    assert!(SimplePoa { authorities: vec![] }.seal(&Alice, partial(1, 0)).is_none());
    let dictator = DictatorConsensus { dictator: Charlie };
    assert!(dictator.validate(&Alice, &partial(1, 0).with_digest(Charlie)));
    assert!(!dictator.validate(&Alice, &partial(1, 0).with_digest(Bob)));
    assert_eq!(dictator.seal(&Alice, partial(1, 0)).unwrap().consensus_digest, Charlie);
}

#[test]
fn round_robin_by_slot_needs_increasing_slots() {
    let engine = PoaRoundRobinBySlot { authorities: vec![Alice, Bob] };
    let parent = SlotDigest { slot: 4, signature: Alice };
    let skipped = partial(1, 0).with_digest(SlotDigest { slot: 7, signature: Bob });
    assert!(engine.validate(&parent, &skipped));
    let repeated = partial(1, 0).with_digest(SlotDigest { slot: 4, signature: Alice });
    assert!(!engine.validate(&parent, &repeated));
    let wrong_signer = partial(1, 0).with_digest(SlotDigest { slot: 6, signature: Bob });
    assert!(!engine.validate(&parent, &wrong_signer));
    let sealed = engine.seal(&parent, partial(1, 0)).unwrap();
    assert_eq!(sealed.consensus_digest, SlotDigest { slot: 5, signature: Bob });
    assert!(engine.validate(&parent, &sealed));
    let last = SlotDigest { slot: u64::MAX, signature: Bob };
    assert!(engine.seal(&last, partial(1, 0)).is_none());
}

#[test]
fn even_only_refuses_odd_state_roots() {
    let engine = EvenOnly { inner: moderate_difficulty_pow() };
    assert!(engine.seal(&0, partial(1, 3)).is_none());
    let sealed = engine.seal(&0, partial(1, 4)).unwrap();
    assert!(engine.validate(&0, &sealed));
    let odd = moderate_difficulty_pow().seal(&0, partial(1, 5)).unwrap();
    assert!(moderate_difficulty_pow().validate(&0, &odd));
    assert!(!engine.validate(&0, &odd));
    let dictator = EvenOnly { inner: DictatorConsensus { dictator: ConsensusAuthority::Bob } };
    assert!(dictator.seal(&ConsensusAuthority::Bob, partial(1, 1)).is_none());
    let chain = almost_valid_but_not_all_even();
    assert_eq!(chain.len(), 1);
    assert!(moderate_difficulty_pow().validate(&0, &chain[0]));
    assert!(!engine.validate(&0, &chain[0]));
}

#[test]
fn alternating_pow_poa_by_height() {
    let engine = AlternatingPowPoa::new(u64::MAX / 100, vec![Alice]);
    let even = engine.seal(&PowOrPoaDigest::Pow(0), partial(2, 0)).unwrap();
    assert_eq!(even.consensus_digest, PowOrPoaDigest::Poa(Alice));
    assert!(engine.validate(&PowOrPoaDigest::Pow(0), &even));
    let odd = engine.seal(&PowOrPoaDigest::Poa(Alice), partial(3, 0)).unwrap();
    assert!(matches!(odd.consensus_digest, PowOrPoaDigest::Pow(_)));
    assert!(engine.validate(&PowOrPoaDigest::Poa(Alice), &odd));
    let mismatched = partial(3, 0).with_digest(PowOrPoaDigest::Poa(Alice));
    assert!(!engine.validate(&PowOrPoaDigest::Poa(Alice), &mismatched));
    let unknown = partial(2, 0).with_digest(PowOrPoaDigest::Poa(Bob));
    assert!(!engine.validate(&PowOrPoaDigest::Pow(0), &unknown));
}

#[test]
fn forked_engines_switch_at_fork_height() {
    let authorities = change_authorities(3, vec![Alice], vec![Bob]);
    assert!(authorities.validate(&Alice, &partial(2, 0).with_digest(Alice)));
    assert!(!authorities.validate(&Alice, &partial(3, 0).with_digest(Alice)));
    assert!(authorities.validate(&Alice, &partial(3, 0).with_digest(Bob)));
    assert_eq!(authorities.seal(&Alice, partial(5, 0)).unwrap().consensus_digest, Bob);

    let difficulty = change_difficulty(2, u64::MAX, 0);
    let early = difficulty.seal(&0, partial(1, 0)).unwrap();
    assert!(difficulty.validate(&0, &early));
    let late = partial(2, 0).with_digest(early.consensus_digest);
    assert!(!difficulty.validate(&0, &late));

    let even = even_after_given_height(4, SimplePoa { authorities: vec![Alice] }, SimplePoa {
        authorities: vec![Alice],
    });
    assert!(even.seal(&Alice, partial(3, 1)).is_some());
    assert!(even.seal(&Alice, partial(4, 1)).is_none());
    assert!(even.seal(&Alice, partial(4, 2)).is_some());

    let migration = pow_to_poa(2, u64::MAX / 100, vec![Bob]);
    let before = migration.seal(&PowOrPoaDigest::Pow(0), partial(1, 0)).unwrap();
    assert!(matches!(before.consensus_digest, PowOrPoaDigest::Pow(_)));
    let after = migration.seal(&PowOrPoaDigest::Pow(0), partial(2, 0)).unwrap();
    assert_eq!(after.consensus_digest, PowOrPoaDigest::Poa(Bob));
    assert!(migration.validate(&PowOrPoaDigest::Pow(0), &after));
}

#[test]
fn consensus_verify_sub_chain_checks_each_header() {
    let engine = PoaRoundRobinByHeight { authorities: vec![Alice, Bob] };
    let h1 = partial(1, 0).with_digest(Bob);
    let h2 = partial(2, 0).with_digest(Alice);
    assert!(engine.verify_sub_chain(&Alice, &[h1, h2]));
    let bad = partial(3, 0).with_digest(Alice);
    assert!(!engine.verify_sub_chain(&Alice, &[h1, h2, bad]));
}

#[test]
fn trivial_consensus_accepts_everything() {
    let sealed = TrivialConsensus.seal(&NoDigest, partial(9, 9)).unwrap();
    assert!(TrivialConsensus.validate(&NoDigest, &sealed));
}

#[test]
fn generic_blocks_execute_their_transitions() {
    let genesis = SumBlock::genesis(&Totals::identity());
    assert_eq!(genesis.header.state_root, state_root(&Totals::identity()));
    let b1 = genesis.child(&Totals::identity(), vec![Arithmetic::Add(5), Arithmetic::Multiply(3)]);
    assert_eq!(b1.header.state_root, state_root(&Totals { sum: 5, product: 3 }));
    assert_eq!(b1.header.extrinsics_root, extrinsics_root_of(&b1.body));
    let b2 = b1.child(&Totals { sum: 5, product: 3 }, vec![Arithmetic::Multiply(u64::MAX)]);
    assert_eq!(b2.header.state_root, state_root(&Totals { sum: 5, product: 3 }));
    assert!(genesis.verify_sub_chain(&Totals::identity(), &[b1, b2]));
    let b1 = genesis.child(&Totals::identity(), vec![Arithmetic::Add(5)]);
    assert!(!genesis.verify_sub_chain(&Totals { sum: 1, product: 1 }, &[b1]));
}

#[test]
fn import_sum_and_product_block() {
    let mut client = new_client();
    let genesis = SumBlock::genesis(&Totals::identity());
    let b1 = genesis.child(&Totals::identity(), vec![Arithmetic::Add(5)]);
    assert_eq!(b1.header.state_root, state_root(&Totals { sum: 5, product: 1 }));

    let mut tampered = SumBlock { header: b1.header, body: b1.body.clone() };
    tampered.header.extrinsics_root ^= 1;
    assert!(genesis.header.verify_child(&tampered.header));
    assert!(!client.import_block(tampered));

    let h1 = b1.header.hash();
    assert!(client.import_block(b1));
    assert_eq!(client.is_leaf(h1), Some(true));
}

#[test]
fn import_then_get_block() {
    let mut client = new_client();
    let genesis = SumBlock::genesis(&Totals::identity());
    let g = client.get_block(genesis.header.hash()).expect("genesis is known");
    assert_eq!(g.header, genesis.header);
    assert!(g.body.is_empty());

    let b1 = genesis.child(&Totals::identity(), vec![Arithmetic::Add(2), Arithmetic::Add(3)]);
    let copy = SumBlock { header: b1.header, body: b1.body.clone() };
    assert!(client.import_block(b1));
    let got = client.get_block(copy.header.hash()).expect("imported");
    assert_eq!(got.header, copy.header);
    assert_eq!(got.body, copy.body);
    assert!(client.get_block(12345).is_none());
}

#[test]
fn import_rejects_unknown_parent_and_bad_state() {
    let mut client = new_client();
    let genesis = SumBlock::genesis(&Totals::identity());
    let b1 = genesis.child(&Totals::identity(), vec![Arithmetic::Add(1)]);
    let b2 = b1.child(&Totals { sum: 1, product: 1 }, vec![Arithmetic::Add(1)]);
    assert!(!client.import_block(b2));
    let mut bad = genesis.child(&Totals::identity(), vec![Arithmetic::Add(1)]);
    bad.header.state_root = state_root(&Totals { sum: 2, product: 1 });
    assert!(!client.import_block(bad));
    let again = SumBlock { header: b1.header, body: b1.body.clone() };
    assert!(client.import_block(b1));
    assert!(!client.import_block(again));
}

#[test]
fn single_chain_has_one_leaf() {
    let mut client = new_client();
    let genesis = SumBlock::genesis(&Totals::identity());
    let mut parent = SumBlock { header: genesis.header, body: vec![] };
    let mut state = Totals::identity();
    let mut hashes = vec![genesis.header.hash()];
    for i in 1..5u64 {
        let next = parent.child(&state, vec![Arithmetic::Add(i)]);
        state = Totals { sum: state.sum + i, product: state.product };
        let keep = SumBlock { header: next.header, body: next.body.clone() };
        assert!(client.import_block(next));
        hashes.push(keep.header.hash());
        parent = keep;
    }
    for (k, h) in hashes.iter().enumerate() {
        assert_eq!(client.is_leaf(*h), Some(k == hashes.len() - 1));
    }
    assert_eq!(client.best_block(), hashes[hashes.len() - 1]);
    assert_eq!(client.is_leaf(99), None);
}

#[test]
fn fork_leaves_and_best_block() {
    let mut client = new_client();
    let genesis = SumBlock::genesis(&Totals::identity());
    let id = Totals::identity();
    let a1 = genesis.child(&id, vec![Arithmetic::Add(1)]);
    let a2 = a1.child(&Totals { sum: 1, product: 1 }, vec![Arithmetic::Add(1)]);
    let b1 = genesis.child(&id, vec![Arithmetic::Add(7)]);
    let (ha1, ha2, hb1) = (a1.header.hash(), a2.header.hash(), b1.header.hash());
    assert!(client.import_block(a1));
    assert!(client.import_block(b1));
    assert_eq!(client.is_leaf(genesis.header.hash()), Some(false));
    assert_eq!(client.is_leaf(ha1), Some(true));
    assert_eq!(client.is_leaf(hb1), Some(true));
    assert!(client.import_block(a2));
    assert_eq!(client.is_leaf(ha1), Some(false));
    assert_eq!(client.best_block(), ha2);
}

#[test]
fn pool_pass_through_and_removal_on_import() {
    let mut client = new_client();
    client.submit_transaction(Arithmetic::Add(4));
    client.submit_transaction(Arithmetic::Multiply(2));
    assert_eq!(client.pool_size(), 2);
    assert!(client.pool_contains(Arithmetic::Add(4)));
    let genesis = SumBlock::genesis(&Totals::identity());
    let b1 = genesis.child(&Totals::identity(), vec![Arithmetic::Add(4)]);
    assert!(client.import_block(b1));
    assert_eq!(client.pool_size(), 1);
    assert!(!client.pool_contains(Arithmetic::Add(4)));
    assert!(client.pool_contains(Arithmetic::Multiply(2)));
}

#[test]
fn authoring_blocks() {
    let mut client = new_client();
    let genesis = SumBlock::genesis(&Totals::identity());
    let g = genesis.header.hash();
    assert!(client.author_and_import_manual_block(vec![Arithmetic::Add(3)], g));
    assert!(!client.author_and_import_manual_block(vec![Arithmetic::Add(3)], 42));
    let expected = genesis.child(&Totals::identity(), vec![Arithmetic::Add(3)]);
    assert_eq!(client.best_block(), expected.header.hash());

    client.submit_transaction(Arithmetic::Multiply(5));
    client.submit_transaction(Arithmetic::Add(1));
    assert!(client.author_and_import_automatic_block());
    assert_eq!(client.pool_size(), 0);
    let best = client.get_block(client.best_block()).unwrap();
    assert_eq!(best.body, vec![Arithmetic::Multiply(5), Arithmetic::Add(1)]);
    assert_eq!(best.header.parent, expected.header.hash());
    assert_eq!(best.header.state_root, state_root(&Totals { sum: 4, product: 5 }));
}

#[test]
fn finality_marks_known_blocks() {
    let mut client = new_client();
    let genesis = SumBlock::genesis(&Totals::identity());
    let b1 = genesis.child(&Totals::identity(), vec![Arithmetic::Add(3)]);
    let h1 = b1.header.hash();
    assert!(client.import_block(b1));
    assert!(client.manually_finalize_block(h1));
    assert!(client.manually_finalize_block(genesis.header.hash()));
    assert!(!client.manually_finalize_block(77));
}

#[test]
fn alice_signatures_choose_the_best_block() {
    let mut client: FullClient<SimplePoa, SumAndProduct, MostAliceSigs, SimplePool<Arithmetic>> =
        FullClient::new(
            SimplePoa { authorities: vec![Alice, Bob] },
            MostAliceSigs,
            SimplePool::new(),
            Totals::identity(),
        );
    let genesis = Block::<SimplePoa, SumAndProduct>::genesis(&Totals::identity());
    let id = Totals::identity();
    let mut by_bob = genesis.child(&id, vec![Arithmetic::Add(1)]);
    by_bob.header.consensus_digest = Bob;
    let mut by_bob_2 = by_bob.child(&Totals { sum: 1, product: 1 }, vec![Arithmetic::Add(1)]);
    by_bob_2.header.consensus_digest = Bob;
    let mut by_alice = genesis.child(&id, vec![Arithmetic::Add(2)]);
    by_alice.header.consensus_digest = Alice;
    let alice_hash = by_alice.header.hash();
    assert!(client.import_block(by_bob));
    assert!(client.import_block(by_bob_2));
    assert!(client.import_block(by_alice));
    assert_eq!(client.best_block(), alice_hash);
}

#[test]
fn priority_and_censoring_pools() {
    let mut pool = PriorityPool::new(ValuePriority, 10);
    assert!(!pool.try_insert(5));
    assert!(pool.try_insert(20));
    assert!(pool.try_insert(50));
    assert!(pool.try_insert(30));
    assert_eq!(pool.size(), 3);
    assert_eq!(pool.next_from_pool(), Some(50));
    assert_eq!(pool.next_from_pool(), Some(30));
    pool.remove(20);
    assert_eq!(pool.next_from_pool(), None);

    let mut censored = CensoringPool::new(DenyList { denied: vec![666] });
    assert!(!censored.try_insert(666));
    assert!(censored.try_insert(1));
    assert!(censored.try_insert(2));
    assert!(censored.contains(1));
    assert!(!censored.contains(666));
    assert_eq!(censored.next_from_pool(), Some(1));

    let mut simple: SimplePool<u64> = SimplePool::new();
    assert!(simple.try_insert(3));
    assert!(simple.try_insert(3));
    assert!(simple.try_insert(4));
    simple.remove(3);
    assert_eq!(simple.size(), 1);
    assert_eq!(simple.next_from_pool(), Some(4));
}

#[test]
fn ghost_prefers_the_heavier_subtree() {
    let mut client = new_client();
    let genesis = SumBlock::genesis(&Totals::identity());
    let id = Totals::identity();
    let a = genesis.child(&id, vec![Arithmetic::Add(1)]);
    let after_a = Totals { sum: 1, product: 1 };
    let a1 = a.child(&after_a, vec![Arithmetic::Add(10)]);
    let a2 = a.child(&after_a, vec![Arithmetic::Add(20)]);
    let a3 = a.child(&after_a, vec![Arithmetic::Add(30)]);
    let b = genesis.child(&id, vec![Arithmetic::Add(2)]);
    let b1 = b.child(&Totals { sum: 2, product: 1 }, vec![Arithmetic::Add(2)]);
    let b2 = b1.child(&Totals { sum: 4, product: 1 }, vec![Arithmetic::Add(2)]);
    let (ha1, hb2) = (a1.header.hash(), b2.header.hash());
    let a_copy = SumBlock { header: a.header, body: a.body.clone() };
    assert!(client.import_block(a));
    assert!(client.import_block(b));
    assert!(client.import_block(b1));
    assert!(client.import_block(b2));
    assert_eq!(client.ghost_best_block(), hb2);
    assert!(client.import_block(a1));
    assert!(client.import_block(a2));
    assert!(client.import_block(a3));
    assert_eq!(client.best_block(), hb2);
    assert_eq!(client.ghost_best_block(), ha1);
    assert_eq!(client.is_leaf(a_copy.header.hash()), Some(false));
}

#[test]
fn empty_chain_is_valid() {
    let chain: Vec<SumBlock> = create_empty_chain(4, &Totals::identity());
    assert_eq!(chain.len(), 4);
    assert!(chain.iter().all(|b| b.body.is_empty()));
    assert_eq!(chain[3].header.height, 3);
    assert!(chain[0].verify_sub_chain(&Totals::identity(), &chain[1..]));
    let single: Vec<SumBlock> = create_empty_chain(0, &Totals::identity());
    assert_eq!(single.len(), 1);
}
