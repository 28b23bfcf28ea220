use blockchain::batched::extrinsics_root;
use blockchain::rich_state::{Block, Header, State, build_invalid_child_block_with_valid_header};

#[test]
fn part_6_genesis_header() {
    let state = State { sum: 6, product: 9 };
    let g = Header::genesis(state.hash());
    assert_eq!(g.height, 0);
    assert_eq!(g.parent, 0);
    assert_eq!(g.extrinsics_root, 0);
    assert_eq!(g.state_root, state.hash());
}

#[test]
fn part_6_genesis_block() {
    let state = State { sum: 6, product: 9 };
    let gh = Header::genesis(state.hash());
    let gb = Block::genesis(&state);

    assert_eq!(gb.header, gh);
    assert!(gb.body.is_empty());
}

#[test]
fn part_6_child_block_empty() {
    let state = State { sum: 6, product: 9 };
    let b0 = Block::genesis(&state);
    let b1 = b0.child(&state, vec![]);

    assert!(b0.header.verify_child(&b1.header));
    assert_eq!(
        b1,
        Block {
            header: b1.header.clone(),
            body: vec![],
        }
    );
}

#[test]
fn part_6_child_block() {
    let state = State { sum: 6, product: 9 };
    let b0 = Block::genesis(&state);
    let b1 = b0.child(&state, vec![1, 2, 3, 4, 5]);

    assert!(b0.header.verify_child(&b1.header));
    assert_eq!(
        b1,
        Block {
            header: b1.header.clone(),
            body: vec![1, 2, 3, 4, 5],
        }
    );
}

#[test]
fn part_6_child_header() {
    let state_0 = State { sum: 6, product: 9 };
    let g = Header::genesis(state_0.hash());
    let mut extrinsics = vec![1, 2, 3];
    let mut state_1 = state_0;
    for extrinsic in extrinsics.iter() {
        state_1.sum += extrinsic;
        state_1.product *= extrinsic;
    }
    let h1 = g.child(extrinsics_root(&extrinsics), state_1.hash());

    assert!(g.verify_child(&h1));
    assert_eq!(h1.extrinsics_root, extrinsics_root(&extrinsics));
    assert_eq!(h1.state_root, state_1.hash());

    extrinsics = vec![10, 20];
    let mut state_2 = state_1;
    for extrinsic in extrinsics.iter() {
        state_2.sum += extrinsic;
        state_2.product *= extrinsic;
    }

    let h2 = h1.child(extrinsics_root(&extrinsics), state_2.hash());

    assert!(h1.verify_child(&h2));
    assert_eq!(h2.extrinsics_root, extrinsics_root(&extrinsics));
    assert_eq!(h2.state_root, state_2.hash());
}

#[test]
fn part_6_verify_three_blocks() {
    let state_1 = State { sum: 6, product: 9 };
    let g = Block::genesis(&state_1);
    let b1 = g.child(&state_1, vec![1]);
    let state_2 = State { sum: 7, product: 9 };
    let b2 = b1.child(&state_2, vec![2]);
    let chain = vec![g.clone(), b1, b2];
    assert!(g.verify_sub_chain(&state_1, &chain[1..]));
}

#[test]
fn part_6_invalid_header_doesnt_check() {
    let state = State { sum: 6, product: 9 };
    let g = Header::genesis(state.hash());
    let h1 = Header {
        parent: 0,
        height: 100,
        extrinsics_root: 0,
        state_root: (State { sum: 0, product: 0 }).hash(),
        consensus_digest: 0,
    };

    assert!(!g.verify_child(&h1));
}

#[test]
fn part_6_invalid_block_state_doesnt_check() {
    let state = State { sum: 6, product: 9 };
    let b0 = Block::genesis(&state);
    let mut b1 = b0.child(&state, vec![1, 2, 3]);
    b1.body = vec![];

    assert!(!b0.verify_sub_chain(&state, &[b1]));
}

#[test]
fn part_6_block_with_invalid_header_doesnt_check() {
    let state = State { sum: 6, product: 9 };
    let b0 = Block::genesis(&state);
    let mut b1 = b0.child(&state, vec![1, 2, 3]);
    b1.header = Header::genesis(state.hash());

    assert!(!b0.verify_sub_chain(&state, &[b1]));
}

#[test]
fn part_6_student_invalid_block_really_is_invalid() {
    let state = State { sum: 6, product: 9 };
    let gb = Block::genesis(&state);
    let gh = &gb.header;

    let b1 = build_invalid_child_block_with_valid_header(gh, &state);
    let h1 = &b1.header;

    assert!(gh.verify_child(h1));
    assert!(!gb.verify_sub_chain(&state, &[b1]));
}

#[test]
fn rich_state_wrong_pre_state_does_not_check() {
    let state = State { sum: 6, product: 9 };
    let b0 = Block::genesis(&state);
    let b1 = b0.child(&state, vec![2]);
    let other = State { sum: 1, product: 1 };
    assert!(b0.verify_sub_chain(&state, &[b1.clone()]));
    assert!(!b0.verify_sub_chain(&other, &[b1]));
}
