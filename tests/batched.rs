use blockchain::batched::{Block, Header, build_invalid_child_block_with_valid_header, extrinsics_root};

#[test]
fn bc_4_genesis_header() {
    let g = Header::genesis();
    assert_eq!(g.height, 0);
    assert_eq!(g.parent, 0);
    assert_eq!(g.extrinsics_root, 0);
    assert_eq!(g.state, 0);
}

#[test]
fn part_4_genesis_header() {
    let g = Header::genesis();
    assert_eq!(g.height, 0);
    assert_eq!(g.parent, 0);
    assert_eq!(g.extrinsics_root, 0);
    assert_eq!(g.state, 0);
}

#[test]
fn bc_4_genesis_block() {
    let gh = Header::genesis();
    let gb = Block::genesis();

    assert_eq!(gb.header, gh);
    assert!(gb.body.is_empty());
}

#[test]
fn part_4_genesis_block() {
    let gh = Header::genesis();
    let gb = Block::genesis();

    assert_eq!(gb.header, gh);
    assert!(gb.body.is_empty());
}

#[test]
fn bc_4_child_block_empty() {
    let b0 = Block::genesis();
    let b1 = b0.child(vec![]);

    assert!(b0.header.verify_child(&b1.header));
    assert_eq!(
        b1,
        Block {
            header: b1.header.clone(),
            body: vec![]
        }
    );
}

#[test]
fn part_4_child_block_empty() {
    let b0 = Block::genesis();
    let b1 = b0.child(vec![]);

    assert!(b0.verify_sub_chain(&[b1.clone()]));
    assert_eq!(b1.header.state, 0);
    assert_eq!(b1.header.extrinsics_root, extrinsics_root(&vec![]));
}

#[test]
fn bc_4_child_block() {
    let b0 = Block::genesis();
    let b1 = b0.child(vec![1, 2, 3, 4, 5]);

    assert!(b0.header.verify_child(&b1.header));
    assert_eq!(
        b1,
        Block {
            header: b1.header.clone(),
            body: vec![1, 2, 3, 4, 5]
        }
    );
}

#[test]
fn bc_4_child_header() {
    let g = Header::genesis();
    let h1 = g.child(extrinsics_root(&vec![1, 2, 3]), 6);

    assert!(g.verify_child(&h1));
    assert_eq!(h1.extrinsics_root, extrinsics_root(&vec![1, 2, 3]));
    assert_eq!(h1.state, 6);

    let h2 = h1.child(extrinsics_root(&vec![10, 20]), 36);

    assert!(h1.verify_child(&h2));
    assert_eq!(h2.extrinsics_root, extrinsics_root(&vec![10, 20]));
    assert_eq!(h2.state, 36);
}

#[test]
fn part_4_child_header() {
    let g = Header::genesis();
    let h1 = g.child(5, 10);

    assert_eq!(h1.height, 1);
    assert_eq!(h1.parent, g.hash());
    assert_eq!(h1.extrinsics_root, 5);
    assert_eq!(h1.state, 10);
}

#[test]
fn bc_4_verify_three_blocks() {
    let g = Block::genesis();
    let b1 = g.child(vec![1]);
    let b2 = b1.child(vec![2]);
    let chain = vec![g.clone(), b1, b2];
    assert!(g.verify_sub_chain(&chain[1..]));
}

#[test]
fn part_4_verify_three_blocks() {
    let g = Block::genesis();
    let b1 = g.child(vec![1, 2]);
    let b2 = b1.child(vec![3]);
    assert_eq!(b2.header.state, 6);
    assert!(g.verify_sub_chain(&[b1, b2]));
}

#[test]
fn bc_4_invalid_header_does_not_check() {
    let g = Header::genesis();
    let h1 = Header {
        parent: 0,
        height: 100,
        extrinsics_root: 0,
        state: 100,
        consensus_digest: 0,
    };

    assert!(!g.verify_child(&h1));
}

#[test]
fn invalid_header_doesnt_check() {
    let g = Header::genesis();
    let mut h1 = g.child(0, 0);
    h1.height = 2;
    assert!(!g.verify_child(&h1));
}

#[test]
fn bc_4_invalid_block_state_does_not_check() {
    let b0 = Block::genesis();
    let mut b1 = b0.child(vec![1, 2, 3]);
    b1.body = vec![];

    assert!(!b0.verify_sub_chain(&[b1]));
}

#[test]
fn invalid_block_state_doesnt_check() {
    let b0 = Block::genesis();
    let mut b1 = b0.child(vec![1, 2, 3]);
    b1.header.state = 7;

    assert!(b0.header.verify_child(&b1.header));
    assert!(!b0.verify_sub_chain(&[b1]));
}

#[test]
fn bc_4_block_with_invalid_header_does_not_check() {
    let b0 = Block::genesis();
    let mut b1 = b0.child(vec![1, 2, 3]);
    b1.header = Header::genesis();

    assert!(!b0.verify_sub_chain(&[b1]));
}

#[test]
fn block_with_invalid_header_doesnt_check() {
    let b0 = Block::genesis();
    let mut b1 = b0.child(vec![4]);
    b1.header.parent = 0;

    assert!(!b0.verify_sub_chain(&[b1]));
}

#[test]
fn bc_4_student_invalid_block_really_is_invalid() {
    let gb = Block::genesis();
    let gh = &gb.header;

    let b1 = build_invalid_child_block_with_valid_header(gh);
    let h1 = &b1.header;

    assert!(gh.verify_child(h1));
    assert!(!gb.verify_sub_chain(&[b1]));
}

#[test]
fn student_invalid_block_really_is_invalid() {
    let gb = Block::genesis();
    let gh = &gb.header;

    let b1 = build_invalid_child_block_with_valid_header(gh);
    let h1 = &b1.header;

    assert!(gh.verify_child(h1));
    assert!(!gb.verify_sub_chain(&[b1]));
}

#[test]
fn batched_extrinsics_root_depends_on_body() {
    assert_ne!(extrinsics_root(&vec![1, 2, 3]), extrinsics_root(&vec![3, 2, 1]));
    assert_eq!(extrinsics_root(&vec![1, 2, 3]), extrinsics_root(&vec![1, 2, 3]));
}

#[test]
fn batched_overflowing_sum_does_not_check() {
    let b0 = Block::genesis();
    let b1 = b0.child(vec![u64::MAX]);
    assert!(b0.verify_sub_chain(&[b1.clone()]));
    let mut b2 = b1.child(vec![]);
    b2.body = vec![1];
    b2.header.extrinsics_root = extrinsics_root(&vec![1]);
    b2.header.state = 0;
    assert!(!b1.verify_sub_chain(&[b2]));
}
