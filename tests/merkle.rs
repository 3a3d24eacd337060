use bbchain::crypto::hash;
use bbchain::merkle::MerkleTree;

fn pair(a: &[u8; 32], b: &[u8; 32]) -> [u8; 32] {
    let mut joined = Vec::new();
    joined.extend_from_slice(a);
    joined.extend_from_slice(b);
    hash(&joined)
}

#[test]
fn empty_tree_has_zero_root() {
    let tree = MerkleTree::build(vec![]);
    assert_eq!(tree.root, [0u8; 32]);
    assert!(tree.leaves.is_empty());
}

#[test]
fn single_leaf_is_its_own_root() {
    let h = hash(b"only");
    let tree = MerkleTree::build(vec![h]);
    assert_eq!(tree.root, h);
    assert_ne!(tree.root, pair(&h, &h));
}

#[test]
fn two_leaves_hash_as_a_pair() {
    let a = hash(b"a");
    let b = hash(b"b");
    let tree = MerkleTree::build(vec![a, b]);
    assert_eq!(tree.root, pair(&a, &b));
    assert_eq!(tree.leaves, vec![a, b]);
}

#[test]
fn odd_level_duplicates_last_leaf() {
    let a = hash(b"a");
    let b = hash(b"b");
    let c = hash(b"c");
    let three = MerkleTree::build(vec![a, b, c]);
    let four = MerkleTree::build(vec![a, b, c, c]);
    assert_eq!(three.root, four.root);
    assert_eq!(three.root, pair(&pair(&a, &b), &pair(&c, &c)));
}

#[test]
fn five_leaves_reduce_over_three_levels() {
    let l: Vec<[u8; 32]> = (0u8..5).map(|i| hash(&[i])).collect();
    let tree = MerkleTree::build(l.clone());
    let p01 = pair(&l[0], &l[1]);
    let p23 = pair(&l[2], &l[3]);
    let p44 = pair(&l[4], &l[4]);
    let q0 = pair(&p01, &p23);
    let q1 = pair(&p44, &p44);
    assert_eq!(tree.root, pair(&q0, &q1));
}

#[test]
fn leaf_order_changes_root() {
    let a = hash(b"a");
    let b = hash(b"b");
    assert_ne!(MerkleTree::build(vec![a, b]).root, MerkleTree::build(vec![b, a]).root);
}
