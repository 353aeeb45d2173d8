use louds_rs::{LbsError, Louds, LoudsIndex, LoudsNodeNum};

/// A tree given by the parent of each node, in level order.
struct Model {
    /// `parent[n]` for the nodes `2..=count`; the entries 0 and 1 are unused.
    parent: Vec<u64>,
    count: u64,
}

impl Model {
    /// A tree with `count` nodes, its shape drawn from `seed`. Node numbers
    /// follow level order as long as the parents never fall.
    fn new(count: u64, seed: u64, spread: u64) -> Model {
        let mut state = seed;
        let mut parent = vec![0u64, 0u64];
        let mut last = 1u64;
        for n in 2..=count {
            state = state
                .wrapping_mul(6364136223846793005)
                .wrapping_add(1442695040888963407);
            let step = (state >> 33) % (spread + 1);
            last = (last + step).min(n - 1);
            parent.push(last);
        }
        Model { parent, count }
    }

    fn children(&self, n: u64) -> Vec<u64> {
        (2..=self.count)
            .filter(|c| self.parent[*c as usize] == n)
            .collect()
    }

    fn bits(&self) -> Vec<bool> {
        let mut degree = vec![0usize; self.count as usize + 1];
        for n in 2..=self.count {
            degree[self.parent[n as usize] as usize] += 1;
        }
        let mut bits = vec![true, false];
        for n in 1..=self.count {
            for _ in 0..degree[n as usize] {
                bits.push(true);
            }
            bits.push(false);
        }
        bits
    }
}

/// The position of each node's edge: `edges[k - 1]` for node `k`.
fn edges(bits: &[bool]) -> Vec<u64> {
    bits.iter()
        .enumerate()
        .filter(|(_, bit)| **bit)
        .map(|(i, _)| i as u64)
        .collect()
}

fn check_against_model(model: &Model) {
    let bits = model.bits();
    assert_eq!(bits.len() as u64, 2 * model.count + 1);
    let louds = Louds::from_bits(&bits).unwrap();
    let edges = edges(&bits);
    assert_eq!(edges.len() as u64, model.count);

    assert!(!louds.contains_node(LoudsNodeNum(0)));
    assert!(!louds.contains_node(LoudsNodeNum(model.count + 1)));
    for (i, bit) in bits.iter().enumerate() {
        assert_eq!(louds.validate_index(LoudsIndex(i as u64)), *bit);
    }
    assert!(!louds.validate_index(LoudsIndex(bits.len() as u64)));

    for n in 1..=model.count {
        let node_num = LoudsNodeNum(n);
        assert!(louds.contains_node(node_num));
        let index = LoudsIndex(edges[n as usize - 1]);
        assert_eq!(louds.node_num_to_index(node_num), index);
        assert_eq!(louds.index_to_node_num(index), node_num);
        if n > 1 {
            assert_eq!(
                louds.child_to_parent(index),
                LoudsNodeNum(model.parent[n as usize])
            );
        }
    }

    // The children of the nodes, in order, are the nodes 2, 3, ... in order.
    let mut next = 2u64;
    for n in 1..=model.count {
        let node_num = LoudsNodeNum(n);
        let mut expected = Vec::new();
        while next <= model.count && model.parent[next as usize] == n {
            expected.push(next);
            next += 1;
        }
        let positions: Vec<LoudsIndex> = expected
            .iter()
            .map(|c| LoudsIndex(edges[*c as usize - 1]))
            .collect();
        assert_eq!(louds.parent_to_children(node_num), positions);

        let mut iter = louds.parent_to_children_indices(node_num);
        assert_eq!(iter.len(), expected.len());
        assert_eq!(iter.is_empty(), expected.is_empty());
        let mut backward = Vec::new();
        while let Some(index) = iter.next_back() {
            backward.push(index);
        }
        backward.reverse();
        assert_eq!(backward, positions);

        let mut nodes = louds.parent_to_children_nodes(node_num);
        assert_eq!(nodes.len(), expected.len());
        let mut forward = Vec::new();
        while let Some(child) = nodes.next() {
            forward.push(child.0);
        }
        assert_eq!(forward, expected);
    }
    assert_eq!(next, model.count + 1);
}

#[test]
fn model_agrees_with_its_own_children() {
    let model = Model::new(40, 7, 2);
    let mut seen = vec![1u64];
    for n in 1..=model.count {
        seen.extend(model.children(n));
    }
    let all: Vec<u64> = (1..=model.count).collect();
    assert_eq!(seen, all);
}

#[test]
fn single_node() {
    check_against_model(&Model::new(1, 1, 1));
}

#[test]
fn small_trees_of_every_size() {
    for count in 1..=70u64 {
        for seed in 0..4u64 {
            check_against_model(&Model::new(count, seed * 977 + count, 1));
            check_against_model(&Model::new(count, seed * 31 + count, 3));
        }
    }
}

#[test]
fn chain() {
    // Every node has one child: the parents rise by one each time.
    let model = Model::new(300, 5, 1_000_000);
    for n in 2..=model.count {
        assert_eq!(model.parent[n as usize], n - 1);
    }
    check_against_model(&model);
}

#[test]
fn star() {
    // Every node is a child of the root: the parents never rise.
    let model = Model::new(300, 5, 0);
    check_against_model(&model);
    let louds = Louds::from_bits(&model.bits()).unwrap();
    assert_eq!(louds.parent_to_children_indices(LoudsNodeNum(1)).len(), 299);
}

#[test]
fn medium_trees() {
    for (count, seed, spread) in [
        (255u64, 11u64, 1u64),
        (256, 12, 1),
        (257, 13, 2),
        (1000, 14, 1),
        (1023, 15, 4),
        (1025, 16, 1),
    ] {
        check_against_model(&Model::new(count, seed, spread));
    }
}

#[test]
fn large_tree() {
    check_against_model(&Model::new(6000, 99, 1));
}

#[test]
fn long_unbalanced_prefix_is_found() {
    // A valid sequence, then one clear bit too many in the middle.
    let model = Model::new(500, 3, 1);
    let mut bits = model.bits();
    let cut = 600;
    let mut zeros = 0i64;
    let mut ones = 0i64;
    for bit in &bits[..cut] {
        if *bit {
            ones += 1;
        } else {
            zeros += 1;
        }
    }
    // Clear bits until the prefix tips over.
    let mut extra = Vec::new();
    while zeros <= ones + 1 {
        extra.push(false);
        zeros += 1;
    }
    let first_bad = (cut + extra.len() - 1) as u64;
    let tail = bits.split_off(cut);
    bits.extend(extra);
    bits.extend(tail);
    assert_eq!(
        Louds::from_bits(&bits).unwrap_err(),
        LbsError::PrefixUnbalanced { index: first_bad }
    );
}
