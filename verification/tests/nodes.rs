use merkle_tree::{aggregate, hash_item, MerkleTree, Node};

fn leaf(text: &str) -> Node {
    Node::leaf(String::from(text))
}

#[test]
fn leaf_stores_the_hash_of_its_item() {
    let node = leaf("Hello");
    assert_eq!(node.get_hash(), hash_item("Hello"));
    match node {
        Node::Leaf { hash, data } => {
            assert_eq!(hash, hash_item("Hello"));
            assert_eq!(data, "Hello");
        }
        Node::Branch { .. } => panic!("a leaf was asked for"),
    }
}

#[test]
fn branch_stores_the_aggregate_of_its_children() {
    let node = Node::branch(leaf("a"), leaf("b"), leaf("c"));
    let expected = aggregate(hash_item("a"), hash_item("b"), hash_item("c"));
    assert_eq!(node.get_hash(), expected);
    match node {
        Node::Branch { hash, left, middle, right } => {
            assert_eq!(hash, expected);
            assert_eq!(left.get_hash(), hash_item("a"));
            assert_eq!(middle.get_hash(), hash_item("b"));
            assert_eq!(right.get_hash(), hash_item("c"));
        }
        Node::Leaf { .. } => panic!("a branch was asked for"),
    }
}

#[test]
fn get_hash_reads_the_stored_value() {
    let odd_leaf = Node::Leaf { hash: 17, data: String::from("whatever") };
    assert_eq!(odd_leaf.get_hash(), 17);
    let odd_branch = Node::Branch {
        hash: 23,
        left: Box::new(leaf("a")),
        middle: Box::new(leaf("b")),
        right: Box::new(leaf("c")),
    };
    assert_eq!(odd_branch.get_hash(), 23);
}

#[test]
fn clone_copies_the_whole_subtree() {
    let node = Node::branch(Node::branch(leaf("a"), leaf("b"), leaf("a")), leaf("c"), leaf("d"));
    let copy = node.clone();
    assert_eq!(format!("{:?}", copy), format!("{:?}", node));
    assert_eq!(copy.get_hash(), node.get_hash());
}

#[test]
fn build_tree_of_nothing_is_nothing() {
    assert!(MerkleTree::build_tree(Vec::new()).is_none());
}

#[test]
fn build_tree_of_one_vertex_is_that_vertex() {
    let root = MerkleTree::build_tree(vec![leaf("x")]).unwrap();
    assert!(matches!(root, Node::Leaf { .. }));
    assert_eq!(root.get_hash(), hash_item("x"));

    let branch = Node::branch(leaf("a"), leaf("b"), leaf("c"));
    let hash = branch.get_hash();
    let root = MerkleTree::build_tree(vec![branch]).unwrap();
    assert_eq!(root.get_hash(), hash);
}

#[test]
fn build_tree_of_three_is_one_full_branch() {
    let root = MerkleTree::build_tree(vec![leaf("a"), leaf("b"), leaf("c")]).unwrap();
    assert_eq!(root.get_hash(), aggregate(hash_item("a"), hash_item("b"), hash_item("c")));
    match root {
        Node::Branch { left, middle, right, .. } => {
            assert!(matches!(*left, Node::Leaf { ref data, .. } if data == "a"));
            assert!(matches!(*middle, Node::Leaf { ref data, .. } if data == "b"));
            assert!(matches!(*right, Node::Leaf { ref data, .. } if data == "c"));
        }
        Node::Leaf { .. } => panic!("three vertices fold into a branch"),
    }
}

#[test]
fn build_tree_fills_a_group_of_one_with_its_only_vertex() {
    let (a, b, c, d) = (hash_item("a"), hash_item("b"), hash_item("c"), hash_item("d"));
    let root = MerkleTree::build_tree(vec![leaf("a"), leaf("b"), leaf("c"), leaf("d")]).unwrap();
    let full = aggregate(a, b, c);
    let short = aggregate(d, d, d);
    assert_eq!(root.get_hash(), aggregate(full, short, full));
    match root {
        Node::Branch { left, middle, right, .. } => {
            assert_eq!(left.get_hash(), full);
            assert_eq!(middle.get_hash(), short);
            assert_eq!(right.get_hash(), full);
            match *middle {
                Node::Branch { left, middle, right, .. } => {
                    assert!(matches!(*left, Node::Leaf { ref data, .. } if data == "d"));
                    assert!(matches!(*middle, Node::Leaf { ref data, .. } if data == "d"));
                    assert!(matches!(*right, Node::Leaf { ref data, .. } if data == "d"));
                }
                Node::Leaf { .. } => panic!("the second group folds into a branch"),
            }
        }
        Node::Leaf { .. } => panic!("four vertices fold into a branch"),
    }
}

#[test]
fn build_tree_fills_a_group_of_two_with_its_first_vertex() {
    let h: Vec<u64> = ["a", "b", "c", "d", "e"].iter().map(|t| hash_item(t)).collect();
    let nodes = vec![leaf("a"), leaf("b"), leaf("c"), leaf("d"), leaf("e")];
    let root = MerkleTree::build_tree(nodes).unwrap();
    let full = aggregate(h[0], h[1], h[2]);
    let short = aggregate(h[3], h[4], h[3]);
    assert_eq!(root.get_hash(), aggregate(full, short, full));
}

#[test]
fn build_tree_folds_ten_vertices_in_three_rounds() {
    let texts = ["0", "1", "2", "3", "4", "5", "6", "7", "8", "9"];
    let h: Vec<u64> = texts.iter().map(|t| hash_item(t)).collect();
    let nodes: Vec<Node> = texts.iter().map(|t| leaf(t)).collect();
    let root = MerkleTree::build_tree(nodes).unwrap();
    let first = [
        aggregate(h[0], h[1], h[2]),
        aggregate(h[3], h[4], h[5]),
        aggregate(h[6], h[7], h[8]),
        aggregate(h[9], h[9], h[9]),
    ];
    let second = [aggregate(first[0], first[1], first[2]), aggregate(first[3], first[3], first[3])];
    assert_eq!(root.get_hash(), aggregate(second[0], second[1], second[0]));
}

#[test]
fn new_builds_over_the_leaves_of_the_items() {
    let texts = ["p", "q", "r", "s", "t", "u", "v"];
    let items: Vec<String> = texts.iter().map(|t| String::from(*t)).collect();
    let nodes: Vec<Node> = texts.iter().map(|t| leaf(t)).collect();
    let tree = MerkleTree::new(items);
    let root = MerkleTree::build_tree(nodes).unwrap();
    assert_eq!(tree.root_hash(), Some(root.get_hash()));
    assert_eq!(tree.root().map(|node| node.get_hash()), Some(root.get_hash()));
    assert_eq!(format!("{:?}", tree.root().unwrap()), format!("{:?}", root));
}
