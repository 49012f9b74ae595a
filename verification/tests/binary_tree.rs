use computor_v2::binary_tree::BinaryTree;

#[test]
fn from_element_int() {
    let tree = BinaryTree::from_element(1);
    assert_eq!(
        format!("{:?}", tree),
        "NonEmpty(TreeNode { element: 1, left: Empty, right: Empty })".to_string()
    );
}

#[test]
fn is_non_empty_normal() {
    let tree: BinaryTree<i32> = BinaryTree::new();
    assert!(!tree.is_non_empty());
    let tree = BinaryTree::from_element(1);
    assert!(tree.is_non_empty());
}

#[test]
fn left_mut_normal() {
    let mut tree = BinaryTree::new();
    let tmp = tree.left_mut();
    assert_eq!(tmp, None);
    tree = BinaryTree::from_element("1".to_string());
    let tmp = tree.left_mut();
    assert_eq!(tmp, Some(&mut BinaryTree::Empty));
    tree.add_left_node_from_element("2".to_string());
    let tmp = tree.left_mut();
    assert_eq!(tmp, Some(&mut BinaryTree::from_element("2".to_string())));
    match tmp {
        Some(tree) => {
            tree.add_left_node_from_element("3".to_string());
        }
        _ => {}
    }
    let tmp = match tree.left_mut() {
        Some(tree) => tree.left_mut(),
        None => None,
    };
    assert_eq!(tmp, Some(&mut BinaryTree::from_element("3".to_string())));
}

#[test]
fn right_normal() {
    let mut tree = BinaryTree::new();
    let tmp = tree.right_mut();
    assert_eq!(tmp, None);
    tree = BinaryTree::from_element("1".to_string());
    let tmp = tree.right_mut();
    assert_eq!(tmp, Some(&mut BinaryTree::Empty));
    tree.add_right_node_from_element("2".to_string());
    let tmp = tree.right_mut();
    assert_eq!(tmp, Some(&mut BinaryTree::from_element("2".to_string())));
    match tmp {
        Some(tree) => {
            tree.add_right_node_from_element("3".to_string());
        }
        _ => {}
    }
    let tmp = match tree.right_mut() {
        Some(tree) => tree.right_mut(),
        None => None,
    };
    assert_eq!(tmp, Some(&mut BinaryTree::from_element("3".to_string())));
}

#[test]
fn add_left_node_from_element_normal() {
    let mut tree = BinaryTree::from_element("1".to_string());
    let tmp = tree.add_left_node_from_element("2".to_string());
    assert_eq!(tmp, BinaryTree::new());
    let tmp = tree.add_left_node_from_element("3".to_string());
    assert_eq!(tmp, BinaryTree::from_element("2".to_string()));
}

#[test]
fn add_right_node_from_element_normal() {
    let mut tree = BinaryTree::from_element("1".to_string());
    let tmp = tree.add_right_node_from_element("2".to_string());
    assert_eq!(tmp, BinaryTree::new());
    let tmp = tree.add_right_node_from_element("3".to_string());
    assert_eq!(tmp, BinaryTree::from_element("2".to_string()));
}

#[test]
fn delete_left_node_normal() {
    let mut tree = BinaryTree::from_element("1".to_string());
    tree.add_left_node_from_element("2".to_string());
    let tmp = tree.delete_left_node();
    assert_eq!(tmp, BinaryTree::from_element("2".to_string()));
    assert_eq!(tree, BinaryTree::from_element("1".to_string()));
}

#[test]
fn delete_right_node_normal() {
    let mut tree = BinaryTree::from_element("1".to_string());
    tree.add_right_node_from_element("2".to_string());
    let tmp = tree.delete_right_node();
    assert_eq!(tmp, BinaryTree::from_element("2".to_string()));
    assert_eq!(tree, BinaryTree::from_element("1".to_string()));
}

#[test]
fn add_on_empty_tree_replaces_it() {
    let mut tree: BinaryTree<i32> = BinaryTree::new();
    let previous = tree.add_left_node_from_element(4);
    assert_eq!(previous, BinaryTree::new());
    assert_eq!(tree, BinaryTree::from_element(4));
    let mut tree: BinaryTree<i32> = BinaryTree::new();
    let previous = tree.add_right_node_from_tree(BinaryTree::from_element(5));
    assert_eq!(previous, BinaryTree::new());
    assert_eq!(tree, BinaryTree::from_element(5));
    let mut tree: BinaryTree<i32> = BinaryTree::new();
    assert_eq!(tree.delete_left_node(), BinaryTree::new());
    assert_eq!(tree.delete_right_node(), BinaryTree::new());
    assert_eq!(tree, BinaryTree::new());
}

#[test]
fn from_element_and_tree_and_set_element() {
    let mut tree = BinaryTree::from_element_and_tree(
        1,
        BinaryTree::from_element(2),
        BinaryTree::from_element(3),
    );
    assert_eq!(tree.left(), Some(&BinaryTree::from_element(2)));
    assert_eq!(tree.right(), Some(&BinaryTree::from_element(3)));
    tree.set_element(9);
    assert_eq!(
        tree,
        BinaryTree::from_element_and_tree(9, BinaryTree::from_element(2), BinaryTree::from_element(3))
    );
    let empty: BinaryTree<i32> = BinaryTree::new();
    assert_eq!(empty.left(), None);
    assert_eq!(empty.right(), None);
}
