use vstd::prelude::*;

verus! {

/// A binary tree that owns its nodes.
#[derive(Debug, PartialEq)]
pub enum BinaryTree<T> {
    Empty,
    NonEmpty(Box<TreeNode<T>>),
}

/// One node: an element and two subtrees, each possibly empty.
#[derive(Debug, PartialEq)]
pub struct TreeNode<T> {
    pub element: T,
    pub left: BinaryTree<T>,
    pub right: BinaryTree<T>,
}

impl<T: View> View for BinaryTree<T> {
    type V = BinaryTree<T::V>;

    /// The tree of the same shape that holds the view of each element.
    open spec fn view(&self) -> BinaryTree<T::V>
        decreases self,
    {
        match self {
            BinaryTree::Empty => BinaryTree::Empty,
            BinaryTree::NonEmpty(b) => BinaryTree::NonEmpty(
                Box::new(TreeNode { element: b.element@, left: b.left@, right: b.right@ }),
            ),
        }
    }
}

impl<T> BinaryTree<T> {
    /// The tree with `element` at the root over the two given subtrees.
    pub open spec fn node(element: T, left: BinaryTree<T>, right: BinaryTree<T>) -> BinaryTree<T> {
        BinaryTree::NonEmpty(Box::new(TreeNode { element, left, right }))
    }

    /// The tree of one node.
    pub open spec fn leaf(element: T) -> BinaryTree<T> {
        Self::node(element, BinaryTree::Empty, BinaryTree::Empty)
    }

    /// The root element of a non-empty tree.
    pub open spec fn root(self) -> T
        recommends
            self is NonEmpty,
    {
        self->NonEmpty_0.element
    }

    /// The left subtree; of the empty tree, the empty tree.
    pub open spec fn left_tree(self) -> BinaryTree<T> {
        match self {
            BinaryTree::Empty => BinaryTree::Empty,
            BinaryTree::NonEmpty(b) => b.left,
        }
    }

    /// The right subtree; of the empty tree, the empty tree.
    pub open spec fn right_tree(self) -> BinaryTree<T> {
        match self {
            BinaryTree::Empty => BinaryTree::Empty,
            BinaryTree::NonEmpty(b) => b.right,
        }
    }

    /// The tree with its left subtree replaced. On the empty tree the
    /// replacement becomes the whole tree.
    pub open spec fn with_left(self, tree: BinaryTree<T>) -> BinaryTree<T> {
        match self {
            BinaryTree::Empty => tree,
            BinaryTree::NonEmpty(b) => Self::node(b.element, tree, b.right),
        }
    }

    /// The tree with its right subtree replaced. On the empty tree the
    /// replacement becomes the whole tree.
    pub open spec fn with_right(self, tree: BinaryTree<T>) -> BinaryTree<T> {
        match self {
            BinaryTree::Empty => tree,
            BinaryTree::NonEmpty(b) => Self::node(b.element, b.left, tree),
        }
    }

    /// Number of nodes.
    pub open spec fn size(self) -> nat
        decreases self,
    {
        match self {
            BinaryTree::Empty => 0,
            BinaryTree::NonEmpty(b) => 1 + b.left.size() + b.right.size(),
        }
    }

    /// The empty tree.
    pub fn new() -> (tree: BinaryTree<T>)
        ensures
            tree == BinaryTree::<T>::Empty,
    {
        BinaryTree::Empty
    }

    /// The tree whose root is `node`.
    pub fn from_node(node: TreeNode<T>) -> (tree: BinaryTree<T>)
        ensures
            tree == Self::node(node.element, node.left, node.right),
    {
        BinaryTree::NonEmpty(Box::new(node))
    }

    /// The tree of one node that holds `element`.
    pub fn from_element(element: T) -> (tree: BinaryTree<T>)
        ensures
            tree == Self::leaf(element),
    {
        Self::from_node(TreeNode { element, left: BinaryTree::new(), right: BinaryTree::new() })
    }

    /// A tree built from its root element and both subtrees.
    pub fn from_element_and_tree(element: T, left: BinaryTree<T>, right: BinaryTree<T>) -> (tree:
        BinaryTree<T>)
        ensures
            tree == Self::node(element, left, right),
    {
        Self::from_node(TreeNode { element, left, right })
    }

    /// Whether the tree has a root.
    pub fn is_non_empty(&self) -> (non_empty: bool)
        ensures
            non_empty == (*self is NonEmpty),
    {
        match self {
            BinaryTree::Empty => false,
            _ => true,
        }
    }

    /// The left subtree of a tree that has a root.
    pub fn left(&self) -> (sub: Option<&BinaryTree<T>>)
        ensures
            *self is Empty ==> sub is None,
            *self is NonEmpty ==> sub == Some(&self.left_tree()),
    {
        match self {
            BinaryTree::Empty => None,
            BinaryTree::NonEmpty(b) => Some(&b.left),
        }
    }

    /// The left subtree of a tree that has a root, to be changed in place.
    pub fn left_mut(&mut self) -> (sub: Option<&mut BinaryTree<T>>)
        ensures
            *old(self) is Empty ==> sub is None && *final(self) == *old(self),
            *old(self) is NonEmpty ==> sub is Some && *sub->Some_0 == old(self).left_tree()
                && *final(self) == old(self).with_left(*final(sub->Some_0)),
    {
        match self {
            BinaryTree::Empty => None,
            BinaryTree::NonEmpty(b) => Some(&mut b.left),
        }
    }

    /// The right subtree of a tree that has a root.
    pub fn right(&self) -> (sub: Option<&BinaryTree<T>>)
        ensures
            *self is Empty ==> sub is None,
            *self is NonEmpty ==> sub == Some(&self.right_tree()),
    {
        match self {
            BinaryTree::Empty => None,
            BinaryTree::NonEmpty(b) => Some(&b.right),
        }
    }

    /// The right subtree of a tree that has a root, to be changed in place.
    pub fn right_mut(&mut self) -> (sub: Option<&mut BinaryTree<T>>)
        ensures
            *old(self) is Empty ==> sub is None && *final(self) == *old(self),
            *old(self) is NonEmpty ==> sub is Some && *sub->Some_0 == old(self).right_tree()
                && *final(self) == old(self).with_right(*final(sub->Some_0)),
    {
        match self {
            BinaryTree::Empty => None,
            BinaryTree::NonEmpty(b) => Some(&mut b.right),
        }
    }

    /// Replaces the root element of a non-empty tree; the empty tree stays
    /// empty.
    pub fn set_element(&mut self, element: T)
        ensures
            *old(self) is Empty ==> *final(self) == *old(self),
            *old(self) is NonEmpty ==> *final(self) == Self::node(
                element,
                old(self).left_tree(),
                old(self).right_tree(),
            ),
    {
        match self {
            BinaryTree::Empty => {},
            BinaryTree::NonEmpty(b) => {
                b.element = element;
            },
        }
    }

    /// Puts `tree` in the left slot and returns what was there. On the empty
    /// tree, `tree` becomes the whole tree and the empty tree is returned.
    pub fn add_left_node_from_tree(&mut self, tree: Self) -> (previous: BinaryTree<T>)
        ensures
            *final(self) == old(self).with_left(tree),
            previous == old(self).left_tree(),
    {
        match self {
            BinaryTree::Empty => {
                *self = tree;
                BinaryTree::Empty
            },
            BinaryTree::NonEmpty(b) => {
                let mut previous = tree;
                std::mem::swap(&mut b.left, &mut previous);
                previous
            },
        }
    }

    /// Puts `tree` in the right slot and returns what was there. On the
    /// empty tree, `tree` becomes the whole tree and the empty tree is
    /// returned.
    pub fn add_right_node_from_tree(&mut self, tree: Self) -> (previous: BinaryTree<T>)
        ensures
            *final(self) == old(self).with_right(tree),
            previous == old(self).right_tree(),
    {
        match self {
            BinaryTree::Empty => {
                *self = tree;
                BinaryTree::Empty
            },
            BinaryTree::NonEmpty(b) => {
                let mut previous = tree;
                std::mem::swap(&mut b.right, &mut previous);
                previous
            },
        }
    }

    /// Puts the tree of `node` in the left slot and returns what was there.
    pub fn add_left_node_from_node(&mut self, node: TreeNode<T>) -> (previous: BinaryTree<T>)
        ensures
            *final(self) == old(self).with_left(Self::node(node.element, node.left, node.right)),
            previous == old(self).left_tree(),
    {
        self.add_left_node_from_tree(Self::from_node(node))
    }

    /// Puts the tree of `node` in the right slot and returns what was there.
    pub fn add_right_node_from_node(&mut self, node: TreeNode<T>) -> (previous: BinaryTree<T>)
        ensures
            *final(self) == old(self).with_right(Self::node(node.element, node.left, node.right)),
            previous == old(self).right_tree(),
    {
        self.add_right_node_from_tree(Self::from_node(node))
    }

    /// Puts a leaf that holds `element` in the left slot and returns what was
    /// there.
    pub fn add_left_node_from_element(&mut self, element: T) -> (previous: BinaryTree<T>)
        ensures
            *final(self) == old(self).with_left(Self::leaf(element)),
            previous == old(self).left_tree(),
    {
        self.add_left_node_from_node(
            TreeNode { element, left: BinaryTree::new(), right: BinaryTree::new() },
        )
    }

    /// Puts a leaf that holds `element` in the right slot and returns what was
    /// there.
    pub fn add_right_node_from_element(&mut self, element: T) -> (previous: BinaryTree<T>)
        ensures
            *final(self) == old(self).with_right(Self::leaf(element)),
            previous == old(self).right_tree(),
    {
        self.add_right_node_from_node(
            TreeNode { element, left: BinaryTree::new(), right: BinaryTree::new() },
        )
    }

    /// Empties the left slot and returns what was there.
    pub fn delete_left_node(&mut self) -> (previous: BinaryTree<T>)
        ensures
            *final(self) == old(self).with_left(BinaryTree::Empty),
            previous == old(self).left_tree(),
    {
        match self {
            BinaryTree::Empty => BinaryTree::Empty,
            BinaryTree::NonEmpty(b) => {
                let mut previous = BinaryTree::Empty;
                std::mem::swap(&mut b.left, &mut previous);
                previous
            },
        }
    }

    /// Empties the right slot and returns what was there.
    pub fn delete_right_node(&mut self) -> (previous: BinaryTree<T>)
        ensures
            *final(self) == old(self).with_right(BinaryTree::Empty),
            previous == old(self).right_tree(),
    {
        match self {
            BinaryTree::Empty => BinaryTree::Empty,
            BinaryTree::NonEmpty(b) => {
                let mut previous = BinaryTree::Empty;
                std::mem::swap(&mut b.right, &mut previous);
                previous
            },
        }
    }
}

} // verus!
