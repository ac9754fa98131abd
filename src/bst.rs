//! An unbalanced binary search tree of `u64` values. Equal values go to the
//! right, so a value may be stored more than once.

use vstd::prelude::*;

verus! {

pub type Tree = Option<Box<Node>>;

pub struct Node {
    pub value: u64,
    left: Tree,
    right: Tree,
}

pub struct BinarySearchTree {
    root: Tree,
    pub length: u64,
}

/// The values stored in a subtree.
pub closed spec fn tree_values(t: Tree) -> Set<u64>
    decreases t,
{
    match t {
        None => Set::empty(),
        Some(n) => n.values(),
    }
}

/// The number of nodes of a subtree.
pub closed spec fn tree_size(t: Tree) -> nat
    decreases t,
{
    match t {
        None => 0,
        Some(n) => n.size(),
    }
}

/// A subtree is in search-tree order.
pub closed spec fn tree_ordered(t: Tree) -> bool
    decreases t,
{
    match t {
        None => true,
        Some(n) => n.well_formed(),
    }
}

/// The search path's answer for `v` in a subtree.
pub closed spec fn right_child_of(t: Tree, v: u64) -> Option<u64>
    decreases t,
{
    match t {
        None => None,
        Some(n) => n.right_child_spec(v),
    }
}

/// The rows of a subtree as drawn sideways, the root at depth `depth`.
pub closed spec fn tree_rows(t: Tree, depth: u64) -> Seq<(u64, u64)>
    decreases t,
{
    match t {
        None => seq![],
        Some(n) => n.rows(depth),
    }
}

impl Node {
    /// The subtree rooted here drawn sideways: the right subtree one level
    /// deeper, this node at `depth`, then the left subtree one level deeper.
    pub closed spec fn rows(&self, depth: u64) -> Seq<(u64, u64)>
        decreases *self,
    {
        tree_rows(self.right, (depth + 1) as u64) + seq![(depth, self.value)] + tree_rows(
            self.left,
            (depth + 1) as u64,
        )
    }

    /// The values of the subtree rooted here.
    pub closed spec fn values(&self) -> Set<u64>
        decreases *self,
    {
        tree_values(self.left).union(tree_values(self.right)).insert(self.value)
    }

    /// The number of nodes of the subtree rooted here.
    pub closed spec fn size(&self) -> nat
        decreases *self,
    {
        1 + tree_size(self.left) + tree_size(self.right)
    }

    /// The search-tree order: left of a node only smaller values, right of it
    /// only values at least as large.
    pub closed spec fn well_formed(&self) -> bool
        decreases *self,
    {
        &&& forall|x: u64| tree_values(self.left).contains(x) ==> x < self.value
        &&& forall|x: u64| tree_values(self.right).contains(x) ==> x >= self.value
        &&& tree_ordered(self.left)
        &&& tree_ordered(self.right)
    }

    /// Following the search path for `v` from here: at the first node that
    /// holds `v`, the value of its right child, if it has one.
    pub closed spec fn right_child_spec(&self, v: u64) -> Option<u64>
        decreases *self,
    {
        if v == self.value {
            match self.right {
                None => None,
                Some(r) => Some(r.value),
            }
        } else if v < self.value {
            right_child_of(self.left, v)
        } else {
            right_child_of(self.right, v)
        }
    }
}

impl View for BinarySearchTree {
    type V = Set<u64>;

    closed spec fn view(&self) -> Set<u64> {
        tree_values(self.root)
    }
}

impl BinarySearchTree {
    /// In search-tree order, with `length` the number of nodes.
    pub closed spec fn well_formed(&self) -> bool {
        &&& tree_ordered(self.root)
        &&& self.length == tree_size(self.root)
    }

    /// The tree drawn sideways, from the root at depth 0.
    pub closed spec fn rows(&self) -> Seq<(u64, u64)> {
        tree_rows(self.root, 0)
    }

    /// The number of values added.
    pub closed spec fn count(&self) -> u64 {
        self.length
    }

    /// The search path's answer for `v`.
    pub closed spec fn right_child_spec(&self, v: u64) -> Option<u64> {
        right_child_of(self.root, v)
    }

    /// An empty tree.
    pub fn new() -> (r: Self)
        ensures
            r.well_formed(),
            r@ == Set::<u64>::empty(),
            r.count() == 0,
    {
        BinarySearchTree { root: None, length: 0 }
    }

    /// Adds `value` as a new leaf; `length` counts it.
    pub fn add(&mut self, value: u64)
        requires
            old(self).well_formed(),
            old(self).count() < u64::MAX,
        ensures
            final(self).well_formed(),
            final(self)@ == old(self)@.insert(value),
            final(self).count() == old(self).count() + 1,
    {
        self.length += 1;
        let new_node = Node { value, left: None, right: None };
        let new_node = Some(Box::new(new_node));
        match self.root.take() {
            None => {
                self.root = new_node;
                assert(self.root->Some_0.values() =~= Set::<u64>::empty().insert(value));
            },
            Some(mut node) => {
                BinarySearchTree::add_node(&mut node, new_node);
                self.root = Some(node);
            },
        }
    }

    /// Hangs the leaf `new_node` below `node`, left of smaller values and
    /// right of the others.
    fn add_node(node: &mut Node, new_node: Tree)
        requires
            old(node).well_formed(),
            new_node matches Some(n) && n.left is None && n.right is None,
        ensures
            final(node).well_formed(),
            final(node).values() == old(node).values().insert(new_node->Some_0.value),
            final(node).size() == old(node).size() + 1,
            final(node).value == old(node).value,
        decreases *old(node),
    {
        let v = new_node.as_ref().unwrap().value;
        let ghost leaf = new_node->Some_0;
        assert(tree_values(new_node) == leaf.values());
        assert(leaf.values() =~= Set::<u64>::empty().insert(v));
        assert(tree_size(new_node) == leaf.size());
        assert(leaf.size() == 1);
        assert(leaf.well_formed());
        assert(tree_ordered(new_node));
        if v < node.value {
            match node.left.take() {
                None => {
                    node.left = new_node;
                },
                Some(mut left_node) => {
                    assert(tree_values(old(node).left) == left_node.values());
                    assert(tree_ordered(old(node).left) == left_node.well_formed());
                    assert(tree_size(old(node).left) == left_node.size());
                    BinarySearchTree::add_node(&mut left_node, new_node);
                    node.left = Some(left_node);
                    assert(tree_values(node.left) == left_node.values());
                    assert(tree_ordered(node.left) == left_node.well_formed());
                    assert(tree_size(node.left) == left_node.size());
                },
            }
            assert(tree_values(node.left) =~= tree_values(old(node).left).insert(v));
            assert(tree_size(node.left) == tree_size(old(node).left) + 1);
        } else {
            match node.right.take() {
                None => {
                    node.right = new_node;
                },
                Some(mut right_node) => {
                    assert(tree_values(old(node).right) == right_node.values());
                    assert(tree_ordered(old(node).right) == right_node.well_formed());
                    assert(tree_size(old(node).right) == right_node.size());
                    BinarySearchTree::add_node(&mut right_node, new_node);
                    node.right = Some(right_node);
                    assert(tree_values(node.right) == right_node.values());
                    assert(tree_ordered(node.right) == right_node.well_formed());
                    assert(tree_size(node.right) == right_node.size());
                },
            }
            assert(tree_values(node.right) =~= tree_values(old(node).right).insert(v));
            assert(tree_size(node.right) == tree_size(old(node).right) + 1);
        }
        assert(node.values() =~= old(node).values().insert(v));
    }

    /// Whether `value` is in the tree.
    pub fn find(&self, value: u64) -> (r: bool)
        requires
            self.well_formed(),
        ensures
            r == self@.contains(value),
    {
        match self.root {
            None => false,
            Some(ref node) => BinarySearchTree::find_node(node, value),
        }
    }

    /// Whether `value` is in the subtree rooted at `node`.
    pub fn find_node(node: &Node, value: u64) -> (r: bool)
        requires
            node.well_formed(),
        ensures
            r == node.values().contains(value),
        decreases node,
    {
        assert(node.values() == tree_values(node.left).union(tree_values(node.right)).insert(
            node.value,
        ));
        assert(forall|x: u64| tree_values(node.right).contains(x) ==> x >= node.value);
        if value == node.value {
            true
        } else if value < node.value {
            assert(!tree_values(node.right).contains(value));
            match node.left {
                None => false,
                Some(ref left_node) => BinarySearchTree::find_node(left_node, value),
            }
        } else {
            match node.right {
                None => false,
                Some(ref right_node) => BinarySearchTree::find_node(right_node, value),
            }
        }
    }

    /// On the search path for `value`, the value of the right child of the
    /// first node that holds `value`, if both exist.
    pub fn find_right(&self, value: u64) -> (r: Option<u64>)
        ensures
            r == self.right_child_spec(value),
    {
        match self.root {
            None => None,
            Some(ref node) => BinarySearchTree::find_right_node(node, value),
        }
    }

    /// `find_right` in the subtree rooted at `node`.
    pub fn find_right_node(node: &Node, value: u64) -> (r: Option<u64>)
        ensures
            r == node.right_child_spec(value),
        decreases node,
    {
        if value == node.value {
            match node.right {
                None => None,
                Some(ref right_node) => Some(right_node.value),
            }
        } else if value < node.value {
            match node.left {
                None => None,
                Some(ref left_node) => BinarySearchTree::find_right_node(left_node, value),
            }
        } else {
            match node.right {
                None => None,
                Some(ref right_node) => BinarySearchTree::find_right_node(right_node, value),
            }
        }
    }
    /// The tree drawn sideways, as `(depth, value)` rows from top to bottom:
    /// larger values first, each row's depth its distance from the root.
    pub fn layout(&self) -> (r: Vec<(u64, u64)>)
        requires
            self.well_formed(),
        ensures
            r@ == self.rows(),
    {
        let mut out: Vec<(u64, u64)> = Vec::new();
        match self.root {
            None => {},
            Some(ref node) => {
                BinarySearchTree::layout_node(node, 0, &mut out);
            },
        }
        out
    }

    /// Appends the rows of the subtree rooted at `node`, drawn from `depth`.
    pub fn layout_node(node: &Node, depth: u64, out: &mut Vec<(u64, u64)>)
        requires
            depth + node.size() <= u64::MAX,
        ensures
            final(out)@ == old(out)@ + node.rows(depth),
        decreases node,
    {
        let ghost start = out@;
        match node.right {
            None => {},
            Some(ref right_node) => {
                BinarySearchTree::layout_node(right_node, depth + 1, out);
            },
        }
        out.push((depth, node.value));
        match node.left {
            None => {},
            Some(ref left_node) => {
                BinarySearchTree::layout_node(left_node, depth + 1, out);
            },
        }
        assert(out@ =~= start + node.rows(depth));
    }
}

} // verus!
