use vstd::prelude::*;

verus! {

/// The position of a node in a flat, arena-based tree.
#[derive(Debug, Copy, Clone, PartialEq, Eq, Structural, Hash, PartialOrd, Ord)]
pub struct NodeId {
    pub index: usize,
}

impl NodeId {
    pub fn new(index: usize) -> (r: NodeId)
        ensures
            r.index == index,
    {
        NodeId { index }
    }

    pub fn index(&self) -> (r: usize)
        ensures
            r == self.index,
    {
        self.index
    }
}

/// The links of one node of an arena-based tree to its neighbours.
#[derive(Debug, Copy, Clone, PartialEq, Eq, Structural, Hash, PartialOrd, Ord)]
pub struct Node {
    pub parent: Option<NodeId>,
    pub previous_sibling: Option<NodeId>,
    pub next_sibling: Option<NodeId>,
    pub first_child: Option<NodeId>,
    pub last_child: Option<NodeId>,
}

impl Node {
    /// A node without parent, siblings or children.
    pub fn root() -> (r: Node)
        ensures
            r == (Node {
                parent: None,
                previous_sibling: None,
                next_sibling: None,
                first_child: None,
                last_child: None,
            }),
    {
        Node {
            parent: None,
            previous_sibling: None,
            next_sibling: None,
            first_child: None,
            last_child: None,
        }
    }
}

/// The links of all nodes of an arena-based tree, indexed by `NodeId`.
#[derive(Debug, Clone, PartialEq, Eq, Hash, PartialOrd, Ord)]
pub struct NodeHierarchy {
    pub internal: Vec<Node>,
}

impl NodeHierarchy {
    pub fn len(&self) -> (r: usize)
        ensures
            r == self.internal@.len(),
    {
        self.internal.len()
    }

    pub fn get(&self, id: NodeId) -> (r: Option<&Node>)
        ensures
            r == (if id.index < self.internal@.len() {
                Some(&self.internal@[id.index as int])
            } else {
                None
            }),
    {
        if id.index < self.internal.len() {
            Some(&self.internal[id.index])
        } else {
            None
        }
    }
}

/// The data of all nodes of an arena-based tree, indexed by `NodeId`.
#[derive(Debug, Clone, PartialEq, Eq, Hash, PartialOrd, Ord)]
pub struct NodeDataContainer<T> {
    pub internal: Vec<T>,
}

impl<T> NodeDataContainer<T> {
    pub fn len(&self) -> (r: usize)
        ensures
            r == self.internal@.len(),
    {
        self.internal.len()
    }

    pub fn get(&self, id: NodeId) -> (r: Option<&T>)
        ensures
            r == (if id.index < self.internal@.len() {
                Some(&self.internal@[id.index as int])
            } else {
                None
            }),
    {
        if id.index < self.internal.len() {
            Some(&self.internal[id.index])
        } else {
            None
        }
    }
}

} // verus!
