use vstd::prelude::*;

use crate::behavior::Behavior;

verus! {

/// A node of the tree: a label, the behavior it drives, and its children in
/// traversal order. Each node owns its children, so a tree is finite and acyclic.
pub struct Node {
    pub name: String,
    pub patient: Behavior,
    pub children: Vec<Node>,
}

/// The mathematical value of a `Node`.
pub struct Tree {
    pub name: Seq<char>,
    pub patient: Behavior,
    pub children: Seq<Tree>,
}

/// The value of a node.
pub open spec fn node_view(n: Node) -> Tree
    decreases n,
{
    Tree { name: n.name@, patient: n.patient, children: views(n.children@) }
}

/// The values of a sequence of nodes, in order.
pub open spec fn views(ns: Seq<Node>) -> Seq<Tree>
    decreases ns,
{
    if ns.len() == 0 {
        Seq::empty()
    } else {
        views(ns.drop_last()).push(node_view(ns.last()))
    }
}

impl View for Node {
    type V = Tree;

    open spec fn view(&self) -> Tree {
        node_view(*self)
    }
}

/// A value that shows itself as a label.
pub trait Printable {
    spec fn label(&self) -> Seq<char>;

    fn print(&self) -> (r: String)
        ensures
            r@ == self.label(),
    ;
}

impl Printable for Node {
    open spec fn label(&self) -> Seq<char> {
        self.name@
    }

    /// The node's name.
    fn print(&self) -> (r: String) {
        self.name.clone()
    }
}

/// `views` maps each node to its value.
pub proof fn lemma_views(ns: Seq<Node>)
    ensures
        views(ns).len() == ns.len(),
        forall|i: int| 0 <= i < ns.len() ==> #[trigger] views(ns)[i] == node_view(ns[i]),
    decreases ns.len(),
{
    if ns.len() > 0 {
        lemma_views(ns.drop_last());
    }
}

} // verus!
