use vstd::prelude::*;

verus! {

/// What a message does to the node it is applied to.
#[derive(Clone, Copy, Debug, PartialEq, Eq, Structural)]
pub enum Mutation {
    /// Leaves the node as it is.
    Identity,
    /// Writes the text dump of the node's subtree, from depth zero, to the console.
    DumpSubtree,
}

/// A one-shot mutation together with the node it is addressed to.
#[derive(Clone, Copy, Debug, PartialEq, Eq, Structural)]
pub enum NodeMessage {
    /// Applied to the node whose behavior produced it.
    Own(Mutation),
    /// Applied to the immediately enclosing node.
    Parent(Mutation),
    /// Addressed past the enclosing node; the update protocol delivers it nowhere.
    Deep(Mutation),
}

impl NodeMessage {
    /// The default message: an `Own` message that changes nothing.
    pub fn new() -> (r: NodeMessage)
        ensures
            r == NodeMessage::Own(Mutation::Identity),
    {
        NodeMessage::Own(Mutation::Identity)
    }
}

} // verus!
