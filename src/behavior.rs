use vstd::prelude::*;

use crate::message::{Mutation, NodeMessage};

verus! {

/// Per-tick logic owned by exactly one node.
///
/// A behavior sees only its own state. It reaches its node, or the node above,
/// only through the message it returns.
pub trait Patient: Sized {
    /// The state after one update.
    spec fn next(&self) -> Self;

    /// The message returned by one update.
    spec fn emits(&self) -> Option<NodeMessage>;

    fn update(&mut self) -> (r: Option<NodeMessage>)
        ensures
            *final(self) == old(self).next(),
            r == old(self).emits(),
    ;
}

/// Counts its ticks and never answers with a message.
#[derive(Clone, Copy, Debug, PartialEq, Eq, Structural)]
pub struct Actor {
    pub position: i8,
}

impl Patient for Actor {
    open spec fn next(&self) -> Actor {
        // past the largest value the count wraps round to the smallest
        Actor { position: if self.position == i8::MAX { i8::MIN } else { (self.position + 1) as i8 } }
    }

    open spec fn emits(&self) -> Option<NodeMessage> {
        None
    }

    fn update(&mut self) -> (r: Option<NodeMessage>) {
        if self.position == i8::MAX {
            self.position = i8::MIN;
        } else {
            self.position = self.position + 1;
        }
        None
    }
}

/// Asks its parent, on every tick, to dump the parent's subtree to the console.
#[derive(Clone, Copy, Debug, PartialEq, Eq, Structural)]
pub struct Printer {}

impl Patient for Printer {
    open spec fn next(&self) -> Printer {
        *self
    }

    open spec fn emits(&self) -> Option<NodeMessage> {
        Some(NodeMessage::Parent(Mutation::DumpSubtree))
    }

    fn update(&mut self) -> (r: Option<NodeMessage>) {
        Some(NodeMessage::Parent(Mutation::DumpSubtree))
    }
}

/// Answers every tick with the same message, or with none.
#[derive(Clone, Copy, Debug, PartialEq, Eq, Structural)]
pub struct Courier {
    pub message: Option<NodeMessage>,
}

impl Patient for Courier {
    open spec fn next(&self) -> Courier {
        *self
    }

    open spec fn emits(&self) -> Option<NodeMessage> {
        self.message
    }

    fn update(&mut self) -> (r: Option<NodeMessage>) {
        self.message
    }
}

/// The behaviors a node of a tree can hold.
#[derive(Clone, Copy, Debug, PartialEq, Eq, Structural)]
pub enum Behavior {
    Actor(Actor),
    Printer(Printer),
    Courier(Courier),
}

impl Patient for Behavior {
    open spec fn next(&self) -> Behavior {
        match *self {
            Behavior::Actor(a) => Behavior::Actor(a.next()),
            Behavior::Printer(p) => Behavior::Printer(p.next()),
            Behavior::Courier(c) => Behavior::Courier(c.next()),
        }
    }

    open spec fn emits(&self) -> Option<NodeMessage> {
        match *self {
            Behavior::Actor(a) => a.emits(),
            Behavior::Printer(p) => p.emits(),
            Behavior::Courier(c) => c.emits(),
        }
    }

    fn update(&mut self) -> (r: Option<NodeMessage>) {
        match self {
            Behavior::Actor(a) => a.update(),
            Behavior::Printer(p) => p.update(),
            Behavior::Courier(c) => c.update(),
        }
    }
}

} // verus!
