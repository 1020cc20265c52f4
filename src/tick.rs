use vstd::prelude::*;

use crate::behavior::{Patient, Printer};
use crate::message::{Mutation, NodeMessage};
use crate::node::{Node, Tree, lemma_views, views};
use crate::printer::dump;

verus! {

/// The texts held by a console, in the order they were written.
pub open spec fn texts(console: Seq<String>) -> Seq<Seq<char>> {
    console.map_values(|s: String| s@)
}

/// What applying `m` to a node of value `t` writes to the console.
/// No mutation changes the node itself.
pub open spec fn effect(m: Mutation, t: Tree) -> Seq<Seq<char>> {
    match m {
        Mutation::Identity => Seq::empty(),
        Mutation::DumpSubtree => seq![dump(t, 0)],
    }
}

/// What a node of value `t` writes when it takes in its children's results,
/// in order: each `Parent` message is applied to it, every other result is dropped.
pub open spec fn received(t: Tree, results: Seq<Option<NodeMessage>>) -> Seq<Seq<char>>
    decreases results.len(),
{
    if results.len() == 0 {
        Seq::empty()
    } else {
        received(t, results.drop_last()) + match results.last() {
            Some(NodeMessage::Parent(m)) => effect(m, t),
            _ => Seq::empty(),
        }
    }
}

/// The outcome of one tick of a subtree.
pub struct Tick {
    /// The subtree afterwards.
    pub tree: Tree,
    /// The message handed to the enclosing node.
    pub message: Option<NodeMessage>,
    /// What was written to the console, in order.
    pub output: Seq<Seq<char>>,
}

/// The outcome of one tick of each of a sequence of sibling subtrees, in order.
pub struct Ticks {
    pub trees: Seq<Tree>,
    pub messages: Seq<Option<NodeMessage>>,
    pub output: Seq<Seq<char>>,
}

/// The message a node hands up when its own behavior answered `own`: only a
/// `Parent` message travels on.
pub open spec fn forwarded(own: Option<NodeMessage>) -> Option<NodeMessage> {
    match own {
        Some(NodeMessage::Parent(m)) => Some(NodeMessage::Parent(m)),
        _ => None,
    }
}

/// What a node writes on applying its own behavior's answer `own` to itself.
pub open spec fn own_effect(own: Option<NodeMessage>, t: Tree) -> Seq<Seq<char>> {
    match own {
        Some(NodeMessage::Own(m)) => effect(m, t),
        _ => Seq::empty(),
    }
}

/// One tick of the subtree `t`: its children tick in order; the `Parent`
/// messages they return are applied to the root in order; then the root's
/// behavior updates, and its answer is applied to the root (`Own`), handed up
/// (`Parent`) or dropped (`Deep`).
pub open spec fn tick(t: Tree) -> Tick
    decreases t,
{
    let kids = tick_all(t.children);
    let gathered = Tree { children: kids.trees, ..t };
    let updated = Tree { patient: t.patient.next(), ..gathered };
    let own = t.patient.emits();
    Tick {
        tree: updated,
        message: forwarded(own),
        output: kids.output + received(gathered, kids.messages) + own_effect(own, updated),
    }
}

/// One tick of each of the subtrees `ts`, in order.
pub open spec fn tick_all(ts: Seq<Tree>) -> Ticks
    decreases ts,
{
    if ts.len() == 0 {
        Ticks { trees: Seq::empty(), messages: Seq::empty(), output: Seq::empty() }
    } else {
        let front = tick_all(ts.drop_last());
        let last = tick(ts.last());
        Ticks {
            trees: front.trees.push(last.tree),
            messages: front.messages.push(last.message),
            output: front.output + last.output,
        }
    }
}

/// `tick_all` ticks each subtree on its own.
pub proof fn lemma_tick_all(ts: Seq<Tree>)
    ensures
        tick_all(ts).trees.len() == ts.len(),
        tick_all(ts).messages.len() == ts.len(),
        forall|i: int| 0 <= i < ts.len() ==> #[trigger] tick_all(ts).trees[i] == tick(ts[i]).tree,
        forall|i: int| 0 <= i < ts.len() ==> #[trigger] tick_all(ts).messages[i] == tick(ts[i]).message,
    decreases ts.len(),
{
    if ts.len() > 0 {
        lemma_tick_all(ts.drop_last());
    }
}

proof fn lemma_texts_push(console: Seq<String>, s: String)
    ensures
        texts(console.push(s)) == texts(console).push(s@),
{
    assert(texts(console.push(s)) =~= texts(console).push(s@));
}

impl Mutation {
    /// Applies the mutation to `node`, writing what it prints to `console`.
    pub fn apply(&self, node: &Node, console: &mut Vec<String>)
        ensures
            texts(final(console)@) == texts(old(console)@) + effect(*self, node@),
    {
        match self {
            Mutation::Identity => {
                assert(texts(console@) =~= texts(old(console)@) + effect(*self, node@));
            },
            Mutation::DumpSubtree => {
                let text = Printer::print_recursive(node, 0);
                proof {
                    lemma_texts_push(console@, text);
                }
                console.push(text);
                assert(texts(console@) =~= texts(old(console)@) + effect(*self, node@));
            },
        }
    }
}

impl Node {
    /// One tick of this node's subtree (see `tick`). Dumps are written to
    /// `console`; the result is the message for the enclosing node.
    pub fn update(&mut self, console: &mut Vec<String>) -> (r: Option<NodeMessage>)
        ensures
            final(self)@ == tick(old(self)@).tree,
            r == tick(old(self)@).message,
            texts(final(console)@) == texts(old(console)@) + tick(old(self)@).output,
        decreases *old(self),
    {
        let ghost start = self@;
        let ghost kids = tick_all(start.children);
        proof {
            lemma_views(self.children@);
            lemma_tick_all(start.children);
        }
        // every child ticks, in order; their results wait until all have ticked
        let n = self.children.len();
        let mut results: Vec<Option<NodeMessage>> = Vec::new();
        let mut i: usize = 0;
        assert(texts(console@) =~= texts(old(console)@) + tick_all(start.children.take(0)).output);
        while i < n
            invariant
                i <= n,
                n == self.children@.len(),
                n == old(self).children@.len(),
                n == start.children.len(),
                self.name == old(self).name,
                self.patient == old(self).patient,
                start == old(self)@,
                kids == tick_all(start.children),
                kids.trees.len() == n,
                kids.messages.len() == n,
                forall|j: int| 0 <= j < n ==> #[trigger] kids.trees[j] == tick(start.children[j]).tree,
                forall|j: int| 0 <= j < n ==> #[trigger] kids.messages[j] == tick(start.children[j]).message,
                forall|j: int| i <= j < n ==> #[trigger] self.children@[j] == old(self).children@[j],
                forall|j: int| 0 <= j < n ==> #[trigger] start.children[j] == old(self).children@[j]@,
                forall|j: int| 0 <= j < i ==> #[trigger] self.children@[j]@ == kids.trees[j],
                results@ == kids.messages.take(i as int),
                texts(console@) == texts(old(console)@) + tick_all(start.children.take(i as int)).output,
            decreases n - i,
        {
            let ghost before = start.children.take(i as int);
            proof {
                assert(decreases_to!(*old(self) => old(self).children));
                assert(decreases_to!(old(self).children => old(self).children@[i as int]));
            }
            let r = self.children[i].update(console);
            results.push(r);
            proof {
                let ts = start.children.take(i + 1);
                assert(ts.drop_last() =~= before);
                assert(results@ =~= kids.messages.take(i + 1));
            }
            i += 1;
        }
        proof {
            lemma_views(self.children@);
            assert(start.children.take(n as int) =~= start.children);
            assert(self@.children == views(self.children@));
            assert forall|j: int| 0 <= j < n implies #[trigger] self@.children[j] == kids.trees[j] by {
                assert(self.children@[j]@ == kids.trees[j]);
            }
            assert(self@.children =~= kids.trees);
            assert(results@ =~= kids.messages);
        }
        let ghost gathered = self@;
        let ghost heard_from = texts(console@);
        assert(texts(console@) =~= heard_from + received(gathered, results@.take(0)));
        // the children's `Parent` messages, in order, apply to this node
        let mut k: usize = 0;
        while k < n
            invariant
                k <= n,
                results@.len() == n,
                self@ == gathered,
                texts(console@) == heard_from + received(gathered, results@.take(k as int)),
            decreases n - k,
        {
            if let Some(NodeMessage::Parent(m)) = results[k] {
                m.apply(self, console);
            }
            proof {
                assert(results@.take(k + 1).drop_last() =~= results@.take(k as int));
            }
            assert(texts(console@) =~= heard_from + received(gathered, results@.take(k + 1)));
            k += 1;
        }
        assert(results@.take(n as int) =~= results@);
        // then this node's own behavior, whose `Parent` answer alone travels up
        let own = self.patient.update();
        proof {
            lemma_views(self.children@);
        }
        match own {
            Some(NodeMessage::Own(m)) => {
                m.apply(self, console);
            },
            _ => {},
        }
        assert(texts(console@) =~= texts(old(console)@) + tick(start).output);
        match own {
            Some(NodeMessage::Parent(m)) => Some(NodeMessage::Parent(m)),
            _ => None,
        }
    }
}

} // verus!
