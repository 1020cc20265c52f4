use vstd::prelude::*;

use crate::behavior::Patient;
use crate::message::{Mutation, NodeMessage};
use crate::node::Tree;
use crate::tick::{
    effect, forwarded, lemma_tick_all, own_effect, received, tick, tick_all,
};

verus! {

/// The results that `received` takes in split at any position.
proof fn lemma_received_split(g: Tree, a: Seq<Option<NodeMessage>>, b: Seq<Option<NodeMessage>>)
    ensures
        received(g, a + b) == received(g, a) + received(g, b),
    decreases b.len(),
{
    if b.len() == 0 {
        assert(a + b =~= a);
        assert(received(g, a + b) =~= received(g, a) + received(g, b));
    } else {
        lemma_received_split(g, a, b.drop_last());
        assert((a + b).drop_last() =~= a + b.drop_last());
        assert(received(g, a + b) =~= received(g, a) + received(g, b));
    }
}

/// What the children's ticks write, child by child.
proof fn lemma_tick_all_output(ts: Seq<Tree>)
    ensures
        tick_all(ts).output == Seq::new(ts.len(), |j: int| tick(ts[j]).output).flatten(),
    decreases ts.len(),
{
    let parts = Seq::new(ts.len(), |j: int| tick(ts[j]).output);
    if ts.len() > 0 {
        let front = ts.drop_last();
        lemma_tick_all_output(front);
        let front_parts = Seq::new(front.len(), |j: int| tick(front[j]).output);
        assert(parts =~= front_parts.push(tick(ts.last()).output));
        front_parts.lemma_flatten_push(tick(ts.last()).output);
    } else {
        assert(parts =~= Seq::<Seq<Seq<char>>>::empty());
    }
}

/// A node hands up a message only when its own behavior answered with a
/// `Parent` message, and then hands up that message; no child's message passes
/// through it. So an `Own` or `Deep` message never leaves a node.
pub proof fn law_handed_up_by_own_behavior_only(t: Tree)
    ensures
        tick(t).message == forwarded(t.patient.emits()),
        tick(t).message is None || tick(t).message is Some && tick(t).message->0 is Parent,
{
}

/// A `Parent` message emitted by a leaf's behavior is not applied at the leaf
/// but handed up as it is. The leaf's parent applies it to itself exactly once,
/// after what it takes in from the earlier children and before what it takes in
/// from the later ones; and what the parent hands up in turn comes from its own
/// behavior alone, so the message goes no further.
pub proof fn law_leaf_message_stops_at_parent(t: Tree, i: int, m: Mutation)
    requires
        0 <= i < t.children.len(),
        t.children[i].children.len() == 0,
        t.children[i].patient.emits() == Some(NodeMessage::Parent(m)),
    ensures
        tick(t.children[i]).output == Seq::<Seq<char>>::empty(),
        tick(t.children[i]).message == Some(NodeMessage::Parent(m)),
        ({
            let kids = tick_all(t.children);
            let g = Tree { children: kids.trees, ..t };
            &&& kids.messages[i] == Some(NodeMessage::Parent(m))
            &&& received(g, kids.messages) == received(g, kids.messages.take(i)) + effect(m, g)
                + received(g, kids.messages.skip(i + 1))
        }),
        tick(t).message == forwarded(t.patient.emits()),
{
    let leaf = t.children[i];
    assert(tick_all(leaf.children).output =~= Seq::<Seq<char>>::empty());
    assert(tick(leaf).output =~= Seq::<Seq<char>>::empty());
    lemma_tick_all(t.children);
    let kids = tick_all(t.children);
    let g = Tree { children: kids.trees, ..t };
    let ms = kids.messages;
    let one = seq![ms[i]];
    assert(ms =~= ms.take(i) + one + ms.skip(i + 1));
    lemma_received_split(g, ms.take(i) + one, ms.skip(i + 1));
    lemma_received_split(g, ms.take(i), one);
    assert(one.drop_last() =~= Seq::<Option<NodeMessage>>::empty());
    assert(received(g, one.drop_last()) =~= Seq::<Seq<char>>::empty());
    assert(one.last() == Some(NodeMessage::Parent(m)));
    assert(received(g, one) =~= effect(m, g));
}

/// An `Own` message from a node's behavior is applied to that node, last of
/// all that its tick writes, and is handed to no other node.
pub proof fn law_own_message_stays_at_node(t: Tree, m: Mutation)
    requires
        t.patient.emits() == Some(NodeMessage::Own(m)),
    ensures
        tick(t).message is None,
        ({
            let kids = tick_all(t.children);
            let g = Tree { children: kids.trees, ..t };
            tick(t).output == kids.output + received(g, kids.messages) + effect(m, tick(t).tree)
        }),
{
}

/// A child's result that is tagged `Own` or `Deep` leaves its parent as if the
/// child had returned nothing.
pub proof fn law_parent_ignores_own_and_deep(g: Tree, results: Seq<Option<NodeMessage>>, i: int)
    requires
        0 <= i < results.len(),
        results[i] is Some,
        results[i]->0 is Own || results[i]->0 is Deep,
    ensures
        received(g, results) == received(g, results.update(i, None)),
{
    let other = results.update(i, None);
    let one = seq![results[i]];
    let none = seq![None::<NodeMessage>];
    assert(results =~= results.take(i) + one + results.skip(i + 1));
    assert(other =~= results.take(i) + none + results.skip(i + 1));
    lemma_received_split(g, results.take(i) + one, results.skip(i + 1));
    lemma_received_split(g, results.take(i), one);
    lemma_received_split(g, results.take(i) + none, results.skip(i + 1));
    lemma_received_split(g, results.take(i), none);
    assert(one.drop_last() =~= Seq::<Option<NodeMessage>>::empty());
    assert(none.drop_last() =~= Seq::<Option<NodeMessage>>::empty());
    assert(received(g, one.drop_last()) =~= Seq::<Seq<char>>::empty());
    assert(received(g, none.drop_last()) =~= Seq::<Seq<char>>::empty());
    assert(received(g, one) =~= Seq::<Seq<char>>::empty());
    assert(received(g, none) =~= Seq::<Seq<char>>::empty());
}

/// The children tick one after the other, in order, and all of them before the
/// node takes in their results and before its own behavior runs: a tick writes
/// the first child's output, then the second's, and so on, then what the node
/// takes in from them, then what its own behavior's answer writes.
pub proof fn law_children_tick_in_order(t: Tree)
    ensures
        ({
            let kids = tick_all(t.children);
            let g = Tree { children: kids.trees, ..t };
            tick(t).output == Seq::new(t.children.len(), |j: int| tick(t.children[j]).output).flatten()
                + received(g, kids.messages) + own_effect(t.patient.emits(), tick(t).tree)
        }),
{
    lemma_tick_all_output(t.children);
}

/// A leaf whose behavior answers with nothing writes nothing, hands up nothing,
/// and changes only by its behavior's own update.
pub proof fn law_quiet_leaf(t: Tree)
    requires
        t.children.len() == 0,
        t.patient.emits() is None,
    ensures
        tick(t).output == Seq::<Seq<char>>::empty(),
        tick(t).message is None,
        tick(t).tree == (Tree { patient: t.patient.next(), ..t }),
{
    assert(tick_all(t.children).output =~= Seq::<Seq<char>>::empty());
    assert(tick(t).output =~= Seq::<Seq<char>>::empty());
    assert(tick_all(t.children).trees =~= t.children);
}

} // verus!
