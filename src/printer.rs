use vstd::prelude::*;

use crate::behavior::Printer;
use crate::node::{Node, Tree, lemma_views};

verus! {

/// `n` spaces.
pub open spec fn spaces(n: nat) -> Seq<char> {
    Seq::new(n, |i: int| ' ')
}

/// The line that shows a node of the given name at the given depth.
pub open spec fn line(name: Seq<char>, depth: nat) -> Seq<char> {
    spaces(depth) + name + seq!['\n']
}

/// The dump of a subtree whose root stands at `depth`: the root's line, then
/// the dump of each child, in order, one level deeper.
pub open spec fn dump(t: Tree, depth: nat) -> Seq<char>
    decreases t,
{
    line(t.name, depth) + dump_all(t.children, depth + 1)
}

/// The dumps of a sequence of sibling subtrees, one after the other.
pub open spec fn dump_all(ts: Seq<Tree>, depth: nat) -> Seq<char>
    decreases ts,
{
    if ts.len() == 0 {
        Seq::empty()
    } else {
        dump_all(ts.drop_last(), depth) + dump(ts.last(), depth)
    }
}

/// The indentation of a line at `depth`.
fn indentation(depth: usize) -> (r: String)
    ensures
        r@ == spaces(depth as nat),
{
    let mut s = String::new();
    let mut k: usize = 0;
    while k < depth
        invariant
            k <= depth,
            s@ == spaces(k as nat),
        decreases depth - k,
    {
        proof {
            reveal_strlit(" ");
        }
        s.append(" ");
        assert(s@ =~= spaces((k + 1) as nat));
        k += 1;
    }
    s
}

/// Appends the dump of `node`'s subtree, with `indent` as the root's indentation.
fn write_subtree(node: &Node, indent: &String, Ghost(depth): Ghost<nat>, out: &mut String)
    requires
        indent@ == spaces(depth),
    ensures
        final(out)@ == old(out)@ + dump(node@, depth),
    decreases node,
{
    proof {
        reveal_strlit(" ");
        reveal_strlit("\n");
        lemma_views(node.children@);
    }
    out.append(indent.as_str());
    out.append(node.name.as_str());
    out.append("\n");
    let mut deeper = indent.clone();
    deeper.append(" ");
    assert(deeper@ =~= spaces(depth + 1));
    let ghost head = old(out)@ + line(node@.name, depth);
    assert(out@ =~= head + dump_all(node@.children.take(0), depth + 1));
    let mut i: usize = 0;
    while i < node.children.len()
        invariant
            i <= node.children@.len(),
            node@.children.len() == node.children@.len(),
            forall|j: int| 0 <= j < node.children@.len() ==> #[trigger] node@.children[j] == node.children@[j]@,
            deeper@ == spaces(depth + 1),
            out@ == head + dump_all(node@.children.take(i as int), depth + 1),
        decreases node.children@.len() - i,
    {
        write_subtree(&node.children[i], &deeper, Ghost(depth + 1), out);
        proof {
            let ts = node@.children.take(i + 1);
            assert(ts.drop_last() =~= node@.children.take(i as int));
            assert(out@ =~= head + dump_all(ts, depth + 1));
        }
        i += 1;
    }
    assert(node@.children.take(i as int) =~= node@.children);
    assert(out@ =~= old(out)@ + dump(node@, depth));
}

impl Printer {
    /// The line of one node at `depth`: `depth` spaces, the name, a newline.
    pub fn print(node: &Node, depth: usize) -> (r: String)
        ensures
            r@ == line(node.name@, depth as nat),
    {
        let mut s = indentation(depth);
        proof {
            reveal_strlit("\n");
        }
        s.append(node.name.as_str());
        s.append("\n");
        s
    }

    /// The dump of `node`'s subtree with `node` at `depth`: one line per node,
    /// in pre-order, each indented by one space per level.
    pub fn print_recursive(node: &Node, depth: usize) -> (r: String)
        ensures
            r@ == dump(node@, depth as nat),
    {
        let indent = indentation(depth);
        let mut out = String::new();
        write_subtree(node, &indent, Ghost(depth as nat), &mut out);
        assert(out@ =~= dump(node@, depth as nat));
        out
    }
}

} // verus!
