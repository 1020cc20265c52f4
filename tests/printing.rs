use node_tree::behavior::{Actor, Behavior, Printer};
use node_tree::node::{Node, Printable};

fn node(name: &str, children: Vec<Node>) -> Node {
    Node { name: String::from(name), patient: Behavior::Actor(Actor { position: 0 }), children }
}

#[test]
fn dump_of_three_levels() {
    let tree = node("A", vec![node("B", vec![node("C", vec![])])]);
    assert_eq!(Printer::print_recursive(&tree, 0), "A\n B\n  C\n");
}

#[test]
fn dump_is_preorder_and_starts_at_depth() {
    let tree = node("r", vec![node("x", vec![node("y", vec![])]), node("z", vec![])]);
    assert_eq!(Printer::print_recursive(&tree, 2), "  r\n   x\n    y\n   z\n");
}

#[test]
fn dump_of_single_node() {
    assert_eq!(Printer::print_recursive(&node("solo", vec![]), 0), "solo\n");
}

#[test]
fn line_is_indented_by_depth() {
    let n = node("name", vec![node("hidden", vec![])]);
    assert_eq!(Printer::print(&n, 0), "name\n");
    assert_eq!(Printer::print(&n, 3), "   name\n");
}

#[test]
fn node_prints_its_name() {
    assert_eq!(node("label", vec![]).print(), "label");
}
