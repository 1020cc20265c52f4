use node_tree::behavior::{Actor, Behavior, Courier, Patient, Printer};
use node_tree::message::{Mutation, NodeMessage};
use node_tree::node::Node;

fn node(name: &str, patient: Behavior, children: Vec<Node>) -> Node {
    Node { name: String::from(name), patient, children }
}

fn actor() -> Behavior {
    Behavior::Actor(Actor { position: 0 })
}

fn courier(message: Option<NodeMessage>) -> Behavior {
    Behavior::Courier(Courier { message })
}

#[test]
fn quiet_leaf_ticks_without_effects() {
    let mut leaf = node("leaf", courier(None), vec![]);
    let mut console: Vec<String> = Vec::new();
    assert!(leaf.update(&mut console).is_none());
    assert!(console.is_empty());
    assert_eq!(leaf.name, "leaf");
    assert!(leaf.children.is_empty());
    assert_eq!(leaf.patient, courier(None));
}

#[test]
fn printer_child_dumps_parent_each_tick() {
    let printer = node("printer", Behavior::Printer(Printer {}), vec![]);
    let mut parent = node("parent", actor(), vec![printer]);
    let mut console: Vec<String> = Vec::new();
    assert!(parent.update(&mut console).is_none());
    assert_eq!(console, vec![String::from("parent\n printer\n")]);
    for _ in 0..4 {
        assert!(parent.update(&mut console).is_none());
    }
    assert_eq!(console.len(), 5);
    for text in &console {
        assert_eq!(text, "parent\n printer\n");
    }
    assert_eq!(parent.patient, Behavior::Actor(Actor { position: 5 }));
}

#[test]
fn counter_and_reporter_children_dump_root_subtree() {
    let counter = node("counter", actor(), vec![]);
    let reporter = node("reporter", Behavior::Printer(Printer {}), vec![]);
    let mut root = node("root", actor(), vec![counter, reporter]);
    let mut console: Vec<String> = Vec::new();
    let _ = root.update(&mut console);
    assert_eq!(console, vec![String::from("root\n counter\n reporter\n")]);
    for _ in 0..4 {
        let _ = root.update(&mut console);
    }
    assert_eq!(console.len(), 5);
    assert!(console.iter().all(|t| t == "root\n counter\n reporter\n"));
    assert_eq!(root.children[0].patient, Behavior::Actor(Actor { position: 5 }));
}

#[test]
fn leaf_parent_message_stops_at_parent() {
    let leaf = node("leaf", Behavior::Printer(Printer {}), vec![]);
    let middle = node("middle", actor(), vec![leaf]);
    let mut top = node("top", actor(), vec![middle]);
    let mut console: Vec<String> = Vec::new();
    assert!(top.update(&mut console).is_none());
    assert_eq!(console, vec![String::from("middle\n leaf\n")]);
}

#[test]
fn leaf_hands_parent_message_up_unapplied() {
    let mut leaf = node("leaf", Behavior::Printer(Printer {}), vec![]);
    let mut console: Vec<String> = Vec::new();
    let r = leaf.update(&mut console);
    assert_eq!(r, Some(NodeMessage::Parent(Mutation::DumpSubtree)));
    assert!(console.is_empty());
}

#[test]
fn parent_that_reemits_bubbles_a_fresh_message() {
    let leaf = node("leaf", Behavior::Printer(Printer {}), vec![]);
    let middle = node("middle", courier(Some(NodeMessage::Parent(Mutation::DumpSubtree))), vec![leaf]);
    let mut top = node("top", actor(), vec![middle]);
    let mut console: Vec<String> = Vec::new();
    assert!(top.update(&mut console).is_none());
    assert_eq!(
        console,
        vec![String::from("middle\n leaf\n"), String::from("top\n middle\n  leaf\n")]
    );
}

#[test]
fn own_message_applies_to_its_node_only() {
    let left = node("left", actor(), vec![]);
    let own = node("own", courier(Some(NodeMessage::Own(Mutation::DumpSubtree))), vec![
        node("inner", actor(), vec![]),
    ]);
    let right = node("right", actor(), vec![]);
    let mut top = node("top", actor(), vec![left, own, right]);
    let mut console: Vec<String> = Vec::new();
    assert!(top.update(&mut console).is_none());
    assert_eq!(console, vec![String::from("own\n inner\n")]);
}

#[test]
fn own_message_is_not_handed_up() {
    let mut n = node("n", courier(Some(NodeMessage::Own(Mutation::Identity))), vec![]);
    let mut console: Vec<String> = Vec::new();
    assert!(n.update(&mut console).is_none());
    assert!(console.is_empty());
}

#[test]
fn deep_message_is_dropped() {
    let mut n = node("n", courier(Some(NodeMessage::Deep(Mutation::DumpSubtree))), vec![]);
    let mut console: Vec<String> = Vec::new();
    assert!(n.update(&mut console).is_none());
    assert!(console.is_empty());
    let child = node("child", courier(Some(NodeMessage::Deep(Mutation::DumpSubtree))), vec![]);
    let mut top = node("top", actor(), vec![child]);
    assert!(top.update(&mut console).is_none());
    assert!(console.is_empty());
}

#[test]
fn parent_ignores_child_own_and_deep() {
    let a = node("a", courier(Some(NodeMessage::Own(Mutation::Identity))), vec![]);
    let b = node("b", courier(Some(NodeMessage::Deep(Mutation::DumpSubtree))), vec![]);
    let c = node("c", courier(Some(NodeMessage::Own(Mutation::DumpSubtree))), vec![]);
    let mut top = node("top", actor(), vec![a, b, c]);
    let mut console: Vec<String> = Vec::new();
    assert!(top.update(&mut console).is_none());
    assert_eq!(console, vec![String::from("c\n")]);
}

#[test]
fn children_tick_in_order_before_parent() {
    let own = || courier(Some(NodeMessage::Own(Mutation::DumpSubtree)));
    let c1 = node("c1", own(), vec![]);
    let c2 = node("c2", own(), vec![]);
    let c3 = node("c3", own(), vec![]);
    let mut top = node("top", own(), vec![c1, c2, c3]);
    let mut console: Vec<String> = Vec::new();
    assert!(top.update(&mut console).is_none());
    assert_eq!(
        console,
        vec![
            String::from("c1\n"),
            String::from("c2\n"),
            String::from("c3\n"),
            String::from("top\n c1\n c2\n c3\n"),
        ]
    );
}

#[test]
fn sibling_parent_messages_apply_after_all_children() {
    let c1 = node("c1", Behavior::Printer(Printer {}), vec![]);
    let c2 = node("c2", courier(Some(NodeMessage::Own(Mutation::DumpSubtree))), vec![]);
    let c3 = node("c3", Behavior::Printer(Printer {}), vec![]);
    let mut top = node("top", actor(), vec![c1, c2, c3]);
    let mut console: Vec<String> = Vec::new();
    let _ = top.update(&mut console);
    let whole = String::from("top\n c1\n c2\n c3\n");
    assert_eq!(console, vec![String::from("c2\n"), whole.clone(), whole]);
}

#[test]
fn root_hands_up_its_own_parent_message() {
    let mut root = node("root", Behavior::Printer(Printer {}), vec![node("kid", actor(), vec![])]);
    let mut console: Vec<String> = Vec::new();
    assert_eq!(root.update(&mut console), Some(NodeMessage::Parent(Mutation::DumpSubtree)));
    assert!(console.is_empty());
    assert_eq!(root.children[0].patient, Behavior::Actor(Actor { position: 1 }));
}

#[test]
fn update_appends_to_console() {
    let mut n = node("n", courier(Some(NodeMessage::Own(Mutation::DumpSubtree))), vec![]);
    let mut console: Vec<String> = vec![String::from("earlier")];
    let _ = n.update(&mut console);
    assert_eq!(console, vec![String::from("earlier"), String::from("n\n")]);
}

#[test]
fn actor_counts_and_wraps() {
    let mut a = Actor { position: 0 };
    assert!(a.update().is_none());
    assert_eq!(a.position, 1);
    let mut b = Actor { position: 127 };
    assert!(b.update().is_none());
    assert_eq!(b.position, -128);
}

#[test]
fn printer_and_courier_answers() {
    let mut p = Printer {};
    assert_eq!(p.update(), Some(NodeMessage::Parent(Mutation::DumpSubtree)));
    let mut c = Courier { message: Some(NodeMessage::Deep(Mutation::Identity)) };
    assert_eq!(c.update(), Some(NodeMessage::Deep(Mutation::Identity)));
    assert_eq!(c.update(), Some(NodeMessage::Deep(Mutation::Identity)));
    let mut b = actor();
    assert!(b.update().is_none());
    assert_eq!(b, Behavior::Actor(Actor { position: 1 }));
}

#[test]
fn default_message_is_own_identity() {
    assert_eq!(NodeMessage::new(), NodeMessage::Own(Mutation::Identity));
}

#[test]
fn mutations_apply_to_given_node() {
    let n = node("a", actor(), vec![node("b", actor(), vec![])]);
    let mut console: Vec<String> = Vec::new();
    Mutation::Identity.apply(&n, &mut console);
    assert!(console.is_empty());
    Mutation::DumpSubtree.apply(&n, &mut console);
    assert_eq!(console, vec![String::from("a\n b\n")]);
}
