use node_tree::behavior::{Actor, Printer};
use node_tree::typed::{Leaf, Twig};

#[test]
fn leaf_gains_and_loses_a_child() {
    let leaf = Leaf { name: String::from("top"), patient: Box::new(Actor { position: 3 }) };
    let child = Leaf { name: String::from("below"), patient: Box::new(Printer {}) };
    let twig: Twig<Actor, Leaf<Printer>> = leaf.add_child(child);
    assert_eq!(twig.name, "top");
    assert_eq!(twig.patient.position, 3);
    assert_eq!(twig.child.name, "below");
    let back = twig.delete_child();
    assert_eq!(back.name, "top");
    assert_eq!(back.patient.position, 3);
}
