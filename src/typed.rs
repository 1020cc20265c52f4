use vstd::prelude::*;

use crate::behavior::Patient;

verus! {

// Shapes of fixed arity, whose number of children is part of the type. They
// stand beside `Node` and take no part in its update protocol.

/// A node whose number of children is fixed by its type.
pub trait NodeTrait {}

/// A node without children.
pub struct Leaf<T: Patient> {
    pub name: String,
    pub patient: Box<T>,
}

impl<T: Patient> NodeTrait for Leaf<T> {}

/// A node with one child.
pub struct Twig<T: Patient, Child: NodeTrait> {
    pub name: String,
    pub patient: Box<T>,
    pub child: Child,
}

impl<T: Patient, Child: NodeTrait> NodeTrait for Twig<T, Child> {}

/// A node with two children.
pub struct Branch<T: Patient, Left: NodeTrait, Right: NodeTrait> {
    pub name: String,
    pub patient: Box<T>,
    pub left: Left,
    pub right: Right,
}

impl<T: Patient, Left: NodeTrait, Right: NodeTrait> NodeTrait for Branch<T, Left, Right> {}

impl<T: Patient> Leaf<T> {
    /// The same node, with `child` as its one child.
    pub fn add_child<Child: NodeTrait>(self, child: Child) -> (r: Twig<T, Child>)
        ensures
            r.name == self.name,
            r.patient == self.patient,
            r.child == child,
    {
        Twig { name: self.name, patient: self.patient, child: child }
    }
}

impl<T: Patient, Child: NodeTrait> Twig<T, Child> {
    /// The same node, without its child.
    pub fn delete_child(self) -> (r: Leaf<T>)
        ensures
            r.name == self.name,
            r.patient == self.patient,
    {
        Leaf { name: self.name, patient: self.patient }
    }
}

} // verus!
