//! A small owned tree, plus a shared counter record: the crate's
//! demonstration data structures.

use vstd::prelude::*;

verus! {

/// A tree node that owns its children.
pub struct Node {
    pub value: i32,
    pub children: Vec<Node>,
}

/// Builds the demonstration tree: a root holding 42 with one child.
pub fn create_tree() -> (r: Node)
    ensures
        r.value == 42,
        r.children@.len() == 1,
        r.children@[0].value == 15,
        r.children@[0].children@.len() == 0,
{
    let mut root = Node { value: 42, children: Vec::new() };
    add_child(&mut root);
    root
}

/// Appends a child holding 15 to the node's children.
pub fn add_child(tree: &mut Node)
    ensures
        final(tree).value == old(tree).value,
        final(tree).children@.len() == old(tree).children@.len() + 1,
        forall|i: int|
            0 <= i < old(tree).children@.len() ==> final(tree).children@[i] == old(
                tree,
            ).children@[i],
        final(tree).children@.last().value == 15,
        final(tree).children@.last().children@.len() == 0,
{
    let child = Node { value: 15, children: Vec::new() };
    tree.children.push(child);
}

/// A record shared between cooperative tasks.
pub struct SharedData {
    pub value: u32,
}

/// The mutation the shared-data task applies: adds ten to the value.
pub fn modify_data(shared: &mut SharedData)
    requires
        old(shared).value + 10 <= u32::MAX,
    ensures
        final(shared).value == old(shared).value + 10,
{
    shared.value = shared.value + 10;
}

} // verus!
