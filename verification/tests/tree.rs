use fbconsole::tree::{add_child, create_tree, modify_data, Node, SharedData};

#[test]
fn create_tree_builds_root_with_one_child() {
    let root = create_tree();
    assert_eq!(root.value, 42);
    assert_eq!(root.children.len(), 1);
    assert_eq!(root.children[0].value, 15);
    assert!(root.children[0].children.is_empty());
}

#[test]
fn add_child_appends_without_touching_existing_children() {
    let mut root = create_tree();
    add_child(&mut root);
    assert_eq!(root.value, 42);
    assert_eq!(root.children.len(), 2);
    assert_eq!(root.children[0].value, 15);
    assert_eq!(root.children[1].value, 15);
}

#[test]
fn add_child_on_fresh_node() {
    let mut node = Node { value: 7, children: Vec::new() };
    add_child(&mut node);
    assert_eq!(node.children.len(), 1);
    assert_eq!(node.children[0].value, 15);
}

#[test]
fn modify_data_adds_ten() {
    let mut shared = SharedData { value: 30 };
    modify_data(&mut shared);
    assert_eq!(shared.value, 40);
    modify_data(&mut shared);
    assert_eq!(shared.value, 50);
}
