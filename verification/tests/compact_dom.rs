use azul_dom::dom::{convert_dom_into_compact_dom, CompactDom, Dom};
use azul_dom::id_tree::{Node, NodeDataContainer, NodeHierarchy, NodeId};
use azul_dom::node_data::{IdOrClass, NodeData, NodeType};

fn classes(names: &[&str]) -> Vec<IdOrClass> {
    names.iter().map(|n| IdOrClass::Class(n.to_string())).collect()
}

fn ids(names: &[&str]) -> Vec<IdOrClass> {
    names.iter().map(|n| IdOrClass::Id(n.to_string())).collect()
}

#[test]
fn test_compact_dom_conversion() {
    let dom: Dom = Dom::body()
        .with_child(Dom::div().with_class("class1"))
        .with_child(Dom::div().with_class("class1").with_child(Dom::div().with_id("child_2")))
        .with_child(Dom::div().with_class("class1"));

    let c0 = classes(&["class1"]);
    let c1 = classes(&["class1"]);
    let c2 = ids(&["child_2"]);
    let c3 = classes(&["class1"]);

    let expected_dom: CompactDom = CompactDom {
        root: NodeId::new(0),
        node_hierarchy: NodeHierarchy {
            internal: vec![
                Node {
                    parent: None,
                    previous_sibling: None,
                    next_sibling: None,
                    first_child: Some(NodeId::new(1)),
                    last_child: Some(NodeId::new(4)),
                },
                Node {
                    parent: Some(NodeId::new(0)),
                    previous_sibling: None,
                    next_sibling: Some(NodeId::new(2)),
                    first_child: None,
                    last_child: None,
                },
                Node {
                    parent: Some(NodeId::new(0)),
                    previous_sibling: Some(NodeId::new(1)),
                    next_sibling: Some(NodeId::new(4)),
                    first_child: Some(NodeId::new(3)),
                    last_child: Some(NodeId::new(3)),
                },
                Node {
                    parent: Some(NodeId::new(2)),
                    previous_sibling: None,
                    next_sibling: None,
                    first_child: None,
                    last_child: None,
                },
                Node {
                    parent: Some(NodeId::new(0)),
                    previous_sibling: Some(NodeId::new(2)),
                    next_sibling: None,
                    first_child: None,
                    last_child: None,
                },
            ],
        },
        node_data: NodeDataContainer {
            internal: vec![
                NodeData::body(),
                NodeData::div().with_ids_and_classes(c0),
                NodeData::div().with_ids_and_classes(c1),
                NodeData::div().with_ids_and_classes(c2),
                NodeData::div().with_ids_and_classes(c3),
            ],
        },
    };

    let got_dom = convert_dom_into_compact_dom(dom);
    if got_dom != expected_dom {
        panic!(
            "{}",
            format!(
                "expected compact dom: ----\r\n{:#?}\r\n\r\ngot compact dom: ----\r\n{:#?}\r\n",
                expected_dom, got_dom
            )
        );
    }
}

#[test]
fn test_dom_sibling_1() {
    let dom: Dom = Dom::div()
        .with_child(Dom::div().with_id("sibling-1").with_child(Dom::div().with_id("sibling-1-child-1")))
        .with_child(Dom::div().with_id("sibling-2").with_child(Dom::div().with_id("sibling-2-child-1")));

    let dom = convert_dom_into_compact_dom(dom);

    let arena = &dom;

    assert_eq!(NodeId::new(0), dom.root);

    let v = ids(&["sibling-1"]);
    assert_eq!(
        &v,
        arena.node_data.internal[arena.node_hierarchy.internal[dom.root.index]
            .first_child
            .expect("root has no first child")
            .index]
            .get_ids_and_classes()
    );

    let v = ids(&["sibling-2"]);
    assert_eq!(
        &v,
        arena.node_data.internal[arena.node_hierarchy.internal[arena.node_hierarchy.internal
            [dom.root.index]
            .first_child
            .expect("root has no first child")
            .index]
            .next_sibling
            .expect("root has no second sibling")
            .index]
            .get_ids_and_classes()
    );

    let v = ids(&["sibling-1-child-1"]);
    assert_eq!(
        &v,
        arena.node_data.internal[arena.node_hierarchy.internal[arena.node_hierarchy.internal
            [dom.root.index]
            .first_child
            .expect("root has no first child")
            .index]
            .first_child
            .expect("first child has no first child")
            .index]
            .get_ids_and_classes()
    );

    let v = ids(&["sibling-2-child-1"]);
    assert_eq!(
        &v,
        arena.node_data.internal[arena.node_hierarchy.internal[arena.node_hierarchy.internal
            [arena.node_hierarchy.internal[dom.root.index]
                .first_child
                .expect("root has no first child")
                .index]
            .next_sibling
            .expect("first child has no second sibling")
            .index]
            .first_child
            .expect("second sibling has no first child")
            .index]
            .get_ids_and_classes()
    );
}

#[test]
fn test_dom_from_iter_1() {
    let nodes: Vec<NodeData> =
        (0..5).map(|e| NodeData::new(NodeType::Label(format!("{}", e + 1)))).collect();
    let dom: Dom = Dom::from_node_data_list(nodes);
    let dom = convert_dom_into_compact_dom(dom);

    let arena = &dom;

    // We need to have 6 nodes:
    //
    // root                 NodeId(0)
    //   |-> 1              NodeId(1)
    //   |-> 2              NodeId(2)
    //   |-> 3              NodeId(3)
    //   |-> 4              NodeId(4)
    //   '-> 5              NodeId(5)

    assert_eq!(arena.len(), 6);

    // Check root node
    assert_eq!(
        arena.node_hierarchy.get(NodeId::new(0)),
        Some(&Node {
            parent: None,
            previous_sibling: None,
            next_sibling: None,
            first_child: Some(NodeId::new(1)),
            last_child: Some(NodeId::new(5)),
        })
    );
    assert_eq!(arena.node_data.get(NodeId::new(0)), Some(&NodeData::new(NodeType::Div)));

    assert_eq!(
        arena.node_hierarchy.get(NodeId::new(arena.node_hierarchy.len() - 1)),
        Some(&Node {
            parent: Some(NodeId::new(0)),
            previous_sibling: Some(NodeId::new(4)),
            next_sibling: None,
            first_child: None,
            last_child: None,
        })
    );

    assert_eq!(
        arena.node_data.get(NodeId::new(arena.node_data.len() - 1)),
        Some(&NodeData::new(NodeType::Label("5".to_string())))
    );
}

/// Test that there shouldn't be a DOM that has 0 nodes
#[test]
fn test_zero_size_dom() {
    let null_dom: Vec<NodeData> = (0..0).map(|_| NodeData::default()).collect();
    let null_dom = Dom::from_node_data_list(null_dom);
    let null_dom = convert_dom_into_compact_dom(null_dom);

    assert!(null_dom.len() == 1);
}
