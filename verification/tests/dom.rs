use azul_css::props::property::{CssProperty, CssPropertyType};
use azul_dom::dom::{convert_dom_into_compact_dom, Dom};
use azul_dom::events::{EventFilter, FocusEventFilter};
use azul_dom::id_tree::NodeId;
use azul_dom::node_data::{IdOrClass, NodeData, NodeDataInlineCssProperty, NodeType};
use azul_dom::resources::{ImageId, RefAny, TextId};
use azul_dom::tab_index::TabIndex;

#[test]
fn html_of_a_small_tree() {
    let dom = Dom::body().with_child(Dom::div().with_class("a")).with_child(Dom::label("hi"));
    assert_eq!(
        dom.get_html_string(),
        "<body>\r\n    <div id = \"\" class = \"a\" />\r\n    <p>hi\r\n    </p>\r\n</body>"
    );
}

#[test]
fn html_of_a_single_node() {
    assert_eq!(Dom::div().get_html_string(), "<div />");
    assert_eq!(Dom::text(TextId { id: 2 }).get_html_string(), "<p>textid(TextId { id: 2 })\r\n</p>");
}

#[test]
fn html_nests_indentation() {
    let dom = Dom::div().with_child(Dom::div().with_child(Dom::image(ImageId { id: 1 })));
    assert_eq!(
        dom.get_html_string(),
        "<div>\r\n    <div>\r\n        <img>image(ImageId { id: 1 })\r\n        </img>\r\n    </div>\r\n</div>"
    );
}

#[test]
fn children_are_counted() {
    let dom = Dom::div()
        .with_child(Dom::div().with_child(Dom::div()).with_child(Dom::div()))
        .with_child(Dom::div());
    let compact = convert_dom_into_compact_dom(dom);
    assert_eq!(compact.len(), 5);
    assert_eq!(compact.node_data.len(), 5);
    assert_eq!(compact.root, NodeId::new(0));
}

#[test]
fn builders_act_on_the_root() {
    let mut dom = Dom::new(NodeType::Body)
        .with_id("i")
        .with_class("c")
        .with_tab_index(Some(TabIndex::Auto))
        .is_draggable(true)
        .with_dataset(RefAny { id: 9 })
        .with_callback(EventFilter::Focus(FocusEventFilter::FocusLost), 3, RefAny { id: 1 })
        .with_inline_css(CssProperty::none(CssPropertyType::Width))
        .with_inline_hover_css(CssProperty::none(CssPropertyType::Width))
        .with_inline_active_css(CssProperty::none(CssPropertyType::Width))
        .with_inline_focus_css(CssProperty::none(CssPropertyType::Width))
        .with_clip_mask(None);
    assert!(dom.root.has_id("i"));
    assert!(dom.root.has_class("c"));
    assert_eq!(dom.root.get_tab_index(), Some(TabIndex::Auto));
    assert!(dom.root.get_is_draggable());
    assert_eq!(dom.root.get_dataset(), &Some(RefAny { id: 9 }));
    assert_eq!(dom.root.get_callbacks().len(), 1);
    assert_eq!(dom.root.get_inline_css_props().len(), 4);
    dom.set_inline_css_props(vec![NodeDataInlineCssProperty::Focus(CssProperty::none(CssPropertyType::Height))]);
    assert_eq!(dom.root.get_inline_css_props().len(), 1);
    dom.set_ids_and_classes(vec![IdOrClass::Class("z".to_string())]);
    assert!(!dom.root.has_id("i"));
    assert!(dom.root.has_class("z"));
    dom.set_is_draggable(false);
    dom.set_tab_index(None);
    dom.set_clip_mask(None);
    dom.set_dataset(RefAny { id: 2 });
    dom.add_id("n");
    dom.add_class("m");
    dom.add_callback(EventFilter::Focus(FocusEventFilter::FocusReceived), 1, RefAny { id: 2 });
    dom.add_inline_css(CssProperty::none(CssPropertyType::Width));
    dom.add_inline_hover_css(CssProperty::none(CssPropertyType::Width));
    dom.add_inline_active_css(CssProperty::none(CssPropertyType::Width));
    dom.add_inline_focus_css(CssProperty::none(CssPropertyType::Width));
    assert!(!dom.root.get_is_draggable());
    assert_eq!(dom.root.get_tab_index(), None);
    assert_eq!(dom.root.get_dataset(), &Some(RefAny { id: 2 }));
    assert!(dom.root.has_id("n"));
    assert!(dom.root.has_class("m"));
    assert_eq!(dom.root.get_callbacks().len(), 2);
    assert_eq!(dom.root.get_inline_css_props().len(), 5);
    let d2 = Dom::with_capacity(NodeType::Div, 10).with_inline_css_props(vec![]);
    assert!(d2.children.is_empty());
}

#[test]
fn from_children_and_node_types() {
    let d = Dom::from_children(vec![Dom::div().with_child(Dom::div()), Dom::body()]);
    let c = convert_dom_into_compact_dom(d);
    assert_eq!(c.len(), 4);
    let d = Dom::from_node_types(vec![NodeType::Body, NodeType::Div, NodeType::Label("x".to_string())]);
    assert_eq!(d.children.len(), 3);
    assert_eq!(d.children[2].root, NodeData::label("x"));
    let c = convert_dom_into_compact_dom(d);
    assert_eq!(c.len(), 4);
    assert_eq!(c.node_data.internal[1], NodeData::body());
}

#[test]
fn add_child_appends() {
    let mut d = Dom::iframe(RefAny { id: 1 }, 5);
    d.add_child(Dom::div());
    d.add_child(Dom::text(TextId { id: 1 }));
    assert_eq!(d.children.len(), 2);
    let c = convert_dom_into_compact_dom(d);
    assert_eq!(c.node_hierarchy.internal[1].next_sibling, Some(NodeId::new(2)));
    assert_eq!(c.node_hierarchy.internal[2].previous_sibling, Some(NodeId::new(1)));
}

#[test]
fn last_child_link_points_at_the_last_node_of_the_subtree() {
    let dom = Dom::body().with_child(Dom::div().with_child(Dom::div()));
    let c = convert_dom_into_compact_dom(dom);
    assert_eq!(c.node_hierarchy.internal[0].first_child, Some(NodeId::new(1)));
    assert_eq!(c.node_hierarchy.internal[0].last_child, Some(NodeId::new(2)));
    assert_eq!(c.node_hierarchy.internal[2].parent, Some(NodeId::new(1)));
}

/// Checks the arena links of a flattened tree against each other.
fn assert_links_consistent(c: &azul_dom::dom::CompactDom) {
    let h = &c.node_hierarchy.internal;
    for (j, node) in h.iter().enumerate() {
        if j > 0 {
            let p = node.parent.expect("every node but the root has a parent");
            assert!(p.index < j);
        }
        if let Some(first) = node.first_child {
            assert_eq!(first.index, j + 1);
            assert_eq!(h[first.index].parent, Some(NodeId::new(j)));
            assert_eq!(h[first.index].previous_sibling, None);
        }
        if let Some(next) = node.next_sibling {
            assert!(next.index > j);
            assert_eq!(h[next.index].previous_sibling, Some(NodeId::new(j)));
            assert_eq!(h[next.index].parent, node.parent);
        }
    }
}

#[test]
fn flattened_links_are_consistent() {
    let dom = Dom::body()
        .with_child(Dom::div().with_child(Dom::div().with_child(Dom::label("a"))).with_child(Dom::div()))
        .with_child(Dom::div())
        .with_child(Dom::div().with_child(Dom::div()).with_child(Dom::div()).with_child(Dom::div()));
    assert!(dom.is_well_formed());
    assert_eq!(dom.estimated_total_children(), 9);
    let c = convert_dom_into_compact_dom(dom);
    assert_eq!(c.len(), 10);
    assert_links_consistent(&c);
    assert_eq!(c.node_hierarchy.internal[0].parent, None);
    assert_eq!(c.node_hierarchy.internal[0].next_sibling, None);
    assert_eq!(c.node_data.internal[0], NodeData::body());
}

#[test]
fn malformed_trees_are_recognised() {
    let mut dom = Dom::div().with_child(Dom::div());
    assert!(dom.is_well_formed());
    dom.children.push(Dom::div());
    assert!(!dom.is_well_formed());
    assert!(Dom::from_children(vec![]).is_well_formed());
    assert_eq!(Dom::from_node_types(vec![NodeType::Div; 4]).estimated_total_children(), 4);
}

#[test]
fn html_is_delimited_by_tags() {
    for dom in [
        Dom::div(),
        Dom::label(" spaced "),
        Dom::body().with_child(Dom::label("x ")),
        Dom::from_node_types(vec![NodeType::Body]),
    ] {
        let html = dom.get_html_string();
        assert!(html.starts_with('<'));
        assert!(html.ends_with('>'));
        assert_eq!(html, html.trim());
    }
}

#[test]
fn children_html_is_indented_line_by_line() {
    let child = Dom::div()
        .with_id("x\r")
        .with_class("\ny")
        .with_child(Dom::label("a\rb\n").with_id("\n"))
        .with_child(Dom::image(ImageId { id: 3 }));
    let child_html = child.get_html_string();
    let dom = Dom::body().with_id("r").with_child(child);
    let expected = format!(
        "<body id = \"r\" class = \"\">\r\n    {}\r\n</body>",
        child_html.replace("\r\n", "\r\n    ")
    );
    assert_eq!(dom.get_html_string(), expected);
}

#[test]
fn a_line_break_inside_a_label_is_not_indented() {
    let dom = Dom::div().with_child(Dom::label("a\r\nb"));
    assert_eq!(dom.get_html_string(), "<div>\r\n    <p>a\r\nb\r\n    </p>\r\n</div>");
}
