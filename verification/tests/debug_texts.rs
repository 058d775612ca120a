use azul_css::props::property::{CssProperty, CssPropertyType};
use azul_dom::dom::{convert_dom_into_compact_dom, Dom};
use azul_dom::events::{
    ApplicationEventFilter, ComponentEventFilter, EventFilter, FocusEventFilter, HoverEventFilter,
    NotEventFilter, WindowEventFilter,
};
use azul_dom::node_data::{IdOrClass, NodeData, NodeType};
use azul_dom::resources::{IFrameCallback, IFrameNode, ImageId, RefAny, TextId};
use azul_dom::tab_index::TabIndex;
use azul_dom::tag_id::{ScrollTagId, TagId};

#[test]
fn event_debug_texts_match_their_debug_output() {
    let filters = [
        EventFilter::Hover(HoverEventFilter::TouchCancel),
        EventFilter::Not(NotEventFilter::Focus(FocusEventFilter::FocusLost)),
        EventFilter::Not(NotEventFilter::Hover(HoverEventFilter::MouseEnter)),
        EventFilter::Focus(FocusEventFilter::VirtualKeyUp),
        EventFilter::Window(WindowEventFilter::ThemeChanged),
        EventFilter::Component(ComponentEventFilter::NodeResized),
        EventFilter::Application(ApplicationEventFilter::DeviceDisconnected),
    ];
    for f in filters.iter() {
        assert_eq!(f.debug_text(), format!("{:?}", f));
    }
    assert_eq!(WindowEventFilter::CloseRequested.debug_text(), "CloseRequested");
}

#[test]
fn node_type_debug_texts_match_their_debug_output() {
    let types = vec![
        NodeType::Div,
        NodeType::Body,
        NodeType::Label("say \"hi\"\n".to_string()),
        NodeType::Text(TextId { id: 3 }),
        NodeType::Image(ImageId { id: 4 }),
        NodeType::IFrame(IFrameNode { callback: IFrameCallback { cb: 1 }, data: RefAny { id: 2 } }),
    ];
    for t in types.iter() {
        assert_eq!(t.debug_string(), format!("{:?}", t));
    }
    assert_eq!(IdOrClass::Class("c".to_string()).debug_string(), "Class(\"c\")");
    assert_eq!(TabIndex::OverrideInParent(7).debug_string(), "OverrideInParent(7)");
}

#[test]
fn node_debug_descriptions() {
    assert_eq!(NodeData::div().debug_string(), "NodeData {\tnode_type: Div}");
    let n = NodeData::label("a")
        .with_ids_and_classes(vec![IdOrClass::Id("x".to_string()), IdOrClass::Class("y".to_string())])
        .is_draggable(true)
        .with_tab_index(Some(TabIndex::Auto));
    assert_eq!(
        n.debug_string(),
        "NodeData {\tnode_type: Label(\"a\")\tids_and_classes: [Id(\"x\"), Class(\"y\")]\tis_draggable: true\ttab_index: Auto}"
    );
    let mut m = NodeData::div();
    m.add_callback(EventFilter::Hover(HoverEventFilter::MouseUp), 5, RefAny { id: 6 });
    m.add_inline_css(CssProperty::none(CssPropertyType::Width));
    let expected = format!(
        "NodeData {{\tnode_type: Div\tcallbacks: [CallbackData {{ event: Hover(MouseUp), callback: Callback {{ cb: 5 }}, data: RefAny {{ id: 6 }} }}]\tinline_css_props: [Normal({:?})]}}",
        CssProperty::none(CssPropertyType::Width)
    );
    assert_eq!(m.debug_string(), expected);
}

#[test]
fn dom_debug_descriptions() {
    let d = Dom::body().with_child(Dom::div());
    assert_eq!(
        d.debug_string(),
        "Dom {\r\n\troot: NodeData {\tnode_type: Body}\testimated_total_children: 1\tchildren: [Dom {\r\n\troot: NodeData {\tnode_type: Div}\testimated_total_children: 0\tchildren: [\t]}\t]}"
    );
}

#[test]
fn tag_debug_descriptions() {
    assert_eq!(TagId(3).debug_string(), "ScrollTagId(3)");
    assert_eq!(ScrollTagId(TagId(9)).debug_string(), "ScrollTagId(9)");
}

#[test]
fn cloned_trees_flatten_alike() {
    let d = Dom::body().with_child(Dom::div().with_child(Dom::label("x"))).with_child(Dom::div());
    let e = d.clone();
    assert!(e.is_well_formed());
    assert_eq!(e.estimated_total_children(), d.estimated_total_children());
    assert_eq!(e.get_html_string(), d.get_html_string());
    let a = convert_dom_into_compact_dom(d);
    let b = convert_dom_into_compact_dom(e);
    assert_eq!(a, b);
    assert_eq!(a.partial_cmp(&b), Some(std::cmp::Ordering::Equal));
}

#[test]
fn nested_html_indents_each_child() {
    let child = Dom::div().with_child(Dom::label("inner"));
    let child_html = child.get_html_string();
    let parent = Dom::body().with_child(child);
    let expected = format!(
        "<body>\r\n    {}\r\n</body>",
        child_html.replace("\r\n", "\r\n    ")
    );
    assert_eq!(parent.get_html_string(), expected);
}

#[test]
fn debug_formatting_prints_the_descriptions() {
    assert_eq!(format!("{:?}", TagId(3)), "ScrollTagId(3)");
    assert_eq!(format!("{:?}", ScrollTagId(TagId(9))), "ScrollTagId(9)");
    assert_eq!(format!("{:?}", NodeData::div()), "NodeData {\tnode_type: Div}");
    let d = Dom::body().with_child(Dom::div());
    assert_eq!(format!("{:?}", d), d.debug_string());
    assert_eq!(
        format!("{:?}", d),
        "Dom {\r\n\troot: NodeData {\tnode_type: Body}\testimated_total_children: 1\tchildren: [Dom {\r\n\troot: NodeData {\tnode_type: Div}\testimated_total_children: 0\tchildren: [\t]}\t]}"
    );
}
