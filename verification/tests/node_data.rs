use azul_css::props::property::{CssProperty, CssPropertyType};
use azul_dom::events::{EventFilter, HoverEventFilter};
use azul_dom::node_data::{
    node_data_to_string, IdOrClass, NodeData, NodeDataInlineCssProperty, NodeType, NodeTypePath,
};
use azul_dom::resources::{
    Callback, CallbackData, IFrameCallback, IFrameNode, ImageId, ImageMask, LogicalPosition,
    LogicalRect, LogicalSize, RefAny, TextId,
};
use azul_dom::tab_index::TabIndex;

#[test]
fn new_node_is_empty() {
    let n = NodeData::new(NodeType::Div);
    assert_eq!(n.get_node_type(), &NodeType::Div);
    assert_eq!(n.get_dataset(), &None);
    assert!(n.get_ids_and_classes().is_empty());
    assert!(n.get_callbacks().is_empty());
    assert!(n.get_inline_css_props().is_empty());
    assert_eq!(n.get_clip_mask(), &None);
    assert!(!n.get_is_draggable());
    assert_eq!(n.get_tab_index(), None);
    assert_eq!(NodeData::default(), NodeData::div());
}

#[test]
fn ids_and_classes_are_found() {
    let mut n = NodeData::div();
    n.add_id("main");
    n.add_class("wide");
    n.add_class("red");
    assert!(n.has_id("main"));
    assert!(!n.has_id("wide"));
    assert!(n.has_class("wide"));
    assert!(n.has_class("red"));
    assert!(!n.has_class("main"));
    assert!(!n.has_id("mai"));
    assert_eq!(
        n.get_ids_and_classes(),
        &vec![
            IdOrClass::Id("main".to_string()),
            IdOrClass::Class("wide".to_string()),
            IdOrClass::Class("red".to_string()),
        ]
    );
    assert_eq!(IdOrClass::Id("x".to_string()).as_id(), Some("x"));
    assert_eq!(IdOrClass::Id("x".to_string()).as_class(), None);
    assert_eq!(IdOrClass::Class("y".to_string()).as_class(), Some("y"));
}

#[test]
fn node_types_compare_by_content() {
    let n = NodeData::label("hello");
    assert!(n.is_node_type(NodeType::Label("hello".to_string())));
    assert!(!n.is_node_type(NodeType::Label("hell".to_string())));
    assert!(!n.is_node_type(NodeType::Div));
    assert!(NodeData::image(ImageId { id: 3 }).is_node_type(NodeType::Image(ImageId { id: 3 })));
    assert!(!NodeData::image(ImageId { id: 3 }).is_node_type(NodeType::Image(ImageId { id: 4 })));
    assert!(NodeData::body().is_node_type(NodeType::Body));
}

#[test]
fn node_type_paths() {
    assert_eq!(NodeType::Div.get_path(), NodeTypePath::Div);
    assert_eq!(NodeType::Body.get_path(), NodeTypePath::Body);
    assert_eq!(NodeType::Label("a".to_string()).get_path(), NodeTypePath::P);
    assert_eq!(NodeType::Text(TextId { id: 1 }).get_path(), NodeTypePath::P);
    assert_eq!(NodeType::Image(ImageId { id: 1 }).get_path(), NodeTypePath::Img);
    assert_eq!(NodeTypePath::IFrame.as_str(), "iframe");
    assert_eq!(NodeTypePath::P.as_str(), "p");
}

#[test]
fn text_contents() {
    assert_eq!(NodeType::Div.get_text_content(), None);
    assert_eq!(NodeType::Body.get_text_content(), None);
    assert_eq!(NodeType::Label("abc".to_string()).get_text_content(), Some("abc".to_string()));
    let img = ImageId { id: 12 };
    assert_eq!(NodeType::Image(img).get_text_content(), Some(format!("image({:?})", img)));
    assert_eq!(NodeType::Image(img).get_text_content(), Some("image(ImageId { id: 12 })".to_string()));
    let t = TextId { id: 4 };
    assert_eq!(NodeType::Text(t).get_text_content(), Some(format!("textid({:?})", t)));
    let f = IFrameNode { callback: IFrameCallback { cb: 9 }, data: RefAny { id: 17 } };
    assert_eq!(NodeType::IFrame(f).get_text_content(), Some(format!("iframe({:?})", f)));
}

#[test]
fn debug_texts_match_derived_debug() {
    let img = ImageId { id: 99 };
    assert_eq!(img.debug_text(), format!("{:?}", img));
    let t = TextId { id: 0 };
    assert_eq!(t.debug_text(), format!("{:?}", t));
    let f = IFrameNode { callback: IFrameCallback { cb: 1 }, data: RefAny { id: 18446744073709551615 } };
    assert_eq!(f.debug_text(), format!("{:?}", f));
}

#[test]
fn attribute_strings() {
    assert_eq!(node_data_to_string(&NodeData::div()), "");
    let mut n = NodeData::div();
    n.add_id("a");
    n.add_class("b");
    n.add_id("c");
    assert_eq!(node_data_to_string(&n), " id = \"ac\" class = \"b\"");
    let only_class = NodeData::div().with_ids_and_classes(vec![IdOrClass::Class("k".to_string())]);
    assert_eq!(node_data_to_string(&only_class), " id = \"\" class = \"k\"");
    let n = NodeData::div().with_tab_index(Some(TabIndex::NoKeyboardFocus)).is_draggable(true);
    assert_eq!(node_data_to_string(&n), " tabindex=\"-1\" draggable=\"true\"");
    let n = NodeData::div().with_tab_index(Some(TabIndex::OverrideInParent(12)));
    assert_eq!(node_data_to_string(&n), " tabindex=\"12\"");
}

#[test]
fn tags_of_single_nodes() {
    let n = NodeData::label("x").with_tab_index(Some(TabIndex::OverrideInParent(3))).is_draggable(true);
    assert_eq!(n.to_string(), "<p tabindex=\"3\" draggable=\"true\">x</p>");
    assert_eq!(NodeData::div().to_string(), "<div/>");
    assert_eq!(NodeData::div().debug_print_start(true), "<div />");
    assert_eq!(NodeData::body().debug_print_start(false), "<body>");
    assert_eq!(NodeData::image(ImageId { id: 1 }).debug_print_end(), "</img>");
    assert_eq!(NodeData::image(ImageId { id: 1 }).to_string(), "<img>image(ImageId { id: 1 })</img>");
}

#[test]
fn setters_and_builders() {
    let mask = ImageMask {
        image: ImageId { id: 2 },
        rect: LogicalRect {
            origin: LogicalPosition { x: 1.0f32.to_bits(), y: 2.0f32.to_bits() },
            size: LogicalSize { width: 3.5f32.to_bits(), height: 4.0f32.to_bits() },
        },
        repeat: true,
    };
    let mut n = NodeData::div();
    n.set_node_type(NodeType::Body);
    n.set_dataset(Some(RefAny { id: 5 }));
    n.set_clip_mask(Some(mask));
    n.set_is_draggable(true);
    n.set_tab_index(Some(TabIndex::Auto));
    n.set_callbacks(vec![]);
    n.set_ids_and_classes(vec![IdOrClass::Id("q".to_string())]);
    assert_eq!(n.get_node_type(), &NodeType::Body);
    assert_eq!(n.get_dataset(), &Some(RefAny { id: 5 }));
    assert_eq!(n.get_clip_mask(), &Some(mask));
    assert!(n.get_is_draggable());
    assert_eq!(n.get_tab_index(), Some(TabIndex::Auto));
    assert!(n.has_id("q"));

    let m = NodeData::text(TextId { id: 8 })
        .with_node_type(NodeType::Div)
        .with_dataset(Some(RefAny { id: 1 }))
        .with_clip_mask(None)
        .with_callbacks(vec![CallbackData {
            event: EventFilter::Hover(HoverEventFilter::MouseUp),
            callback: Callback { cb: 4 },
            data: RefAny { id: 2 },
        }]);
    assert_eq!(m.get_node_type(), &NodeType::Div);
    assert_eq!(m.get_callbacks().len(), 1);
    assert_eq!(m.get_dataset(), &Some(RefAny { id: 1 }));
}

#[test]
fn callbacks_and_inline_css_are_appended() {
    let mut n = NodeData::div();
    n.add_dataset(RefAny { id: 3 });
    n.add_callback(EventFilter::Hover(HoverEventFilter::MouseDown), 11, RefAny { id: 4 });
    assert_eq!(
        n.get_callbacks(),
        &vec![CallbackData {
            event: EventFilter::Hover(HoverEventFilter::MouseDown),
            callback: Callback { cb: 11 },
            data: RefAny { id: 4 },
        }]
    );
    assert_eq!(n.get_dataset(), &Some(RefAny { id: 3 }));
    n.add_inline_css(CssProperty::none(CssPropertyType::Width));
    n.add_inline_hover_css(CssProperty::none(CssPropertyType::Height));
    n.add_inline_active_css(CssProperty::auto(CssPropertyType::Width));
    n.add_inline_focus_css(CssProperty::initial(CssPropertyType::Height));
    assert_eq!(
        n.get_inline_css_props(),
        &vec![
            NodeDataInlineCssProperty::Normal(CssProperty::none(CssPropertyType::Width)),
            NodeDataInlineCssProperty::Hover(CssProperty::none(CssPropertyType::Height)),
            NodeDataInlineCssProperty::Active(CssProperty::auto(CssPropertyType::Width)),
            NodeDataInlineCssProperty::Focus(CssProperty::initial(CssPropertyType::Height)),
        ]
    );
    let m = NodeData::div().with_inline_css_props(vec![NodeDataInlineCssProperty::Normal(
        CssProperty::none(CssPropertyType::Width),
    )]);
    assert_eq!(m.get_inline_css_props().len(), 1);
}

#[test]
fn node_hashes_are_deterministic() {
    let a = NodeData::label("same");
    let b = NodeData::label("same");
    assert_eq!(a.calculate_node_data_hash(), b.calculate_node_data_hash());
    assert_ne!(a.calculate_node_data_hash(), NodeData::label("other").calculate_node_data_hash());
}

#[test]
fn iframe_nodes() {
    let n = NodeData::iframe(RefAny { id: 6 }, 2);
    assert_eq!(
        n.get_node_type(),
        &NodeType::IFrame(IFrameNode { callback: IFrameCallback { cb: 2 }, data: RefAny { id: 6 } })
    );
}
