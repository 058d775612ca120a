use azul_dom::events::{
    EventFilter, FocusEventFilter, HoverEventFilter, NotEventFilter, On, WindowEventFilter,
};
use azul_dom::tab_index::TabIndex;
use azul_dom::tag_id::{ScrollTagId, TagId, TagIdCounter};

#[test]
fn on_shorthands_map_to_their_filters() {
    assert_eq!(EventFilter::from(On::MouseOver), EventFilter::Hover(HoverEventFilter::MouseOver));
    assert_eq!(EventFilter::from(On::RightMouseUp), EventFilter::Hover(HoverEventFilter::RightMouseUp));
    assert_eq!(EventFilter::from(On::TextInput), EventFilter::Focus(FocusEventFilter::TextInput));
    assert_eq!(EventFilter::from(On::FocusReceived), EventFilter::Focus(FocusEventFilter::FocusReceived));
    assert_eq!(EventFilter::from(On::FocusLost), EventFilter::Focus(FocusEventFilter::FocusLost));
    assert_eq!(EventFilter::from(On::VirtualKeyDown), EventFilter::Window(WindowEventFilter::VirtualKeyDown));
    assert_eq!(EventFilter::from(On::VirtualKeyUp), EventFilter::Window(WindowEventFilter::VirtualKeyUp));
    assert_eq!(EventFilter::from(On::DroppedFile), EventFilter::Hover(HoverEventFilter::DroppedFile));
}

#[test]
fn focus_and_window_callbacks_are_classified() {
    let all = [
        On::MouseOver, On::MouseDown, On::LeftMouseDown, On::MiddleMouseDown, On::RightMouseDown,
        On::MouseUp, On::LeftMouseUp, On::MiddleMouseUp, On::RightMouseUp, On::MouseEnter,
        On::MouseLeave, On::Scroll, On::TextInput, On::VirtualKeyDown, On::VirtualKeyUp,
        On::HoveredFile, On::DroppedFile, On::HoveredFileCancelled, On::FocusReceived, On::FocusLost,
    ];
    let mut focus = 0;
    let mut window = 0;
    for on in all.iter() {
        let f = EventFilter::from(*on);
        assert!(!(f.is_focus_callback() && f.is_window_callback()));
        if f.is_focus_callback() {
            focus += 1;
        }
        if f.is_window_callback() {
            window += 1;
        }
    }
    assert_eq!(focus, 3);
    assert_eq!(window, 2);
    assert!(!EventFilter::Not(NotEventFilter::Hover(HoverEventFilter::MouseUp)).is_focus_callback());
}

#[test]
fn event_filter_accessors() {
    let f = EventFilter::Hover(HoverEventFilter::Scroll);
    assert_eq!(f.as_hover_event_filter(), Some(HoverEventFilter::Scroll));
    assert_eq!(f.as_focus_event_filter(), None);
    assert_eq!(f.as_window_event_filter(), None);
    assert_eq!(f.as_not_event_filter(), None);
    let n = EventFilter::Not(NotEventFilter::Focus(FocusEventFilter::FocusLost));
    assert_eq!(n.as_not_event_filter(), Some(NotEventFilter::Focus(FocusEventFilter::FocusLost)));
    let w = EventFilter::Window(WindowEventFilter::Resized);
    assert_eq!(w.as_window_event_filter(), Some(WindowEventFilter::Resized));
    assert!(w.is_window_callback());
    let fo = EventFilter::Focus(FocusEventFilter::TextInput);
    assert_eq!(fo.as_focus_event_filter(), Some(FocusEventFilter::TextInput));
}

#[test]
fn hover_to_focus_filters() {
    assert_eq!(HoverEventFilter::MouseOver.to_focus_event_filter(), Some(FocusEventFilter::MouseOver));
    assert_eq!(HoverEventFilter::ScrollEnd.to_focus_event_filter(), Some(FocusEventFilter::ScrollEnd));
    assert_eq!(HoverEventFilter::VirtualKeyUp.to_focus_event_filter(), Some(FocusEventFilter::VirtualKeyUp));
    assert_eq!(HoverEventFilter::HoveredFile.to_focus_event_filter(), None);
    assert_eq!(HoverEventFilter::TouchCancel.to_focus_event_filter(), None);
}

#[test]
fn window_to_hover_filters() {
    assert_eq!(WindowEventFilter::MouseDown.to_hover_event_filter(), Some(HoverEventFilter::MouseDown));
    assert_eq!(WindowEventFilter::TouchMove.to_hover_event_filter(), Some(HoverEventFilter::TouchMove));
    assert_eq!(WindowEventFilter::VirtualKeyUp.to_hover_event_filter(), Some(HoverEventFilter::VirtualKeyUp));
    assert_eq!(WindowEventFilter::MouseEnter.to_hover_event_filter(), None);
    assert_eq!(WindowEventFilter::Resized.to_hover_event_filter(), None);
    assert_eq!(WindowEventFilter::ThemeChanged.to_hover_event_filter(), None);
    assert_eq!(WindowEventFilter::HoveredFileCancelled.to_hover_event_filter(), Some(HoverEventFilter::HoveredFileCancelled));
}

#[test]
fn tab_index_numbers() {
    assert_eq!(TabIndex::Auto.get_index(), 0);
    assert_eq!(TabIndex::OverrideInParent(5).get_index(), 5);
    assert_eq!(TabIndex::OverrideInParent(0).get_index(), 0);
    assert_eq!(TabIndex::NoKeyboardFocus.get_index(), -1);
    assert_eq!(TabIndex::default(), TabIndex::Auto);
}

#[test]
fn tags_count_up_and_reset() {
    let mut counter = TagIdCounter::new();
    let a = TagId::new(&mut counter);
    let b = TagId::new(&mut counter);
    let c = ScrollTagId::new(&mut counter);
    assert_eq!(a, TagId(1));
    assert_eq!(b, TagId(2));
    assert_eq!(c, ScrollTagId(TagId(3)));
    assert_ne!(a, b);
    TagId::reset(&mut counter);
    assert_eq!(TagId::new(&mut counter), TagId(1));
}

#[test]
fn tag_texts() {
    assert_eq!(TagId(7).to_string(), "ScrollTagId(7)");
    assert_eq!(ScrollTagId(TagId(42)).to_string(), "ScrollTagId(42)");
    assert_eq!(TagId(0).to_string(), "ScrollTagId(0)");
}
