use vstd::prelude::*;
use crate::text::owned;

verus! {

/// When to call a callback action - `On::MouseOver`, `On::MouseOut`, etc.
#[derive(Debug, Copy, Clone, PartialEq, Eq, Structural, Hash, PartialOrd, Ord)]
pub enum On {
    MouseOver,
    MouseDown,
    LeftMouseDown,
    MiddleMouseDown,
    RightMouseDown,
    MouseUp,
    LeftMouseUp,
    MiddleMouseUp,
    RightMouseUp,
    MouseEnter,
    MouseLeave,
    Scroll,
    TextInput,
    VirtualKeyDown,
    VirtualKeyUp,
    HoveredFile,
    DroppedFile,
    HoveredFileCancelled,
    FocusReceived,
    FocusLost,
}

/// Event filter that only fires when an element is hovered over
#[derive(Debug, Copy, Clone, PartialEq, Eq, Structural, Hash, PartialOrd, Ord)]
pub enum HoverEventFilter {
    MouseOver,
    MouseDown,
    LeftMouseDown,
    RightMouseDown,
    MiddleMouseDown,
    MouseUp,
    LeftMouseUp,
    RightMouseUp,
    MiddleMouseUp,
    MouseEnter,
    MouseLeave,
    Scroll,
    ScrollStart,
    ScrollEnd,
    TextInput,
    VirtualKeyDown,
    VirtualKeyUp,
    HoveredFile,
    DroppedFile,
    HoveredFileCancelled,
    TouchStart,
    TouchMove,
    TouchEnd,
    TouchCancel,
}

/// Event filter similar to `HoverEventFilter` that only fires when the element is focused.
/// The element must be focusable (have a tab index) for this to fire.
#[derive(Debug, Copy, Clone, PartialEq, Eq, Structural, Hash, PartialOrd, Ord)]
pub enum FocusEventFilter {
    MouseOver,
    MouseDown,
    LeftMouseDown,
    RightMouseDown,
    MiddleMouseDown,
    MouseUp,
    LeftMouseUp,
    RightMouseUp,
    MiddleMouseUp,
    MouseEnter,
    MouseLeave,
    Scroll,
    ScrollStart,
    ScrollEnd,
    TextInput,
    VirtualKeyDown,
    VirtualKeyUp,
    FocusReceived,
    FocusLost,
}

/// The inverse of an `onclick` event filter: fires when an item is *not* hovered / focused.
#[derive(Debug, Copy, Clone, PartialEq, Eq, Structural, Hash, PartialOrd, Ord)]
pub enum NotEventFilter {
    Hover(HoverEventFilter),
    Focus(FocusEventFilter),
}

/// Event filter that fires when any action fires on the entire window
/// (regardless of whether any element is hovered or focused over).
#[derive(Debug, Copy, Clone, PartialEq, Eq, Structural, Hash, PartialOrd, Ord)]
pub enum WindowEventFilter {
    MouseOver,
    MouseDown,
    LeftMouseDown,
    RightMouseDown,
    MiddleMouseDown,
    MouseUp,
    LeftMouseUp,
    RightMouseUp,
    MiddleMouseUp,
    MouseEnter,
    MouseLeave,
    Scroll,
    ScrollStart,
    ScrollEnd,
    TextInput,
    VirtualKeyDown,
    VirtualKeyUp,
    HoveredFile,
    DroppedFile,
    HoveredFileCancelled,
    Resized,
    Moved,
    TouchStart,
    TouchMove,
    TouchEnd,
    TouchCancel,
    FocusReceived,
    FocusLost,
    CloseRequested,
    ThemeChanged,
}

/// Something happened with the node itself.
#[derive(Debug, Copy, Clone, PartialEq, Eq, Structural, Hash, PartialOrd, Ord)]
pub enum ComponentEventFilter {
    AfterMount,
    BeforeUnmount,
    NodeResized,
}

/// Something happened with the application.
#[derive(Debug, Copy, Clone, PartialEq, Eq, Structural, Hash, PartialOrd, Ord)]
pub enum ApplicationEventFilter {
    DeviceConnected,
    DeviceDisconnected,
}

/// Sets the target for what events can reach the callbacks specifically.
#[derive(Debug, Copy, Clone, PartialEq, Eq, Structural, Hash, PartialOrd, Ord)]
pub enum EventFilter {
    /// Fires when the mouse is actively over the given element.
    Hover(HoverEventFilter),
    /// Fires if the mouse is **not** over the given element.
    Not(NotEventFilter),
    /// Fires when the element is currently focused.
    Focus(FocusEventFilter),
    /// Fires when anything related to the window is happening.
    Window(WindowEventFilter),
    /// Something happened with the node itself.
    Component(ComponentEventFilter),
    /// Something happened with the application.
    Application(ApplicationEventFilter),
}

impl EventFilter {
    #[verifier::allow_in_spec]
    pub fn is_focus_callback(&self) -> bool
        returns
            self is Focus,
    {
        match self {
            EventFilter::Focus(_) => true,
            _ => false,
        }
    }

    #[verifier::allow_in_spec]
    pub fn is_window_callback(&self) -> bool
        returns
            self is Window,
    {
        match self {
            EventFilter::Window(_) => true,
            _ => false,
        }
    }
}


impl EventFilter {
    pub fn as_hover_event_filter(&self) -> (r: Option<HoverEventFilter>)
        ensures
            r == (match *self {
                EventFilter::Hover(e) => Some(e),
                _ => None,
            }),
    {
        match self {
            EventFilter::Hover(e) => Some(*e),
            _ => None,
        }
    }

    pub fn as_focus_event_filter(&self) -> (r: Option<FocusEventFilter>)
        ensures
            r == (match *self {
                EventFilter::Focus(e) => Some(e),
                _ => None,
            }),
    {
        match self {
            EventFilter::Focus(e) => Some(*e),
            _ => None,
        }
    }

    pub fn as_not_event_filter(&self) -> (r: Option<NotEventFilter>)
        ensures
            r == (match *self {
                EventFilter::Not(e) => Some(e),
                _ => None,
            }),
    {
        match self {
            EventFilter::Not(e) => Some(*e),
            _ => None,
        }
    }

    pub fn as_window_event_filter(&self) -> (r: Option<WindowEventFilter>)
        ensures
            r == (match *self {
                EventFilter::Window(e) => Some(e),
                _ => None,
            }),
    {
        match self {
            EventFilter::Window(e) => Some(*e),
            _ => None,
        }
    }
}

/// The event filter that an `On` shorthand stands for: keyboard text input and
/// focus changes are focus events, virtual key presses are window events, and
/// everything else is a hover event of the same name.
pub open spec fn event_filter_of(on: On) -> EventFilter {
    match on {
        On::MouseOver => EventFilter::Hover(HoverEventFilter::MouseOver),
        On::MouseDown => EventFilter::Hover(HoverEventFilter::MouseDown),
        On::LeftMouseDown => EventFilter::Hover(HoverEventFilter::LeftMouseDown),
        On::MiddleMouseDown => EventFilter::Hover(HoverEventFilter::MiddleMouseDown),
        On::RightMouseDown => EventFilter::Hover(HoverEventFilter::RightMouseDown),
        On::MouseUp => EventFilter::Hover(HoverEventFilter::MouseUp),
        On::LeftMouseUp => EventFilter::Hover(HoverEventFilter::LeftMouseUp),
        On::MiddleMouseUp => EventFilter::Hover(HoverEventFilter::MiddleMouseUp),
        On::RightMouseUp => EventFilter::Hover(HoverEventFilter::RightMouseUp),
        On::MouseEnter => EventFilter::Hover(HoverEventFilter::MouseEnter),
        On::MouseLeave => EventFilter::Hover(HoverEventFilter::MouseLeave),
        On::Scroll => EventFilter::Hover(HoverEventFilter::Scroll),
        On::TextInput => EventFilter::Focus(FocusEventFilter::TextInput),
        On::VirtualKeyDown => EventFilter::Window(WindowEventFilter::VirtualKeyDown),
        On::VirtualKeyUp => EventFilter::Window(WindowEventFilter::VirtualKeyUp),
        On::HoveredFile => EventFilter::Hover(HoverEventFilter::HoveredFile),
        On::DroppedFile => EventFilter::Hover(HoverEventFilter::DroppedFile),
        On::HoveredFileCancelled => EventFilter::Hover(HoverEventFilter::HoveredFileCancelled),
        On::FocusReceived => EventFilter::Focus(FocusEventFilter::FocusReceived),
        On::FocusLost => EventFilter::Focus(FocusEventFilter::FocusLost),
    }
}

impl From<On> for EventFilter {
    fn from(input: On) -> (r: EventFilter) {
        match input {
            On::MouseOver => EventFilter::Hover(HoverEventFilter::MouseOver),
            On::MouseDown => EventFilter::Hover(HoverEventFilter::MouseDown),
            On::LeftMouseDown => EventFilter::Hover(HoverEventFilter::LeftMouseDown),
            On::MiddleMouseDown => EventFilter::Hover(HoverEventFilter::MiddleMouseDown),
            On::RightMouseDown => EventFilter::Hover(HoverEventFilter::RightMouseDown),
            On::MouseUp => EventFilter::Hover(HoverEventFilter::MouseUp),
            On::LeftMouseUp => EventFilter::Hover(HoverEventFilter::LeftMouseUp),
            On::MiddleMouseUp => EventFilter::Hover(HoverEventFilter::MiddleMouseUp),
            On::RightMouseUp => EventFilter::Hover(HoverEventFilter::RightMouseUp),
            On::MouseEnter => EventFilter::Hover(HoverEventFilter::MouseEnter),
            On::MouseLeave => EventFilter::Hover(HoverEventFilter::MouseLeave),
            On::Scroll => EventFilter::Hover(HoverEventFilter::Scroll),
            On::TextInput => EventFilter::Focus(FocusEventFilter::TextInput),
            On::VirtualKeyDown => EventFilter::Window(WindowEventFilter::VirtualKeyDown),
            On::VirtualKeyUp => EventFilter::Window(WindowEventFilter::VirtualKeyUp),
            On::HoveredFile => EventFilter::Hover(HoverEventFilter::HoveredFile),
            On::DroppedFile => EventFilter::Hover(HoverEventFilter::DroppedFile),
            On::HoveredFileCancelled => EventFilter::Hover(HoverEventFilter::HoveredFileCancelled),
            On::FocusReceived => EventFilter::Focus(FocusEventFilter::FocusReceived),
            On::FocusLost => EventFilter::Focus(FocusEventFilter::FocusLost),
        }
    }
}

impl vstd::std_specs::convert::FromSpecImpl<On> for EventFilter {
    open spec fn obeys_from_spec() -> bool {
        true
    }

    open spec fn from_spec(v: On) -> EventFilter {
        event_filter_of(v)
    }
}

/// The focus filter of the same name as a hover filter, where one exists.
/// File hover events and touch events have no focus counterpart.
pub open spec fn focus_filter_of_hover(h: HoverEventFilter) -> Option<FocusEventFilter> {
    match h {
        HoverEventFilter::MouseOver => Some(FocusEventFilter::MouseOver),
        HoverEventFilter::MouseDown => Some(FocusEventFilter::MouseDown),
        HoverEventFilter::LeftMouseDown => Some(FocusEventFilter::LeftMouseDown),
        HoverEventFilter::RightMouseDown => Some(FocusEventFilter::RightMouseDown),
        HoverEventFilter::MiddleMouseDown => Some(FocusEventFilter::MiddleMouseDown),
        HoverEventFilter::MouseUp => Some(FocusEventFilter::MouseUp),
        HoverEventFilter::LeftMouseUp => Some(FocusEventFilter::LeftMouseUp),
        HoverEventFilter::RightMouseUp => Some(FocusEventFilter::RightMouseUp),
        HoverEventFilter::MiddleMouseUp => Some(FocusEventFilter::MiddleMouseUp),
        HoverEventFilter::MouseEnter => Some(FocusEventFilter::MouseEnter),
        HoverEventFilter::MouseLeave => Some(FocusEventFilter::MouseLeave),
        HoverEventFilter::Scroll => Some(FocusEventFilter::Scroll),
        HoverEventFilter::ScrollStart => Some(FocusEventFilter::ScrollStart),
        HoverEventFilter::ScrollEnd => Some(FocusEventFilter::ScrollEnd),
        HoverEventFilter::TextInput => Some(FocusEventFilter::TextInput),
        HoverEventFilter::VirtualKeyDown => Some(FocusEventFilter::VirtualKeyDown),
        HoverEventFilter::VirtualKeyUp => Some(FocusEventFilter::VirtualKeyUp),
        HoverEventFilter::HoveredFile => None,
        HoverEventFilter::DroppedFile => None,
        HoverEventFilter::HoveredFileCancelled => None,
        HoverEventFilter::TouchStart => None,
        HoverEventFilter::TouchMove => None,
        HoverEventFilter::TouchEnd => None,
        HoverEventFilter::TouchCancel => None,
    }
}

impl HoverEventFilter {
    pub fn to_focus_event_filter(&self) -> (r: Option<FocusEventFilter>)
        ensures
            r == focus_filter_of_hover(*self),
    {
        match self {
            HoverEventFilter::MouseOver => Some(FocusEventFilter::MouseOver),
            HoverEventFilter::MouseDown => Some(FocusEventFilter::MouseDown),
            HoverEventFilter::LeftMouseDown => Some(FocusEventFilter::LeftMouseDown),
            HoverEventFilter::RightMouseDown => Some(FocusEventFilter::RightMouseDown),
            HoverEventFilter::MiddleMouseDown => Some(FocusEventFilter::MiddleMouseDown),
            HoverEventFilter::MouseUp => Some(FocusEventFilter::MouseUp),
            HoverEventFilter::LeftMouseUp => Some(FocusEventFilter::LeftMouseUp),
            HoverEventFilter::RightMouseUp => Some(FocusEventFilter::RightMouseUp),
            HoverEventFilter::MiddleMouseUp => Some(FocusEventFilter::MiddleMouseUp),
            HoverEventFilter::MouseEnter => Some(FocusEventFilter::MouseEnter),
            HoverEventFilter::MouseLeave => Some(FocusEventFilter::MouseLeave),
            HoverEventFilter::Scroll => Some(FocusEventFilter::Scroll),
            HoverEventFilter::ScrollStart => Some(FocusEventFilter::ScrollStart),
            HoverEventFilter::ScrollEnd => Some(FocusEventFilter::ScrollEnd),
            HoverEventFilter::TextInput => Some(FocusEventFilter::TextInput),
            HoverEventFilter::VirtualKeyDown => Some(FocusEventFilter::VirtualKeyDown),
            HoverEventFilter::VirtualKeyUp => Some(FocusEventFilter::VirtualKeyUp),
            HoverEventFilter::HoveredFile => None,
            HoverEventFilter::DroppedFile => None,
            HoverEventFilter::HoveredFileCancelled => None,
            HoverEventFilter::TouchStart => None,
            HoverEventFilter::TouchMove => None,
            HoverEventFilter::TouchEnd => None,
            HoverEventFilter::TouchCancel => None,
        }
    }
}

/// The hover filter of the same name as a window filter, where one exists.
/// Events that concern the window as a whole (entering or leaving the window,
/// resizing, moving, focus, close requests, theme changes) have no hover
/// counterpart.
pub open spec fn hover_filter_of_window(w: WindowEventFilter) -> Option<HoverEventFilter> {
    match w {
        WindowEventFilter::MouseOver => Some(HoverEventFilter::MouseOver),
        WindowEventFilter::MouseDown => Some(HoverEventFilter::MouseDown),
        WindowEventFilter::LeftMouseDown => Some(HoverEventFilter::LeftMouseDown),
        WindowEventFilter::RightMouseDown => Some(HoverEventFilter::RightMouseDown),
        WindowEventFilter::MiddleMouseDown => Some(HoverEventFilter::MiddleMouseDown),
        WindowEventFilter::MouseUp => Some(HoverEventFilter::MouseUp),
        WindowEventFilter::LeftMouseUp => Some(HoverEventFilter::LeftMouseUp),
        WindowEventFilter::RightMouseUp => Some(HoverEventFilter::RightMouseUp),
        WindowEventFilter::MiddleMouseUp => Some(HoverEventFilter::MiddleMouseUp),
        WindowEventFilter::Scroll => Some(HoverEventFilter::Scroll),
        WindowEventFilter::ScrollStart => Some(HoverEventFilter::ScrollStart),
        WindowEventFilter::ScrollEnd => Some(HoverEventFilter::ScrollEnd),
        WindowEventFilter::TextInput => Some(HoverEventFilter::TextInput),
        WindowEventFilter::VirtualKeyDown => Some(HoverEventFilter::VirtualKeyDown),
        WindowEventFilter::VirtualKeyUp => Some(HoverEventFilter::VirtualKeyUp),
        WindowEventFilter::HoveredFile => Some(HoverEventFilter::HoveredFile),
        WindowEventFilter::DroppedFile => Some(HoverEventFilter::DroppedFile),
        WindowEventFilter::HoveredFileCancelled => Some(HoverEventFilter::HoveredFileCancelled),
        WindowEventFilter::MouseEnter => None,
        WindowEventFilter::MouseLeave => None,
        WindowEventFilter::Resized => None,
        WindowEventFilter::Moved => None,
        WindowEventFilter::TouchStart => Some(HoverEventFilter::TouchStart),
        WindowEventFilter::TouchMove => Some(HoverEventFilter::TouchMove),
        WindowEventFilter::TouchEnd => Some(HoverEventFilter::TouchEnd),
        WindowEventFilter::TouchCancel => Some(HoverEventFilter::TouchCancel),
        WindowEventFilter::FocusReceived => None,
        WindowEventFilter::FocusLost => None,
        WindowEventFilter::CloseRequested => None,
        WindowEventFilter::ThemeChanged => None,
    }
}

impl WindowEventFilter {
    pub fn to_hover_event_filter(&self) -> (r: Option<HoverEventFilter>)
        ensures
            r == hover_filter_of_window(*self),
    {
        match self {
            WindowEventFilter::MouseOver => Some(HoverEventFilter::MouseOver),
            WindowEventFilter::MouseDown => Some(HoverEventFilter::MouseDown),
            WindowEventFilter::LeftMouseDown => Some(HoverEventFilter::LeftMouseDown),
            WindowEventFilter::RightMouseDown => Some(HoverEventFilter::RightMouseDown),
            WindowEventFilter::MiddleMouseDown => Some(HoverEventFilter::MiddleMouseDown),
            WindowEventFilter::MouseUp => Some(HoverEventFilter::MouseUp),
            WindowEventFilter::LeftMouseUp => Some(HoverEventFilter::LeftMouseUp),
            WindowEventFilter::RightMouseUp => Some(HoverEventFilter::RightMouseUp),
            WindowEventFilter::MiddleMouseUp => Some(HoverEventFilter::MiddleMouseUp),
            WindowEventFilter::Scroll => Some(HoverEventFilter::Scroll),
            WindowEventFilter::ScrollStart => Some(HoverEventFilter::ScrollStart),
            WindowEventFilter::ScrollEnd => Some(HoverEventFilter::ScrollEnd),
            WindowEventFilter::TextInput => Some(HoverEventFilter::TextInput),
            WindowEventFilter::VirtualKeyDown => Some(HoverEventFilter::VirtualKeyDown),
            WindowEventFilter::VirtualKeyUp => Some(HoverEventFilter::VirtualKeyUp),
            WindowEventFilter::HoveredFile => Some(HoverEventFilter::HoveredFile),
            WindowEventFilter::DroppedFile => Some(HoverEventFilter::DroppedFile),
            WindowEventFilter::HoveredFileCancelled => Some(HoverEventFilter::HoveredFileCancelled),
            WindowEventFilter::MouseEnter => None,
            WindowEventFilter::MouseLeave => None,
            WindowEventFilter::Resized => None,
            WindowEventFilter::Moved => None,
            WindowEventFilter::TouchStart => Some(HoverEventFilter::TouchStart),
            WindowEventFilter::TouchMove => Some(HoverEventFilter::TouchMove),
            WindowEventFilter::TouchEnd => Some(HoverEventFilter::TouchEnd),
            WindowEventFilter::TouchCancel => Some(HoverEventFilter::TouchCancel),
            WindowEventFilter::FocusReceived => None,
            WindowEventFilter::FocusLost => None,
            WindowEventFilter::CloseRequested => None,
            WindowEventFilter::ThemeChanged => None,
        }
    }
}

/// Converting an `On` shorthand yields a focus callback exactly for text input
/// and the two focus-change events, a window callback exactly for the two
/// virtual-key events, and a hover callback for every other event.
pub proof fn lemma_on_event_classes(on: On)
    ensures
        event_filter_of(on).is_focus_callback() <==> (on == On::TextInput || on == On::FocusReceived
            || on == On::FocusLost),
        event_filter_of(on).is_window_callback() <==> (on == On::VirtualKeyDown || on
            == On::VirtualKeyUp),
        (event_filter_of(on) is Hover) <==> !(on == On::TextInput || on == On::FocusReceived
            || on == On::FocusLost || on == On::VirtualKeyDown || on == On::VirtualKeyUp),
{
}

/// A callback can never be both a focus callback and a window callback.
pub proof fn lemma_focus_and_window_exclusive(f: EventFilter)
    ensures
        !(f.is_focus_callback() && f.is_window_callback()),
{
}

/// Every hover event that an `On` shorthand produces has a focus counterpart,
/// except the three file drag-and-drop events.
pub proof fn lemma_on_hover_has_focus_counterpart(on: On)
    ensures
        event_filter_of(on) matches EventFilter::Hover(h) ==> (focus_filter_of_hover(h) is Some
            <==> !(on == On::HoveredFile || on == On::DroppedFile || on
            == On::HoveredFileCancelled)),
{
}

/// Every hover filter of the same name as a window filter maps back to a focus filter
/// exactly when it is not a file or touch event.
pub proof fn lemma_window_hover_focus_chain(w: WindowEventFilter)
    ensures
        hover_filter_of_window(w) matches Some(h) ==> (focus_filter_of_hover(h) is Some <==> !(
        h == HoverEventFilter::HoveredFile || h == HoverEventFilter::DroppedFile || h
            == HoverEventFilter::HoveredFileCancelled || h == HoverEventFilter::TouchStart || h
            == HoverEventFilter::TouchMove || h == HoverEventFilter::TouchEnd || h
            == HoverEventFilter::TouchCancel)),
{
}


/// The window events that concern the window as a whole: the mouse entering or leaving
/// the window, resizing and moving it, its gaining or losing focus, a request to close
/// it and a change of theme.
pub open spec fn is_window_only(w: WindowEventFilter) -> bool {
    ||| w == WindowEventFilter::MouseEnter
    ||| w == WindowEventFilter::MouseLeave
    ||| w == WindowEventFilter::Resized
    ||| w == WindowEventFilter::Moved
    ||| w == WindowEventFilter::FocusReceived
    ||| w == WindowEventFilter::FocusLost
    ||| w == WindowEventFilter::CloseRequested
    ||| w == WindowEventFilter::ThemeChanged
}

/// The hover events that a focused element cannot receive: file drag-and-drop and
/// touch events.
pub open spec fn is_hover_only(h: HoverEventFilter) -> bool {
    ||| h == HoverEventFilter::HoveredFile
    ||| h == HoverEventFilter::DroppedFile
    ||| h == HoverEventFilter::HoveredFileCancelled
    ||| h == HoverEventFilter::TouchStart
    ||| h == HoverEventFilter::TouchMove
    ||| h == HoverEventFilter::TouchEnd
    ||| h == HoverEventFilter::TouchCancel
}

/// Every window filter has a hover counterpart of its own name, except exactly the
/// events that concern the window as a whole; every hover filter has a focus
/// counterpart of its own name, except exactly file drag-and-drop and touch events.
pub proof fn lemma_filter_counterparts(w: WindowEventFilter, h: HoverEventFilter)
    ensures
        hover_filter_of_window(w) is None <==> is_window_only(w),
        hover_filter_of_window(w) matches Some(x) ==> hover_name(x) == window_name(w),
        focus_filter_of_hover(h) is None <==> is_hover_only(h),
        focus_filter_of_hover(h) matches Some(x) ==> focus_name(x) == hover_name(h),
{
}


/// Different component events, and different application events, have different names.
pub proof fn lemma_component_application_names(
    c: ComponentEventFilter,
    d: ComponentEventFilter,
    a: ApplicationEventFilter,
    b: ApplicationEventFilter,
)
    ensures
        (component_name(c) == component_name(d)) <==> c == d,
        (application_name(a) == application_name(b)) <==> a == b,
{
    reveal_strlit("AfterMount");
    reveal_strlit("BeforeUnmount");
    reveal_strlit("NodeResized");
    reveal_strlit("DeviceConnected");
    reveal_strlit("DeviceDisconnected");
    if component_name(c) == component_name(d) {
        assert(component_name(c).len() == component_name(d).len());
    }
    if application_name(a) == application_name(b) {
        assert(application_name(a).len() == application_name(b).len());
    }
}
pub open spec fn on_name(e: On) -> Seq<char> {
    match e {
        On::MouseOver => "MouseOver"@,
        On::MouseDown => "MouseDown"@,
        On::LeftMouseDown => "LeftMouseDown"@,
        On::MiddleMouseDown => "MiddleMouseDown"@,
        On::RightMouseDown => "RightMouseDown"@,
        On::MouseUp => "MouseUp"@,
        On::LeftMouseUp => "LeftMouseUp"@,
        On::MiddleMouseUp => "MiddleMouseUp"@,
        On::RightMouseUp => "RightMouseUp"@,
        On::MouseEnter => "MouseEnter"@,
        On::MouseLeave => "MouseLeave"@,
        On::Scroll => "Scroll"@,
        On::TextInput => "TextInput"@,
        On::VirtualKeyDown => "VirtualKeyDown"@,
        On::VirtualKeyUp => "VirtualKeyUp"@,
        On::HoveredFile => "HoveredFile"@,
        On::DroppedFile => "DroppedFile"@,
        On::HoveredFileCancelled => "HoveredFileCancelled"@,
        On::FocusReceived => "FocusReceived"@,
        On::FocusLost => "FocusLost"@,
    }
}

impl On {
    /// The `Debug` text of this event: its name.
    pub fn debug_text(&self) -> (r: String)
        ensures
            r@ == on_name(*self),
    {
        match self {
            On::MouseOver => owned("MouseOver"),
            On::MouseDown => owned("MouseDown"),
            On::LeftMouseDown => owned("LeftMouseDown"),
            On::MiddleMouseDown => owned("MiddleMouseDown"),
            On::RightMouseDown => owned("RightMouseDown"),
            On::MouseUp => owned("MouseUp"),
            On::LeftMouseUp => owned("LeftMouseUp"),
            On::MiddleMouseUp => owned("MiddleMouseUp"),
            On::RightMouseUp => owned("RightMouseUp"),
            On::MouseEnter => owned("MouseEnter"),
            On::MouseLeave => owned("MouseLeave"),
            On::Scroll => owned("Scroll"),
            On::TextInput => owned("TextInput"),
            On::VirtualKeyDown => owned("VirtualKeyDown"),
            On::VirtualKeyUp => owned("VirtualKeyUp"),
            On::HoveredFile => owned("HoveredFile"),
            On::DroppedFile => owned("DroppedFile"),
            On::HoveredFileCancelled => owned("HoveredFileCancelled"),
            On::FocusReceived => owned("FocusReceived"),
            On::FocusLost => owned("FocusLost"),
        }
    }
}

/// The name of a `HoverEventFilter` variant, as its `Debug` text.
pub open spec fn hover_name(e: HoverEventFilter) -> Seq<char> {
    match e {
        HoverEventFilter::MouseOver => "MouseOver"@,
        HoverEventFilter::MouseDown => "MouseDown"@,
        HoverEventFilter::LeftMouseDown => "LeftMouseDown"@,
        HoverEventFilter::RightMouseDown => "RightMouseDown"@,
        HoverEventFilter::MiddleMouseDown => "MiddleMouseDown"@,
        HoverEventFilter::MouseUp => "MouseUp"@,
        HoverEventFilter::LeftMouseUp => "LeftMouseUp"@,
        HoverEventFilter::RightMouseUp => "RightMouseUp"@,
        HoverEventFilter::MiddleMouseUp => "MiddleMouseUp"@,
        HoverEventFilter::MouseEnter => "MouseEnter"@,
        HoverEventFilter::MouseLeave => "MouseLeave"@,
        HoverEventFilter::Scroll => "Scroll"@,
        HoverEventFilter::ScrollStart => "ScrollStart"@,
        HoverEventFilter::ScrollEnd => "ScrollEnd"@,
        HoverEventFilter::TextInput => "TextInput"@,
        HoverEventFilter::VirtualKeyDown => "VirtualKeyDown"@,
        HoverEventFilter::VirtualKeyUp => "VirtualKeyUp"@,
        HoverEventFilter::HoveredFile => "HoveredFile"@,
        HoverEventFilter::DroppedFile => "DroppedFile"@,
        HoverEventFilter::HoveredFileCancelled => "HoveredFileCancelled"@,
        HoverEventFilter::TouchStart => "TouchStart"@,
        HoverEventFilter::TouchMove => "TouchMove"@,
        HoverEventFilter::TouchEnd => "TouchEnd"@,
        HoverEventFilter::TouchCancel => "TouchCancel"@,
    }
}

impl HoverEventFilter {
    /// The `Debug` text of this event: its name.
    pub fn debug_text(&self) -> (r: String)
        ensures
            r@ == hover_name(*self),
    {
        match self {
            HoverEventFilter::MouseOver => owned("MouseOver"),
            HoverEventFilter::MouseDown => owned("MouseDown"),
            HoverEventFilter::LeftMouseDown => owned("LeftMouseDown"),
            HoverEventFilter::RightMouseDown => owned("RightMouseDown"),
            HoverEventFilter::MiddleMouseDown => owned("MiddleMouseDown"),
            HoverEventFilter::MouseUp => owned("MouseUp"),
            HoverEventFilter::LeftMouseUp => owned("LeftMouseUp"),
            HoverEventFilter::RightMouseUp => owned("RightMouseUp"),
            HoverEventFilter::MiddleMouseUp => owned("MiddleMouseUp"),
            HoverEventFilter::MouseEnter => owned("MouseEnter"),
            HoverEventFilter::MouseLeave => owned("MouseLeave"),
            HoverEventFilter::Scroll => owned("Scroll"),
            HoverEventFilter::ScrollStart => owned("ScrollStart"),
            HoverEventFilter::ScrollEnd => owned("ScrollEnd"),
            HoverEventFilter::TextInput => owned("TextInput"),
            HoverEventFilter::VirtualKeyDown => owned("VirtualKeyDown"),
            HoverEventFilter::VirtualKeyUp => owned("VirtualKeyUp"),
            HoverEventFilter::HoveredFile => owned("HoveredFile"),
            HoverEventFilter::DroppedFile => owned("DroppedFile"),
            HoverEventFilter::HoveredFileCancelled => owned("HoveredFileCancelled"),
            HoverEventFilter::TouchStart => owned("TouchStart"),
            HoverEventFilter::TouchMove => owned("TouchMove"),
            HoverEventFilter::TouchEnd => owned("TouchEnd"),
            HoverEventFilter::TouchCancel => owned("TouchCancel"),
        }
    }
}

/// The name of a `FocusEventFilter` variant, as its `Debug` text.
pub open spec fn focus_name(e: FocusEventFilter) -> Seq<char> {
    match e {
        FocusEventFilter::MouseOver => "MouseOver"@,
        FocusEventFilter::MouseDown => "MouseDown"@,
        FocusEventFilter::LeftMouseDown => "LeftMouseDown"@,
        FocusEventFilter::RightMouseDown => "RightMouseDown"@,
        FocusEventFilter::MiddleMouseDown => "MiddleMouseDown"@,
        FocusEventFilter::MouseUp => "MouseUp"@,
        FocusEventFilter::LeftMouseUp => "LeftMouseUp"@,
        FocusEventFilter::RightMouseUp => "RightMouseUp"@,
        FocusEventFilter::MiddleMouseUp => "MiddleMouseUp"@,
        FocusEventFilter::MouseEnter => "MouseEnter"@,
        FocusEventFilter::MouseLeave => "MouseLeave"@,
        FocusEventFilter::Scroll => "Scroll"@,
        FocusEventFilter::ScrollStart => "ScrollStart"@,
        FocusEventFilter::ScrollEnd => "ScrollEnd"@,
        FocusEventFilter::TextInput => "TextInput"@,
        FocusEventFilter::VirtualKeyDown => "VirtualKeyDown"@,
        FocusEventFilter::VirtualKeyUp => "VirtualKeyUp"@,
        FocusEventFilter::FocusReceived => "FocusReceived"@,
        FocusEventFilter::FocusLost => "FocusLost"@,
    }
}

impl FocusEventFilter {
    /// The `Debug` text of this event: its name.
    pub fn debug_text(&self) -> (r: String)
        ensures
            r@ == focus_name(*self),
    {
        match self {
            FocusEventFilter::MouseOver => owned("MouseOver"),
            FocusEventFilter::MouseDown => owned("MouseDown"),
            FocusEventFilter::LeftMouseDown => owned("LeftMouseDown"),
            FocusEventFilter::RightMouseDown => owned("RightMouseDown"),
            FocusEventFilter::MiddleMouseDown => owned("MiddleMouseDown"),
            FocusEventFilter::MouseUp => owned("MouseUp"),
            FocusEventFilter::LeftMouseUp => owned("LeftMouseUp"),
            FocusEventFilter::RightMouseUp => owned("RightMouseUp"),
            FocusEventFilter::MiddleMouseUp => owned("MiddleMouseUp"),
            FocusEventFilter::MouseEnter => owned("MouseEnter"),
            FocusEventFilter::MouseLeave => owned("MouseLeave"),
            FocusEventFilter::Scroll => owned("Scroll"),
            FocusEventFilter::ScrollStart => owned("ScrollStart"),
            FocusEventFilter::ScrollEnd => owned("ScrollEnd"),
            FocusEventFilter::TextInput => owned("TextInput"),
            FocusEventFilter::VirtualKeyDown => owned("VirtualKeyDown"),
            FocusEventFilter::VirtualKeyUp => owned("VirtualKeyUp"),
            FocusEventFilter::FocusReceived => owned("FocusReceived"),
            FocusEventFilter::FocusLost => owned("FocusLost"),
        }
    }
}

/// The name of a `WindowEventFilter` variant, as its `Debug` text.
pub open spec fn window_name(e: WindowEventFilter) -> Seq<char> {
    match e {
        WindowEventFilter::MouseOver => "MouseOver"@,
        WindowEventFilter::MouseDown => "MouseDown"@,
        WindowEventFilter::LeftMouseDown => "LeftMouseDown"@,
        WindowEventFilter::RightMouseDown => "RightMouseDown"@,
        WindowEventFilter::MiddleMouseDown => "MiddleMouseDown"@,
        WindowEventFilter::MouseUp => "MouseUp"@,
        WindowEventFilter::LeftMouseUp => "LeftMouseUp"@,
        WindowEventFilter::RightMouseUp => "RightMouseUp"@,
        WindowEventFilter::MiddleMouseUp => "MiddleMouseUp"@,
        WindowEventFilter::MouseEnter => "MouseEnter"@,
        WindowEventFilter::MouseLeave => "MouseLeave"@,
        WindowEventFilter::Scroll => "Scroll"@,
        WindowEventFilter::ScrollStart => "ScrollStart"@,
        WindowEventFilter::ScrollEnd => "ScrollEnd"@,
        WindowEventFilter::TextInput => "TextInput"@,
        WindowEventFilter::VirtualKeyDown => "VirtualKeyDown"@,
        WindowEventFilter::VirtualKeyUp => "VirtualKeyUp"@,
        WindowEventFilter::HoveredFile => "HoveredFile"@,
        WindowEventFilter::DroppedFile => "DroppedFile"@,
        WindowEventFilter::HoveredFileCancelled => "HoveredFileCancelled"@,
        WindowEventFilter::Resized => "Resized"@,
        WindowEventFilter::Moved => "Moved"@,
        WindowEventFilter::TouchStart => "TouchStart"@,
        WindowEventFilter::TouchMove => "TouchMove"@,
        WindowEventFilter::TouchEnd => "TouchEnd"@,
        WindowEventFilter::TouchCancel => "TouchCancel"@,
        WindowEventFilter::FocusReceived => "FocusReceived"@,
        WindowEventFilter::FocusLost => "FocusLost"@,
        WindowEventFilter::CloseRequested => "CloseRequested"@,
        WindowEventFilter::ThemeChanged => "ThemeChanged"@,
    }
}

impl WindowEventFilter {
    /// The `Debug` text of this event: its name.
    pub fn debug_text(&self) -> (r: String)
        ensures
            r@ == window_name(*self),
    {
        match self {
            WindowEventFilter::MouseOver => owned("MouseOver"),
            WindowEventFilter::MouseDown => owned("MouseDown"),
            WindowEventFilter::LeftMouseDown => owned("LeftMouseDown"),
            WindowEventFilter::RightMouseDown => owned("RightMouseDown"),
            WindowEventFilter::MiddleMouseDown => owned("MiddleMouseDown"),
            WindowEventFilter::MouseUp => owned("MouseUp"),
            WindowEventFilter::LeftMouseUp => owned("LeftMouseUp"),
            WindowEventFilter::RightMouseUp => owned("RightMouseUp"),
            WindowEventFilter::MiddleMouseUp => owned("MiddleMouseUp"),
            WindowEventFilter::MouseEnter => owned("MouseEnter"),
            WindowEventFilter::MouseLeave => owned("MouseLeave"),
            WindowEventFilter::Scroll => owned("Scroll"),
            WindowEventFilter::ScrollStart => owned("ScrollStart"),
            WindowEventFilter::ScrollEnd => owned("ScrollEnd"),
            WindowEventFilter::TextInput => owned("TextInput"),
            WindowEventFilter::VirtualKeyDown => owned("VirtualKeyDown"),
            WindowEventFilter::VirtualKeyUp => owned("VirtualKeyUp"),
            WindowEventFilter::HoveredFile => owned("HoveredFile"),
            WindowEventFilter::DroppedFile => owned("DroppedFile"),
            WindowEventFilter::HoveredFileCancelled => owned("HoveredFileCancelled"),
            WindowEventFilter::Resized => owned("Resized"),
            WindowEventFilter::Moved => owned("Moved"),
            WindowEventFilter::TouchStart => owned("TouchStart"),
            WindowEventFilter::TouchMove => owned("TouchMove"),
            WindowEventFilter::TouchEnd => owned("TouchEnd"),
            WindowEventFilter::TouchCancel => owned("TouchCancel"),
            WindowEventFilter::FocusReceived => owned("FocusReceived"),
            WindowEventFilter::FocusLost => owned("FocusLost"),
            WindowEventFilter::CloseRequested => owned("CloseRequested"),
            WindowEventFilter::ThemeChanged => owned("ThemeChanged"),
        }
    }
}

/// The name of a `ComponentEventFilter` variant, as its `Debug` text.
pub open spec fn component_name(e: ComponentEventFilter) -> Seq<char> {
    match e {
        ComponentEventFilter::AfterMount => "AfterMount"@,
        ComponentEventFilter::BeforeUnmount => "BeforeUnmount"@,
        ComponentEventFilter::NodeResized => "NodeResized"@,
    }
}

impl ComponentEventFilter {
    /// The `Debug` text of this event: its name.
    pub fn debug_text(&self) -> (r: String)
        ensures
            r@ == component_name(*self),
    {
        match self {
            ComponentEventFilter::AfterMount => owned("AfterMount"),
            ComponentEventFilter::BeforeUnmount => owned("BeforeUnmount"),
            ComponentEventFilter::NodeResized => owned("NodeResized"),
        }
    }
}

/// The name of a `ApplicationEventFilter` variant, as its `Debug` text.
pub open spec fn application_name(e: ApplicationEventFilter) -> Seq<char> {
    match e {
        ApplicationEventFilter::DeviceConnected => "DeviceConnected"@,
        ApplicationEventFilter::DeviceDisconnected => "DeviceDisconnected"@,
    }
}

impl ApplicationEventFilter {
    /// The `Debug` text of this event: its name.
    pub fn debug_text(&self) -> (r: String)
        ensures
            r@ == application_name(*self),
    {
        match self {
            ApplicationEventFilter::DeviceConnected => owned("DeviceConnected"),
            ApplicationEventFilter::DeviceDisconnected => owned("DeviceDisconnected"),
        }
    }
}

/// The `Debug` text of a negated event filter.
pub open spec fn not_filter_text(n: NotEventFilter) -> Seq<char> {
    match n {
        NotEventFilter::Hover(h) => "Hover("@ + hover_name(h) + ")"@,
        NotEventFilter::Focus(f) => "Focus("@ + focus_name(f) + ")"@,
    }
}

/// The `Debug` text of an event filter: its kind and, in brackets, its event.
pub open spec fn event_filter_text(e: EventFilter) -> Seq<char> {
    match e {
        EventFilter::Hover(h) => "Hover("@ + hover_name(h) + ")"@,
        EventFilter::Not(n) => "Not("@ + not_filter_text(n) + ")"@,
        EventFilter::Focus(f) => "Focus("@ + focus_name(f) + ")"@,
        EventFilter::Window(w) => "Window("@ + window_name(w) + ")"@,
        EventFilter::Component(c) => "Component("@ + component_name(c) + ")"@,
        EventFilter::Application(a) => "Application("@ + application_name(a) + ")"@,
    }
}

fn wrapped(prefix: &str, inner: String) -> (r: String)
    ensures
        r@ == prefix@ + inner@ + ")"@,
{
    let mut s = owned(prefix);
    s.append(inner.as_str());
    s.append(")");
    s
}

impl NotEventFilter {
    /// The `Debug` text of this filter.
    pub fn debug_text(&self) -> (r: String)
        ensures
            r@ == not_filter_text(*self),
    {
        match self {
            NotEventFilter::Hover(h) => wrapped("Hover(", h.debug_text()),
            NotEventFilter::Focus(f) => wrapped("Focus(", f.debug_text()),
        }
    }
}

impl EventFilter {
    /// The `Debug` text of this filter.
    pub fn debug_text(&self) -> (r: String)
        ensures
            r@ == event_filter_text(*self),
    {
        match self {
            EventFilter::Hover(h) => wrapped("Hover(", h.debug_text()),
            EventFilter::Not(n) => wrapped("Not(", n.debug_text()),
            EventFilter::Focus(f) => wrapped("Focus(", f.debug_text()),
            EventFilter::Window(w) => wrapped("Window(", w.debug_text()),
            EventFilter::Component(c) => wrapped("Component(", c.debug_text()),
            EventFilter::Application(a) => wrapped("Application(", a.debug_text()),
        }
    }
}

/// Converting between kinds of filters keeps the event: an `On` shorthand becomes a
/// filter of its own name, and a window or hover filter that has a hover or focus
/// counterpart has one of the same name (so a key release stays a key release).
pub proof fn lemma_conversions_keep_the_event(on: On, w: WindowEventFilter, h: HoverEventFilter)
    ensures
        event_filter_of(on) matches EventFilter::Hover(x) ==> hover_name(x) == on_name(on),
        event_filter_of(on) matches EventFilter::Focus(x) ==> focus_name(x) == on_name(on),
        event_filter_of(on) matches EventFilter::Window(x) ==> window_name(x) == on_name(on),
        hover_filter_of_window(w) matches Some(x) ==> hover_name(x) == window_name(w),
        focus_filter_of_hover(h) matches Some(x) ==> focus_name(x) == hover_name(h),
        hover_filter_of_window(WindowEventFilter::VirtualKeyUp) == Some(HoverEventFilter::VirtualKeyUp),
        focus_filter_of_hover(HoverEventFilter::VirtualKeyUp) == Some(FocusEventFilter::VirtualKeyUp),
{
}

} // verus!
