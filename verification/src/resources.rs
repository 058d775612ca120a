use vstd::prelude::*;
use crate::events::EventFilter;
use crate::text::{decimal_string, decimal_text, owned};

verus! {

/// Identifies an image that the application registered with its resources.
#[derive(Debug, Copy, Clone, PartialEq, Eq, Structural, PartialOrd, Ord, Hash)]
pub struct ImageId {
    pub id: usize,
}

/// Identifies a (cached) block of text that the application registered with its resources.
#[derive(Debug, Copy, Clone, PartialEq, Eq, Structural, PartialOrd, Ord, Hash)]
pub struct TextId {
    pub id: usize,
}

/// A handle to reference-counted, type-erased user data that callbacks receive.
/// Two handles are equal when they refer to the same data.
#[derive(Debug, Copy, Clone, PartialEq, Eq, Structural, PartialOrd, Ord, Hash)]
pub struct RefAny {
    pub id: u64,
}

/// Identifies a callback function of the application (the index of the
/// function in the application's table of callbacks).
pub type CallbackType = usize;

/// Identifies a callback function that renders the contents of an iframe.
pub type IFrameCallbackType = usize;

/// A callback that is invoked when an event filter matches.
#[derive(Debug, Copy, Clone, PartialEq, Eq, Structural, PartialOrd, Ord, Hash)]
pub struct Callback {
    pub cb: CallbackType,
}

/// A callback that produces the DOM of an iframe, given its width and height.
#[derive(Debug, Copy, Clone, PartialEq, Eq, Structural, PartialOrd, Ord, Hash)]
pub struct IFrameCallback {
    pub cb: IFrameCallbackType,
}

/// DOM that gets passed its width / height during the layout
#[derive(Debug, Copy, Clone, PartialEq, Eq, Structural, PartialOrd, Ord, Hash)]
pub struct IFrameNode {
    pub callback: IFrameCallback,
    pub data: RefAny,
}

/// A callback, the event that triggers it and the data that it receives.
#[derive(Debug, Copy, Clone, PartialEq, Eq, Structural, PartialOrd, Ord, Hash)]
pub struct CallbackData {
    pub event: EventFilter,
    pub callback: Callback,
    pub data: RefAny,
}

/// A position in logical pixels; each coordinate is the bit pattern of an `f32`.
#[derive(Debug, Copy, Clone, PartialEq, Eq, Structural, PartialOrd, Ord, Hash)]
pub struct LogicalPosition {
    pub x: u32,
    pub y: u32,
}

/// A size in logical pixels; each dimension is the bit pattern of an `f32`.
#[derive(Debug, Copy, Clone, PartialEq, Eq, Structural, PartialOrd, Ord, Hash)]
pub struct LogicalSize {
    pub width: u32,
    pub height: u32,
}

/// A rectangle in logical pixels.
#[derive(Debug, Copy, Clone, PartialEq, Eq, Structural, PartialOrd, Ord, Hash)]
pub struct LogicalRect {
    pub origin: LogicalPosition,
    pub size: LogicalSize,
}

/// An image that clips the contents of a node.
#[derive(Debug, Copy, Clone, PartialEq, Eq, Structural, PartialOrd, Ord, Hash)]
pub struct ImageMask {
    pub image: ImageId,
    pub rect: LogicalRect,
    pub repeat: bool,
}

/// The `Debug` text of an image id: `ImageId { id: <n> }`.
pub open spec fn image_id_text(i: ImageId) -> Seq<char> {
    "ImageId { id: "@ + decimal_text(i.id as int) + " }"@
}

/// The `Debug` text of a text id: `TextId { id: <n> }`.
pub open spec fn text_id_text(t: TextId) -> Seq<char> {
    "TextId { id: "@ + decimal_text(t.id as int) + " }"@
}

/// The `Debug` text of an iframe node:
/// `IFrameNode { callback: IFrameCallback { cb: <n> }, data: RefAny { id: <m> } }`.
pub open spec fn iframe_node_text(n: IFrameNode) -> Seq<char> {
    "IFrameNode { callback: IFrameCallback { cb: "@ + decimal_text(n.callback.cb as int)
        + " }, data: RefAny { id: "@ + decimal_text(n.data.id as int) + " } }"@
}

impl ImageId {
    /// The `Debug` text of this id.
    pub fn debug_text(&self) -> (r: String)
        ensures
            r@ == image_id_text(*self),
    {
        let mut s = owned("ImageId { id: ");
        let n = decimal_string(self.id as i128);
        s.append(n.as_str());
        s.append(" }");
        proof {
            reveal_strlit("ImageId { id: ");
            reveal_strlit(" }");
        }
        s
    }
}

impl TextId {
    /// The `Debug` text of this id.
    pub fn debug_text(&self) -> (r: String)
        ensures
            r@ == text_id_text(*self),
    {
        let mut s = owned("TextId { id: ");
        let n = decimal_string(self.id as i128);
        s.append(n.as_str());
        s.append(" }");
        proof {
            reveal_strlit("TextId { id: ");
            reveal_strlit(" }");
        }
        s
    }
}

impl IFrameNode {
    /// The `Debug` text of this node.
    pub fn debug_text(&self) -> (r: String)
        ensures
            r@ == iframe_node_text(*self),
    {
        let mut s = owned("IFrameNode { callback: IFrameCallback { cb: ");
        let cb = decimal_string(self.callback.cb as i128);
        s.append(cb.as_str());
        s.append(" }, data: RefAny { id: ");
        let id = decimal_string(self.data.id as i128);
        s.append(id.as_str());
        s.append(" } }");
        proof {
            reveal_strlit("IFrameNode { callback: IFrameCallback { cb: ");
            reveal_strlit(" }, data: RefAny { id: ");
            reveal_strlit(" } }");
        }
        s
    }
}

} // verus!
