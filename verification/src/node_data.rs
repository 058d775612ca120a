use vstd::prelude::*;
use azul_css::props::property::CssProperty;
use crate::events::EventFilter;
use crate::resources::{
    Callback, CallbackData, CallbackType, IFrameCallback, IFrameCallbackType, IFrameNode,
    ImageId, ImageMask, RefAny, TextId, image_id_text, iframe_node_text, text_id_text,
};
use crate::tab_index::{TabIndex, html_tab_index};
use crate::tag_id::DomHash;
use crate::text::{
    decimal_string, decimal_text, digits_value, ends_cr, lemma_decimal_digits_value,
    lemma_decimal_no_cr, lemma_no_cr_concat,
    lemma_no_cr_no_line_break, lemma_no_line_break_concat, no_cr, no_line_break, owned,
};

verus! {

/// List of core DOM node types.
#[derive(Debug, Clone, Eq, Hash, PartialOrd, Ord)]
pub enum NodeType {
    /// Regular div with no particular type of data attached
    Div,
    /// Same as div, but only for the root node
    Body,
    /// A small label that can be (optionally) be selectable with the mouse
    Label(String),
    /// Larger amount of text, that has to be cached
    Text(TextId),
    /// An image that is rendered by the renderer
    Image(ImageId),
    /// DOM that gets passed its width / height during the layout
    IFrame(IFrameNode),
}

/// Two node types are equal when they are of the same kind and carry equal data
/// (labels are compared by their text).
pub open spec fn same_node_type(a: NodeType, b: NodeType) -> bool {
    match (a, b) {
        (NodeType::Div, NodeType::Div) => true,
        (NodeType::Body, NodeType::Body) => true,
        (NodeType::Label(x), NodeType::Label(y)) => x@ == y@,
        (NodeType::Text(x), NodeType::Text(y)) => x == y,
        (NodeType::Image(x), NodeType::Image(y)) => x == y,
        (NodeType::IFrame(x), NodeType::IFrame(y)) => x == y,
        _ => false,
    }
}

impl PartialEq for NodeType {
    fn eq(&self, other: &Self) -> (r: bool) {
        match (self, other) {
            (NodeType::Div, NodeType::Div) => true,
            (NodeType::Body, NodeType::Body) => true,
            (NodeType::Label(x), NodeType::Label(y)) => *x == *y,
            (NodeType::Text(x), NodeType::Text(y)) => *x == *y,
            (NodeType::Image(x), NodeType::Image(y)) => *x == *y,
            (NodeType::IFrame(x), NodeType::IFrame(y)) => *x == *y,
            _ => false,
        }
    }
}

impl vstd::std_specs::cmp::PartialEqSpecImpl for NodeType {
    open spec fn obeys_eq_spec() -> bool {
        true
    }

    open spec fn eq_spec(&self, other: &NodeType) -> bool {
        same_node_type(*self, *other)
    }
}

/// The HTML tag that a node type is printed as.
#[derive(Debug, Copy, Clone, PartialEq, Eq, Structural, PartialOrd, Ord, Hash)]
pub enum NodeTypePath {
    Div,
    Body,
    P,
    Img,
    IFrame,
}

/// The tag of each kind of node: labels and texts are paragraphs.
pub open spec fn path_of(t: NodeType) -> NodeTypePath {
    match t {
        NodeType::Div => NodeTypePath::Div,
        NodeType::Body => NodeTypePath::Body,
        NodeType::Label(_) => NodeTypePath::P,
        NodeType::Text(_) => NodeTypePath::P,
        NodeType::Image(_) => NodeTypePath::Img,
        NodeType::IFrame(_) => NodeTypePath::IFrame,
    }
}

/// The text of an HTML tag name.
pub open spec fn tag_name(p: NodeTypePath) -> Seq<char> {
    match p {
        NodeTypePath::Div => "div"@,
        NodeTypePath::Body => "body"@,
        NodeTypePath::P => "p"@,
        NodeTypePath::Img => "img"@,
        NodeTypePath::IFrame => "iframe"@,
    }
}

impl NodeTypePath {
    /// The tag name, as it stands in HTML.
    pub fn as_str(&self) -> (r: &'static str)
        ensures
            r@ == tag_name(*self),
    {
        proof {
            reveal_strlit("div");
            reveal_strlit("body");
            reveal_strlit("p");
            reveal_strlit("img");
            reveal_strlit("iframe");
        }
        match self {
            NodeTypePath::Div => "div",
            NodeTypePath::Body => "body",
            NodeTypePath::P => "p",
            NodeTypePath::Img => "img",
            NodeTypePath::IFrame => "iframe",
        }
    }
}

/// The text that a node shows between its tags: none for divs and bodies,
/// the label itself, and a description of texts, images and iframes.
pub open spec fn text_content(t: NodeType) -> Option<Seq<char>> {
    match t {
        NodeType::Div => None,
        NodeType::Body => None,
        NodeType::Label(s) => Some(s@),
        NodeType::Image(id) => Some("image("@ + image_id_text(id) + ")"@),
        NodeType::Text(id) => Some("textid("@ + text_id_text(id) + ")"@),
        NodeType::IFrame(n) => Some("iframe("@ + iframe_node_text(n) + ")"@),
    }
}

/// The text of an optional string.
pub open spec fn opt_text(s: Option<String>) -> Option<Seq<char>> {
    match s {
        Some(x) => Some(x@),
        None => None,
    }
}

impl NodeType {
    /// The text between the tags of a node of this type.
    pub fn get_text_content(&self) -> (r: Option<String>)
        ensures
            opt_text(r) == text_content(*self),
    {
        proof {
            reveal_strlit("image(");
            reveal_strlit("textid(");
            reveal_strlit("iframe(");
            reveal_strlit(")");
        }
        match self {
            NodeType::Div => None,
            NodeType::Body => None,
            NodeType::Label(s) => Some(s.clone()),
            NodeType::Image(id) => {
                let mut s = owned("image(");
                let t = id.debug_text();
                s.append(t.as_str());
                s.append(")");
                Some(s)
            },
            NodeType::Text(id) => {
                let mut s = owned("textid(");
                let t = id.debug_text();
                s.append(t.as_str());
                s.append(")");
                Some(s)
            },
            NodeType::IFrame(n) => {
                let mut s = owned("iframe(");
                let t = n.debug_text();
                s.append(t.as_str());
                s.append(")");
                Some(s)
            },
        }
    }

    /// The HTML tag of a node of this type.
    pub fn get_path(&self) -> (r: NodeTypePath)
        ensures
            r == path_of(*self),
    {
        match self {
            NodeType::Div => NodeTypePath::Div,
            NodeType::Body => NodeTypePath::Body,
            NodeType::Label(_) => NodeTypePath::P,
            NodeType::Text(_) => NodeTypePath::P,
            NodeType::Image(_) => NodeTypePath::Img,
            NodeType::IFrame(_) => NodeTypePath::IFrame,
        }
    }
}

/// An id or a class of a node.
#[derive(Debug, Clone, PartialEq, Eq, Hash, PartialOrd, Ord)]
pub enum IdOrClass {
    Id(String),
    Class(String),
}

impl IdOrClass {
    /// The text of this entry if it is an id.
    pub open spec fn id_text(self) -> Option<Seq<char>> {
        match self {
            IdOrClass::Id(s) => Some(s@),
            IdOrClass::Class(_) => None,
        }
    }

    /// The text of this entry if it is a class.
    pub open spec fn class_text(self) -> Option<Seq<char>> {
        match self {
            IdOrClass::Class(s) => Some(s@),
            IdOrClass::Id(_) => None,
        }
    }

    pub fn as_id(&self) -> (r: Option<&str>)
        ensures
            r matches Some(s) ==> self.id_text() == Some(s@),
            r is None <==> self.id_text() is None,
    {
        match self {
            IdOrClass::Id(s) => Some(s.as_str()),
            IdOrClass::Class(_) => None,
        }
    }

    pub fn as_class(&self) -> (r: Option<&str>)
        ensures
            r matches Some(s) ==> self.class_text() == Some(s@),
            r is None <==> self.class_text() is None,
    {
        match self {
            IdOrClass::Class(s) => Some(s.as_str()),
            IdOrClass::Id(_) => None,
        }
    }
}

/// An inline CSS property of a node, and the state of the node in which it applies.
#[derive(Debug, Clone, PartialEq, Eq, Hash, PartialOrd, Ord)]
pub enum NodeDataInlineCssProperty {
    Normal(CssProperty),
    Active(CssProperty),
    Focus(CssProperty),
    Hover(CssProperty),
}

/// The abstract contents of a DOM node.
pub struct NodeDataModel {
    pub node_type: NodeType,
    pub dataset: Option<RefAny>,
    pub ids_and_classes: Seq<IdOrClass>,
    pub callbacks: Seq<CallbackData>,
    pub inline_css_props: Seq<NodeDataInlineCssProperty>,
    pub clip_mask: Option<ImageMask>,
    pub is_draggable: bool,
    pub tab_index: Option<TabIndex>,
}

/// Represents one single DOM node (node type, classes, ids and callbacks are stored here)
#[derive(Clone, PartialEq, Eq, Hash, PartialOrd, Ord)]
pub struct NodeData {
    /// `div`
    node_type: NodeType,
    /// data-* attributes for this node, useful to store UI-related data on the node itself
    dataset: Option<RefAny>,
    /// Stores all ids and classes as one vec
    ids_and_classes: Vec<IdOrClass>,
    /// `On::MouseUp` -> `Callback(my_button_click_handler)`
    callbacks: Vec<CallbackData>,
    /// Stores the inline CSS properties, same as in HTML
    inline_css_props: Vec<NodeDataInlineCssProperty>,
    /// Optional clip mask for this DOM node
    clip_mask: Option<ImageMask>,
    /// Whether this div can be dragged or not, similar to `draggable = "true"` in HTML
    is_draggable: bool,
    /// Whether this div can be focused, and if yes, in what order.
    tab_index: Option<TabIndex>,
}

impl View for NodeData {
    type V = NodeDataModel;

    closed spec fn view(&self) -> NodeDataModel {
        NodeDataModel {
            node_type: self.node_type,
            dataset: self.dataset,
            ids_and_classes: self.ids_and_classes@,
            callbacks: self.callbacks@,
            inline_css_props: self.inline_css_props@,
            clip_mask: self.clip_mask,
            is_draggable: self.is_draggable,
            tab_index: self.tab_index,
        }
    }
}

/// A node of the given type with no data, ids, classes, callbacks, inline CSS
/// or clip mask, not draggable and not focusable.
pub open spec fn fresh_node(node_type: NodeType) -> NodeDataModel {
    NodeDataModel {
        node_type,
        dataset: None,
        ids_and_classes: Seq::empty(),
        callbacks: Seq::empty(),
        inline_css_props: Seq::empty(),
        clip_mask: None,
        is_draggable: false,
        tab_index: None,
    }
}

/// `after` is `before` with one more entry at the end of its ids and classes:
/// an id with the given text.
pub open spec fn appended_id(before: NodeDataModel, after: NodeDataModel, id: Seq<char>) -> bool {
    &&& after.ids_and_classes.len() == before.ids_and_classes.len() + 1
    &&& after.ids_and_classes.drop_last() == before.ids_and_classes
    &&& after.ids_and_classes.last().id_text() == Some(id)
    &&& after == (NodeDataModel { ids_and_classes: after.ids_and_classes, ..before })
}

/// `after` is `before` with one more entry at the end of its ids and classes:
/// a class with the given text.
pub open spec fn appended_class(before: NodeDataModel, after: NodeDataModel, class: Seq<char>) -> bool {
    &&& after.ids_and_classes.len() == before.ids_and_classes.len() + 1
    &&& after.ids_and_classes.drop_last() == before.ids_and_classes
    &&& after.ids_and_classes.last().class_text() == Some(class)
    &&& after == (NodeDataModel { ids_and_classes: after.ids_and_classes, ..before })
}

/// Whether the entries hold an id with the given text.
pub open spec fn has_id_text(s: Seq<IdOrClass>, id: Seq<char>) -> bool {
    exists|i: int| 0 <= i < s.len() && #[trigger] s[i].id_text() == Some(id)
}

/// Whether the entries hold a class with the given text.
pub open spec fn has_class_text(s: Seq<IdOrClass>, class: Seq<char>) -> bool {
    exists|i: int| 0 <= i < s.len() && #[trigger] s[i].class_text() == Some(class)
}


/// The concatenated texts of the ids among the entries, in order.
pub open spec fn ids_text(s: Seq<IdOrClass>) -> Seq<char>
    decreases s.len(),
{
    if s.len() == 0 {
        Seq::empty()
    } else {
        ids_text(s.drop_last()) + match s.last().id_text() {
            Some(t) => t,
            None => Seq::empty(),
        }
    }
}

/// The concatenated texts of the classes among the entries, in order.
pub open spec fn classes_text(s: Seq<IdOrClass>) -> Seq<char>
    decreases s.len(),
{
    if s.len() == 0 {
        Seq::empty()
    } else {
        classes_text(s.drop_last()) + match s.last().class_text() {
            Some(t) => t,
            None => Seq::empty(),
        }
    }
}

/// Whether two node types print with the same tag: they are of the same kind, or both
/// are labels or texts (paragraphs).
pub open spec fn same_tag_kind(t: NodeType, u: NodeType) -> bool {
    ||| (t is Div && u is Div)
    ||| (t is Body && u is Body)
    ||| ((t is Label || t is Text) && (u is Label || u is Text))
    ||| (t is Image && u is Image)
    ||| (t is IFrame && u is IFrame)
}

/// Every kind of node prints with its own HTML tag: divs as `div`, bodies as `body`,
/// labels and texts as `p`, images as `img` and iframes as `iframe`; two node types
/// print with the same tag exactly when they are of the same kind, or both paragraphs.
pub proof fn lemma_node_tags(t: NodeType, u: NodeType)
    ensures
        t is Div ==> tag_name(path_of(t)) == "div"@,
        t is Body ==> tag_name(path_of(t)) == "body"@,
        (t is Label || t is Text) ==> tag_name(path_of(t)) == "p"@,
        t is Image ==> tag_name(path_of(t)) == "img"@,
        t is IFrame ==> tag_name(path_of(t)) == "iframe"@,
        (tag_name(path_of(t)) == tag_name(path_of(u))) <==> same_tag_kind(t, u),
{
    reveal_strlit("div");
    reveal_strlit("body");
    reveal_strlit("p");
    reveal_strlit("img");
    reveal_strlit("iframe");
    let a = tag_name(path_of(t));
    let b = tag_name(path_of(u));
    if a == b && !same_tag_kind(t, u) {
        assert(a.len() == b.len());
        assert(a[0] == b[0]);
    }
}

/// A node shows text content exactly when it is not a div or a body: a label shows its
/// own text, and a text or an image shows a description from which its id reads back
/// (the digits between `textid(TextId { id: ` or `image(ImageId { id: ` and ` })`).
pub proof fn lemma_text_content(t: NodeType)
    ensures
        text_content(t) is None <==> (t is Div || t is Body),
        t matches NodeType::Label(s) ==> text_content(t) == Some(s@),
        t matches NodeType::Image(i) ==> (text_content(t) matches Some(c) && c.len() >= 24
            && digits_value(c.subrange(20, c.len() - 3)) == i.id),
        t matches NodeType::Text(i) ==> (text_content(t) matches Some(c) && c.len() >= 24
            && digits_value(c.subrange(20, c.len() - 3)) == i.id),
{
    reveal_strlit("image(");
    reveal_strlit("textid(");
    reveal_strlit("ImageId { id: ");
    reveal_strlit("TextId { id: ");
    reveal_strlit(" }");
    reveal_strlit(")");
    match t {
        NodeType::Image(i) => {
            lemma_decimal_digits_value(i.id as nat);
            crate::text::lemma_decimal_digits_len(i.id as nat);
            let c = "image("@ + image_id_text(i) + ")"@;
            assert(c.subrange(20, c.len() - 3) =~= decimal_text(i.id as int));
        },
        NodeType::Text(i) => {
            lemma_decimal_digits_value(i.id as nat);
            crate::text::lemma_decimal_digits_len(i.id as nat);
            let c = "textid("@ + text_id_text(i) + ")"@;
            assert(c.subrange(20, c.len() - 3) =~= decimal_text(i.id as int));
        },
        _ => {},
    }
}

/// Adding an entry to a node's ids and classes adds its text at the end of the id text
/// (for an id) or of the class text (for a class), and leaves the other as it was.
pub proof fn lemma_entry_texts_push(s: Seq<IdOrClass>, e: IdOrClass)
    ensures
        e matches IdOrClass::Id(x) ==> ids_text(s.push(e)) == ids_text(s) + x@ && classes_text(
            s.push(e),
        ) == classes_text(s),
        e matches IdOrClass::Class(x) ==> classes_text(s.push(e)) == classes_text(s) + x@
            && ids_text(s.push(e)) == ids_text(s),
{
    assert(s.push(e).drop_last() =~= s);
    assert(ids_text(s) + Seq::<char>::empty() =~= ids_text(s));
    assert(classes_text(s) + Seq::<char>::empty() =~= classes_text(s));
}

/// The id text of two lists of entries one after another is the id text of the first
/// followed by that of the second, and so for the class text: every id and every class
/// is written, in order.
pub proof fn lemma_entry_texts_concat(s: Seq<IdOrClass>, t: Seq<IdOrClass>)
    ensures
        ids_text(s + t) == ids_text(s) + ids_text(t),
        classes_text(s + t) == classes_text(s) + classes_text(t),
    decreases t.len(),
{
    if t.len() == 0 {
        assert(s + t =~= s);
        assert(ids_text(s) + ids_text(t) =~= ids_text(s));
        assert(classes_text(s) + classes_text(t) =~= classes_text(s));
    } else {
        let p = t.drop_last();
        let e = t.last();
        lemma_entry_texts_concat(s, p);
        assert(s + t =~= (s + p).push(e));
        assert(t =~= p.push(e));
        lemma_entry_texts_push(s + p, e);
        lemma_entry_texts_push(p, e);
        match e {
            IdOrClass::Id(x) => {
                assert(ids_text(s) + ids_text(p) + x@ =~= ids_text(s) + (ids_text(p) + x@));
            },
            IdOrClass::Class(x) => {
                assert(classes_text(s) + classes_text(p) + x@ =~= classes_text(s) + (classes_text(p)
                    + x@));
            },
        }
    }
}

/// The HTML attributes of a node: its ids and its classes (each attribute present
/// whenever the node has any id or class), its tab index and whether it is draggable.
pub open spec fn attributes_text(m: NodeDataModel) -> Seq<char> {
    (if m.ids_and_classes.len() > 0 {
        " id = \""@ + ids_text(m.ids_and_classes) + "\""@
    } else {
        Seq::empty()
    }) + (if m.ids_and_classes.len() > 0 {
        " class = \""@ + classes_text(m.ids_and_classes) + "\""@
    } else {
        Seq::empty()
    }) + (match m.tab_index {
        Some(t) => " tabindex=\""@ + decimal_text(html_tab_index(t) as int) + "\""@,
        None => Seq::empty(),
    }) + (if m.is_draggable {
        " draggable=\"true\""@
    } else {
        Seq::empty()
    })
}

/// The opening tag of a node, self-closing (`<tag attrs />`) or not (`<tag attrs>`).
pub open spec fn start_tag_text(m: NodeDataModel, close_self: bool) -> Seq<char> {
    "<"@ + tag_name(path_of(m.node_type)) + attributes_text(m) + (if close_self {
        " /"@
    } else {
        Seq::empty()
    }) + ">"@
}

/// The closing tag of a node: `</tag>`.
pub open spec fn end_tag_text(m: NodeDataModel) -> Seq<char> {
    "</"@ + tag_name(path_of(m.node_type)) + ">"@
}

/// The HTML of a single node: `<tag attrs>content</tag>` when the node has text
/// content, `<tag attrs/>` when it has none.
pub open spec fn node_html_text(m: NodeDataModel) -> Seq<char> {
    match text_content(m.node_type) {
        Some(c) => "<"@ + tag_name(path_of(m.node_type)) + attributes_text(m) + ">"@ + c + "</"@
            + tag_name(path_of(m.node_type)) + ">"@,
        None => "<"@ + tag_name(path_of(m.node_type)) + attributes_text(m) + "/>"@,
    }
}

/// The HTML attributes of a node (ids, classes, tab index, draggability).
pub fn node_data_to_string(node_data: &NodeData) -> (r: String)
    ensures
        r@ == attributes_text(node_data@),
{
    proof {
        reveal_strlit(" id = \"");
        reveal_strlit(" class = \"");
        reveal_strlit("\"");
        reveal_strlit(" tabindex=\"");
        reveal_strlit(" draggable=\"true\"");
        reveal_strlit("");
    }
    let ghost entries = node_data.ids_and_classes@;
    let n = node_data.ids_and_classes.len();
    let mut id_string = owned("");
    if n > 0 {
        id_string.append(" id = \"");
        let mut i: usize = 0;
        while i < n
            invariant
                n == entries.len(),
                entries == node_data.ids_and_classes@,
                i <= n,
                id_string@ == " id = \""@ + ids_text(entries.take(i as int)),
            decreases n - i,
        {
            assert(entries.take(i + 1).drop_last() =~= entries.take(i as int));
            if let Some(id) = node_data.ids_and_classes[i].as_id() {
                id_string.append(id);
            }
            i = i + 1;
        }
        assert(entries.take(n as int) =~= entries);
        id_string.append("\"");
    }
    let mut class_string = owned("");
    if n > 0 {
        class_string.append(" class = \"");
        let mut i: usize = 0;
        while i < n
            invariant
                n == entries.len(),
                entries == node_data.ids_and_classes@,
                i <= n,
                class_string@ == " class = \""@ + classes_text(entries.take(i as int)),
            decreases n - i,
        {
            assert(entries.take(i + 1).drop_last() =~= entries.take(i as int));
            if let Some(class) = node_data.ids_and_classes[i].as_class() {
                class_string.append(class);
            }
            i = i + 1;
        }
        assert(entries.take(n as int) =~= entries);
        class_string.append("\"");
    }
    let mut out = id_string;
    out.append(class_string.as_str());
    if let Some(tab_index) = node_data.tab_index {
        out.append(" tabindex=\"");
        let number = decimal_string(tab_index.get_index() as i128);
        out.append(number.as_str());
        out.append("\"");
    }
    if node_data.is_draggable {
        out.append(" draggable=\"true\"");
    }
    out
}

impl NodeData {
    /// Creates a new `NodeData` instance from a given `NodeType`
    pub fn new(node_type: NodeType) -> (r: Self)
        ensures
            r@ == fresh_node(node_type),
    {
        NodeData {
            node_type,
            dataset: None,
            ids_and_classes: Vec::new(),
            callbacks: Vec::new(),
            inline_css_props: Vec::new(),
            clip_mask: None,
            is_draggable: false,
            tab_index: None,
        }
    }

    pub fn add_dataset(&mut self, data: RefAny)
        ensures
            final(self)@ == (NodeDataModel { dataset: Some(data), ..old(self)@ }),
    {
        self.dataset = Some(data);
    }

    pub fn add_callback(&mut self, on: EventFilter, callback: CallbackType, data: RefAny)
        ensures
            final(self)@ == (NodeDataModel {
                callbacks: old(self)@.callbacks.push(
                    CallbackData { event: on, callback: Callback { cb: callback }, data },
                ),
                ..old(self)@
            }),
    {
        self.callbacks.push(CallbackData { event: on, callback: Callback { cb: callback }, data });
    }

    pub fn add_inline_css(&mut self, property: CssProperty)
        ensures
            final(self)@ == (NodeDataModel {
                inline_css_props: old(self)@.inline_css_props.push(
                    NodeDataInlineCssProperty::Normal(property),
                ),
                ..old(self)@
            }),
    {
        self.inline_css_props.push(NodeDataInlineCssProperty::Normal(property));
    }

    pub fn add_inline_hover_css(&mut self, property: CssProperty)
        ensures
            final(self)@ == (NodeDataModel {
                inline_css_props: old(self)@.inline_css_props.push(
                    NodeDataInlineCssProperty::Hover(property),
                ),
                ..old(self)@
            }),
    {
        self.inline_css_props.push(NodeDataInlineCssProperty::Hover(property));
    }

    pub fn add_inline_active_css(&mut self, property: CssProperty)
        ensures
            final(self)@ == (NodeDataModel {
                inline_css_props: old(self)@.inline_css_props.push(
                    NodeDataInlineCssProperty::Active(property),
                ),
                ..old(self)@
            }),
    {
        self.inline_css_props.push(NodeDataInlineCssProperty::Active(property));
    }

    pub fn add_inline_focus_css(&mut self, property: CssProperty)
        ensures
            final(self)@ == (NodeDataModel {
                inline_css_props: old(self)@.inline_css_props.push(
                    NodeDataInlineCssProperty::Focus(property),
                ),
                ..old(self)@
            }),
    {
        self.inline_css_props.push(NodeDataInlineCssProperty::Focus(property));
    }

    pub fn add_id(&mut self, id: &str)
        ensures
            appended_id(old(self)@, final(self)@, id@),
    {
        self.ids_and_classes.push(IdOrClass::Id(owned(id)));
        proof {
            assert(self.ids_and_classes@.drop_last() =~= old(self).ids_and_classes@);
        }
    }

    pub fn add_class(&mut self, class: &str)
        ensures
            appended_class(old(self)@, final(self)@, class@),
    {
        self.ids_and_classes.push(IdOrClass::Class(owned(class)));
        proof {
            assert(self.ids_and_classes@.drop_last() =~= old(self).ids_and_classes@);
        }
    }

    /// Checks whether this node is of the given node type (div, image, text)
    pub fn is_node_type(&self, searched_type: NodeType) -> (r: bool)
        ensures
            r == same_node_type(self@.node_type, searched_type),
    {
        self.node_type == searched_type
    }

    /// Checks whether this node has the searched ID attached
    pub fn has_id(&self, id: &str) -> (r: bool)
        ensures
            r == has_id_text(self@.ids_and_classes, id@),
    {
        let n = self.ids_and_classes.len();
        let mut i: usize = 0;
        while i < n
            invariant
                n == self.ids_and_classes@.len(),
                i <= n,
                forall|j: int| 0 <= j < i ==> #[trigger] self.ids_and_classes@[j].id_text() != Some(id@),
            decreases n - i,
        {
            if let Some(s) = self.ids_and_classes[i].as_id() {
                let a = owned(s);
                let b = owned(id);
                if a == b {
                    assert(self.ids_and_classes@[i as int].id_text() == Some(id@));
                    return true;
                }
            }
            i = i + 1;
        }
        false
    }

    /// Checks whether this node has the searched class attached
    pub fn has_class(&self, class: &str) -> (r: bool)
        ensures
            r == has_class_text(self@.ids_and_classes, class@),
    {
        let n = self.ids_and_classes.len();
        let mut i: usize = 0;
        while i < n
            invariant
                n == self.ids_and_classes@.len(),
                i <= n,
                forall|j: int| 0 <= j < i ==> #[trigger] self.ids_and_classes@[j].class_text() != Some(class@),
            decreases n - i,
        {
            if let Some(s) = self.ids_and_classes[i].as_class() {
                let a = owned(s);
                let b = owned(class);
                if a == b {
                    assert(self.ids_and_classes@[i as int].class_text() == Some(class@));
                    return true;
                }
            }
            i = i + 1;
        }
        false
    }
}


/// Calls `<NodeData as Hash>::hash` (written by `derive(Hash)`), feeding the node into the
/// hasher. Nothing is claimed of the hasher's new state: it depends on how the standard
/// library hashes each field type, which is not fixed across platforms.
#[verifier::external_body]
fn feed_hasher(node_data: &NodeData, hasher: &mut std::collections::hash_map::DefaultHasher) {
    std::hash::Hash::hash(node_data, hasher)
}

impl NodeData {
    /// The hash of all the data of this node, computed with the default hasher.
    pub fn calculate_node_data_hash(&self) -> DomHash {
        let mut hasher = std::collections::hash_map::DefaultHasher::new();
        feed_hasher(self, &mut hasher);
        DomHash(std::hash::Hasher::finish(&hasher))
    }

    /// Shorthand for `NodeData::new(NodeType::Body)`.
    pub fn body() -> (r: Self)
        ensures
            r@ == fresh_node(NodeType::Body),
    {
        Self::new(NodeType::Body)
    }

    /// Shorthand for `NodeData::new(NodeType::Div)`.
    pub fn div() -> (r: Self)
        ensures
            r@ == fresh_node(NodeType::Div),
    {
        Self::new(NodeType::Div)
    }

    /// Shorthand for `NodeData::new(NodeType::Label(value))`
    pub fn label(value: &str) -> (r: Self)
        ensures
            r@ == (NodeDataModel { node_type: r@.node_type, ..fresh_node(NodeType::Div) }),
            r@.node_type matches NodeType::Label(s) && s@ == value@,
    {
        Self::new(NodeType::Label(owned(value)))
    }

    /// Shorthand for `NodeData::new(NodeType::Text(text_id))`
    pub fn text(text_id: TextId) -> (r: Self)
        ensures
            r@ == fresh_node(NodeType::Text(text_id)),
    {
        Self::new(NodeType::Text(text_id))
    }

    /// Shorthand for `NodeData::new(NodeType::Image(image_id))`
    pub fn image(image: ImageId) -> (r: Self)
        ensures
            r@ == fresh_node(NodeType::Image(image)),
    {
        Self::new(NodeType::Image(image))
    }

    /// A node that renders an iframe with the given callback and data.
    pub fn iframe(data: RefAny, callback: IFrameCallbackType) -> (r: Self)
        ensures
            r@ == fresh_node(NodeType::IFrame(IFrameNode { callback: IFrameCallback { cb: callback }, data })),
    {
        Self::new(NodeType::IFrame(IFrameNode { callback: IFrameCallback { cb: callback }, data }))
    }

    pub fn get_node_type(&self) -> (r: &NodeType)
        ensures
            *r == self@.node_type,
    {
        &self.node_type
    }

    pub fn get_dataset(&self) -> (r: &Option<RefAny>)
        ensures
            *r == self@.dataset,
    {
        &self.dataset
    }

    pub fn get_ids_and_classes(&self) -> (r: &Vec<IdOrClass>)
        ensures
            r@ == self@.ids_and_classes,
    {
        &self.ids_and_classes
    }

    pub fn get_callbacks(&self) -> (r: &Vec<CallbackData>)
        ensures
            r@ == self@.callbacks,
    {
        &self.callbacks
    }

    pub fn get_inline_css_props(&self) -> (r: &Vec<NodeDataInlineCssProperty>)
        ensures
            r@ == self@.inline_css_props,
    {
        &self.inline_css_props
    }

    pub fn get_clip_mask(&self) -> (r: &Option<ImageMask>)
        ensures
            *r == self@.clip_mask,
    {
        &self.clip_mask
    }

    pub fn get_is_draggable(&self) -> (r: bool)
        ensures
            r == self@.is_draggable,
    {
        self.is_draggable
    }

    pub fn get_tab_index(&self) -> (r: Option<TabIndex>)
        ensures
            r == self@.tab_index,
    {
        self.tab_index
    }

    pub fn set_node_type(&mut self, node_type: NodeType)
        ensures
            final(self)@ == (NodeDataModel { node_type, ..old(self)@ }),
    {
        self.node_type = node_type;
    }

    pub fn set_dataset(&mut self, dataset: Option<RefAny>)
        ensures
            final(self)@ == (NodeDataModel { dataset, ..old(self)@ }),
    {
        self.dataset = dataset;
    }

    pub fn set_clip_mask(&mut self, clip_mask: Option<ImageMask>)
        ensures
            final(self)@ == (NodeDataModel { clip_mask, ..old(self)@ }),
    {
        self.clip_mask = clip_mask;
    }

    pub fn set_is_draggable(&mut self, is_draggable: bool)
        ensures
            final(self)@ == (NodeDataModel { is_draggable, ..old(self)@ }),
    {
        self.is_draggable = is_draggable;
    }

    pub fn set_tab_index(&mut self, tab_index: Option<TabIndex>)
        ensures
            final(self)@ == (NodeDataModel { tab_index, ..old(self)@ }),
    {
        self.tab_index = tab_index;
    }

    pub fn set_ids_and_classes(&mut self, ids_and_classes: Vec<IdOrClass>)
        ensures
            final(self)@ == (NodeDataModel { ids_and_classes: ids_and_classes@, ..old(self)@ }),
    {
        self.ids_and_classes = ids_and_classes;
    }

    pub fn set_callbacks(&mut self, callbacks: Vec<CallbackData>)
        ensures
            final(self)@ == (NodeDataModel { callbacks: callbacks@, ..old(self)@ }),
    {
        self.callbacks = callbacks;
    }

    pub fn set_inline_css_props(&mut self, inline_css_props: Vec<NodeDataInlineCssProperty>)
        ensures
            final(self)@ == (NodeDataModel { inline_css_props: inline_css_props@, ..old(self)@ }),
    {
        self.inline_css_props = inline_css_props;
    }

    pub fn with_node_type(self, node_type: NodeType) -> (r: Self)
        ensures
            r@ == (NodeDataModel { node_type, ..self@ }),
    {
        Self { node_type, ..self }
    }

    pub fn with_dataset(self, dataset: Option<RefAny>) -> (r: Self)
        ensures
            r@ == (NodeDataModel { dataset, ..self@ }),
    {
        Self { dataset, ..self }
    }

    pub fn with_clip_mask(self, clip_mask: Option<ImageMask>) -> (r: Self)
        ensures
            r@ == (NodeDataModel { clip_mask, ..self@ }),
    {
        Self { clip_mask, ..self }
    }

    pub fn is_draggable(self, is_draggable: bool) -> (r: Self)
        ensures
            r@ == (NodeDataModel { is_draggable, ..self@ }),
    {
        Self { is_draggable, ..self }
    }

    pub fn with_tab_index(self, tab_index: Option<TabIndex>) -> (r: Self)
        ensures
            r@ == (NodeDataModel { tab_index, ..self@ }),
    {
        Self { tab_index, ..self }
    }

    pub fn with_ids_and_classes(self, ids_and_classes: Vec<IdOrClass>) -> (r: Self)
        ensures
            r@ == (NodeDataModel { ids_and_classes: ids_and_classes@, ..self@ }),
    {
        Self { ids_and_classes, ..self }
    }

    pub fn with_callbacks(self, callbacks: Vec<CallbackData>) -> (r: Self)
        ensures
            r@ == (NodeDataModel { callbacks: callbacks@, ..self@ }),
    {
        Self { callbacks, ..self }
    }

    pub fn with_inline_css_props(self, inline_css_props: Vec<NodeDataInlineCssProperty>) -> (r: Self)
        ensures
            r@ == (NodeDataModel { inline_css_props: inline_css_props@, ..self@ }),
    {
        Self { inline_css_props, ..self }
    }

    /// The opening tag of this node, with its attributes; `close_self` makes it self-closing.
    pub fn debug_print_start(&self, close_self: bool) -> (r: String)
        ensures
            r@ == start_tag_text(self@, close_self),
    {
        proof {
            reveal_strlit("<");
            reveal_strlit(" /");
            reveal_strlit(">");
        }
        let html_type = self.node_type.get_path();
        let attributes_string = node_data_to_string(self);
        let mut s = owned("<");
        s.append(html_type.as_str());
        s.append(attributes_string.as_str());
        if close_self {
            s.append(" /");
        }
        s.append(">");
        s
    }

    /// The closing tag of this node.
    pub fn debug_print_end(&self) -> (r: String)
        ensures
            r@ == end_tag_text(self@),
    {
        proof {
            reveal_strlit("</");
            reveal_strlit(">");
        }
        let html_type = self.node_type.get_path();
        let mut s = owned("</");
        s.append(html_type.as_str());
        s.append(">");
        s
    }

    /// The HTML of this node alone: `<tag attrs>content</tag>`, or `<tag attrs/>`
    /// when the node has no text content.
    pub fn to_string(&self) -> (r: String)
        ensures
            r@ == node_html_text(self@),
    {
        proof {
            reveal_strlit("<");
            reveal_strlit(">");
            reveal_strlit("</");
            reveal_strlit("/>");
        }
        let html_type = self.node_type.get_path();
        let attributes_string = node_data_to_string(self);
        let mut s = owned("<");
        s.append(html_type.as_str());
        s.append(attributes_string.as_str());
        match self.node_type.get_text_content() {
            Some(content) => {
                s.append(">");
                s.append(content.as_str());
                s.append("</");
                s.append(html_type.as_str());
                s.append(">");
            },
            None => {
                s.append("/>");
            },
        }
        s
    }
}

impl Default for NodeData {
    fn default() -> (r: Self)
        ensures
            r@ == fresh_node(NodeType::Div),
    {
        NodeData::new(NodeType::Div)
    }
}


/// After an id is added, the node has exactly the ids it had before and the new one;
/// its classes are unchanged.
pub proof fn lemma_added_id_is_found(before: NodeDataModel, after: NodeDataModel, id: Seq<char>, other: Seq<char>)
    requires
        appended_id(before, after, id),
    ensures
        has_id_text(after.ids_and_classes, other) <==> (has_id_text(before.ids_and_classes, other)
            || other == id),
        has_class_text(after.ids_and_classes, other) == has_class_text(before.ids_and_classes, other),
{
    let a = after.ids_and_classes;
    let b = before.ids_and_classes;
    let n = b.len();
    assert forall|i: int| 0 <= i < n implies #[trigger] a[i] == b[i] by {
        assert(a.drop_last()[i] == a[i]);
    }
    if has_id_text(a, other) {
        let i = choose|i: int| 0 <= i < a.len() && #[trigger] a[i].id_text() == Some(other);
        if i < n {
            assert(b[i].id_text() == Some(other));
        }
    }
    if has_id_text(b, other) {
        let i = choose|i: int| 0 <= i < b.len() && #[trigger] b[i].id_text() == Some(other);
        assert(a[i].id_text() == Some(other));
    }
    if other == id {
        assert(a[n as int].id_text() == Some(other));
    }
    if has_class_text(a, other) {
        let i = choose|i: int| 0 <= i < a.len() && #[trigger] a[i].class_text() == Some(other);
        if i < n {
            assert(b[i].class_text() == Some(other));
        }
    }
    if has_class_text(b, other) {
        let i = choose|i: int| 0 <= i < b.len() && #[trigger] b[i].class_text() == Some(other);
        assert(a[i].class_text() == Some(other));
    }
}

/// After a class is added, the node has exactly the classes it had before and the new
/// one; its ids are unchanged.
pub proof fn lemma_added_class_is_found(before: NodeDataModel, after: NodeDataModel, class: Seq<char>, other: Seq<char>)
    requires
        appended_class(before, after, class),
    ensures
        has_class_text(after.ids_and_classes, other) <==> (has_class_text(before.ids_and_classes, other)
            || other == class),
        has_id_text(after.ids_and_classes, other) == has_id_text(before.ids_and_classes, other),
{
    let a = after.ids_and_classes;
    let b = before.ids_and_classes;
    let n = b.len();
    assert forall|i: int| 0 <= i < n implies #[trigger] a[i] == b[i] by {
        assert(a.drop_last()[i] == a[i]);
    }
    if has_class_text(a, other) {
        let i = choose|i: int| 0 <= i < a.len() && #[trigger] a[i].class_text() == Some(other);
        if i < n {
            assert(b[i].class_text() == Some(other));
        }
    }
    if has_class_text(b, other) {
        let i = choose|i: int| 0 <= i < b.len() && #[trigger] b[i].class_text() == Some(other);
        assert(a[i].class_text() == Some(other));
    }
    if other == class {
        assert(a[n as int].class_text() == Some(other));
    }
    if has_id_text(a, other) {
        let i = choose|i: int| 0 <= i < a.len() && #[trigger] a[i].id_text() == Some(other);
        if i < n {
            assert(b[i].id_text() == Some(other));
        }
    }
    if has_id_text(b, other) {
        let i = choose|i: int| 0 <= i < b.len() && #[trigger] b[i].id_text() == Some(other);
        assert(a[i].id_text() == Some(other));
    }
}

/// Node-type equality is an equivalence, and node types that are equal print the same
/// tag and the same text content.
pub proof fn lemma_same_node_type_equivalence(a: NodeType, b: NodeType, c: NodeType)
    ensures
        same_node_type(a, a),
        same_node_type(a, b) ==> same_node_type(b, a),
        same_node_type(a, b) && same_node_type(b, c) ==> same_node_type(a, c),
        same_node_type(a, b) ==> path_of(a) == path_of(b) && text_content(a) == text_content(b),
{
}

/// Every node shows its opening tag: a node without text content prints as a
/// self-closing tag, and one with text content as its opening tag, the content and its
/// closing tag.
pub proof fn lemma_node_html_parts(m: NodeDataModel)
    ensures
        text_content(m.node_type) is None ==> node_html_text(m) == start_tag_text(m, false).drop_last() + "/>"@,
        text_content(m.node_type) matches Some(c) ==> node_html_text(m) == start_tag_text(m, false) + c + end_tag_text(m),
{
    reveal_strlit(">");
    reveal_strlit("<");
    let t = tag_name(path_of(m.node_type));
    let attrs = attributes_text(m);
    assert(start_tag_text(m, false) =~= "<"@ + t + attrs + ">"@);
    assert(("<"@ + t + attrs + ">"@).drop_last() =~= "<"@ + t + attrs);
    match text_content(m.node_type) {
        Some(c) => {
            assert(node_html_text(m) =~= start_tag_text(m, false) + c + end_tag_text(m));
        },
        None => {
            assert(node_html_text(m) =~= start_tag_text(m, false).drop_last() + "/>"@);
        },
    }
}


/// No line break `\r\n` stands in the node's label text, nor in its ids or its
/// classes as its opening tag writes them, one after another.
pub open spec fn node_line_break_free(m: NodeDataModel) -> bool {
    &&& (m.node_type matches NodeType::Label(s) ==> no_line_break(s@))
    &&& no_line_break(ids_text(m.ids_and_classes))
    &&& no_line_break(classes_text(m.ids_and_classes))
}

proof fn lemma_literals_no_cr()
    ensures
        no_cr("<"@),
        no_cr(">"@),
        no_cr(" /"@),
        no_cr("</"@),
        no_cr("/>"@),
        no_cr("div"@),
        no_cr("body"@),
        no_cr("p"@),
        no_cr("img"@),
        no_cr("iframe"@),
        no_cr(" id = \""@),
        no_cr(" class = \""@),
        no_cr("\""@),
        no_cr(" tabindex=\""@),
        no_cr(" draggable=\"true\""@),
        no_cr("image("@),
        no_cr("textid("@),
        no_cr("iframe("@),
        no_cr(")"@),
        no_cr("ImageId { id: "@),
        no_cr(" }"@),
        no_cr("TextId { id: "@),
        no_cr("IFrameNode { callback: IFrameCallback { cb: "@),
        no_cr(" }, data: RefAny { id: "@),
        no_cr(" } }"@),
{
    reveal_strlit("<");
    assert(no_cr("<"@));
    reveal_strlit(">");
    assert(no_cr(">"@));
    reveal_strlit(" /");
    assert(no_cr(" /"@));
    reveal_strlit("</");
    assert(no_cr("</"@));
    reveal_strlit("/>");
    assert(no_cr("/>"@));
    reveal_strlit("div");
    assert(no_cr("div"@));
    reveal_strlit("body");
    assert(no_cr("body"@));
    reveal_strlit("p");
    assert(no_cr("p"@));
    reveal_strlit("img");
    assert(no_cr("img"@));
    reveal_strlit("iframe");
    assert(no_cr("iframe"@));
    reveal_strlit(" id = \"");
    assert(no_cr(" id = \""@));
    reveal_strlit(" class = \"");
    assert(no_cr(" class = \""@));
    reveal_strlit("\"");
    assert(no_cr("\""@));
    reveal_strlit(" tabindex=\"");
    assert(no_cr(" tabindex=\""@));
    reveal_strlit(" draggable=\"true\"");
    assert(no_cr(" draggable=\"true\""@));
    reveal_strlit("image(");
    assert(no_cr("image("@));
    reveal_strlit("textid(");
    assert(no_cr("textid("@));
    reveal_strlit("iframe(");
    assert(no_cr("iframe("@));
    reveal_strlit(")");
    assert(no_cr(")"@));
    reveal_strlit("ImageId { id: ");
    assert(no_cr("ImageId { id: "@));
    reveal_strlit(" }");
    assert(no_cr(" }"@));
    reveal_strlit("TextId { id: ");
    assert(no_cr("TextId { id: "@));
    reveal_strlit("IFrameNode { callback: IFrameCallback { cb: ");
    assert(no_cr("IFrameNode { callback: IFrameCallback { cb: "@));
    reveal_strlit(" }, data: RefAny { id: ");
    assert(no_cr(" }, data: RefAny { id: "@));
    reveal_strlit(" } }");
    assert(no_cr(" } }"@));
}

/// An attribute ` name = "text"` holds no line break where the text holds none, and
/// it ends with its closing quote.
proof fn lemma_attribute_text(name: Seq<char>, t: Seq<char>)
    requires
        no_cr(name),
        no_line_break(t),
    ensures
        no_line_break(name + t + "\""@),
        !ends_cr(name + t + "\""@),
{
    reveal_strlit("\"");
    let q = "\""@;
    assert(q.len() == 1 && q[0] == '"');
    lemma_no_cr_no_line_break(name);
    lemma_no_cr_no_line_break(q);
    lemma_no_line_break_concat(name, t);
    lemma_no_line_break_concat(name + t, q);
}

/// The opening tag of a node whose label, ids and classes hold no line break holds
/// none either and ends with `>`; its closing tag holds no carriage return; and its text
/// content holds no line break.
pub proof fn lemma_node_texts_line_break_free(m: NodeDataModel, close_self: bool)
    requires
        node_line_break_free(m),
    ensures
        no_line_break(start_tag_text(m, close_self)),
        !ends_cr(start_tag_text(m, close_self)),
        no_cr(end_tag_text(m)),
        text_content(m.node_type) matches Some(c) ==> no_line_break(c),
{
    lemma_literals_no_cr();
    let e: Seq<char> = Seq::empty();
    assert(no_cr(e));
    lemma_no_cr_no_line_break(e);
    let t = tag_name(path_of(m.node_type));
    let ids = if m.ids_and_classes.len() > 0 {
        " id = \""@ + ids_text(m.ids_and_classes) + "\""@
    } else {
        e
    };
    lemma_attribute_text(" id = \""@, ids_text(m.ids_and_classes));
    let classes = if m.ids_and_classes.len() > 0 {
        " class = \""@ + classes_text(m.ids_and_classes) + "\""@
    } else {
        e
    };
    lemma_attribute_text(" class = \""@, classes_text(m.ids_and_classes));
    let tab = match m.tab_index {
        Some(x) => " tabindex=\""@ + decimal_text(html_tab_index(x) as int) + "\""@,
        None => e,
    };
    if let Some(x) = m.tab_index {
        lemma_decimal_no_cr(html_tab_index(x) as int);
        lemma_no_cr_concat(" tabindex=\""@, decimal_text(html_tab_index(x) as int));
        lemma_no_cr_concat(" tabindex=\""@ + decimal_text(html_tab_index(x) as int), "\""@);
    }
    lemma_no_cr_no_line_break(tab);
    let drag = if m.is_draggable {
        " draggable=\"true\""@
    } else {
        e
    };
    lemma_no_cr_no_line_break(drag);
    lemma_no_line_break_concat(ids, classes);
    lemma_no_line_break_concat(ids + classes, tab);
    lemma_no_line_break_concat(ids + classes + tab, drag);
    let attrs = attributes_text(m);
    assert(attrs == ids + classes + tab + drag);
    let closing = if close_self {
        " /"@
    } else {
        e
    };
    lemma_no_cr_no_line_break(closing);
    lemma_no_cr_no_line_break(">"@);
    lemma_no_cr_concat("<"@, t);
    lemma_no_cr_no_line_break("<"@ + t);
    lemma_no_line_break_concat("<"@ + t, attrs);
    lemma_no_line_break_concat("<"@ + t + attrs, closing);
    lemma_no_line_break_concat("<"@ + t + attrs + closing, ">"@);
    lemma_no_cr_concat("</"@, t);
    lemma_no_cr_concat("</"@ + t, ">"@);
    match m.node_type {
        NodeType::Image(id) => {
            lemma_decimal_no_cr(id.id as int);
            lemma_no_cr_concat("ImageId { id: "@, decimal_text(id.id as int));
            lemma_no_cr_concat("ImageId { id: "@ + decimal_text(id.id as int), " }"@);
            lemma_no_cr_concat("image("@, image_id_text(id));
            lemma_no_cr_concat("image("@ + image_id_text(id), ")"@);
            lemma_no_cr_no_line_break("image("@ + image_id_text(id) + ")"@);
        },
        NodeType::Text(id) => {
            lemma_decimal_no_cr(id.id as int);
            lemma_no_cr_concat("TextId { id: "@, decimal_text(id.id as int));
            lemma_no_cr_concat("TextId { id: "@ + decimal_text(id.id as int), " }"@);
            lemma_no_cr_concat("textid("@, text_id_text(id));
            lemma_no_cr_concat("textid("@ + text_id_text(id), ")"@);
            lemma_no_cr_no_line_break("textid("@ + text_id_text(id) + ")"@);
        },
        NodeType::IFrame(n) => {
            let a = "IFrameNode { callback: IFrameCallback { cb: "@;
            let b = " }, data: RefAny { id: "@;
            lemma_decimal_no_cr(n.callback.cb as int);
            lemma_decimal_no_cr(n.data.id as int);
            lemma_no_cr_concat(a, decimal_text(n.callback.cb as int));
            lemma_no_cr_concat(a + decimal_text(n.callback.cb as int), b);
            lemma_no_cr_concat(a + decimal_text(n.callback.cb as int) + b, decimal_text(n.data.id as int));
            lemma_no_cr_concat(a + decimal_text(n.callback.cb as int) + b + decimal_text(n.data.id as int), " } }"@);
            lemma_no_cr_concat("iframe("@, iframe_node_text(n));
            lemma_no_cr_concat("iframe("@ + iframe_node_text(n), ")"@);
            lemma_no_cr_no_line_break("iframe("@ + iframe_node_text(n) + ")"@);
        },
        _ => {},
    }
}

} // verus!
