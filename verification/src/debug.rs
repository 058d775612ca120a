use vstd::prelude::*;
use azul_css::props::property::CssProperty;
use crate::events::event_filter_text;
use crate::node_data::{IdOrClass, NodeData, NodeDataInlineCssProperty, NodeDataModel, NodeType};
use crate::resources::{CallbackData, image_id_text, iframe_node_text, text_id_text};
use crate::tab_index::TabIndex;
use crate::text::{
    decimal_string, decimal_text, lemma_decimal_digits_injective, lemma_decimal_digits_len, owned,
};

verus! {

/// The `Debug` text of a string slice: the text in double quotes, with quotes,
/// backslashes and control or unprintable characters escaped.
pub uninterp spec fn str_debug_text(s: Seq<char>) -> Seq<char>;

/// Calls `<str as Debug>::fmt` (through `format!("{:?}", ..)`), whose output depends
/// on the text alone. The escaping rules (which take the Unicode tables of the standard
/// library) are not written out.
#[verifier::external_body]
fn str_debug(s: &str) -> (r: String)
    ensures
        r@ == str_debug_text(s@),
{
    format!("{:?}", s)
}

/// Calls `<CssProperty as Debug>::fmt` (written by `derive(Debug)` in the styling crate).
/// Nothing is claimed of the text.
#[verifier::external_body]
fn css_property_debug(p: &CssProperty) -> String {
    format!("{:?}", p)
}

/// The formatter that `Debug` implementations write to.
#[verifier::external_type_specification]
#[verifier::external_body]
pub struct ExFormatter<'a>(core::fmt::Formatter<'a>);

/// The error a formatter reports when its output fails.
#[verifier::external_type_specification]
#[verifier::external_body]
pub struct ExFmtError(core::fmt::Error);

/// `Formatter::write_str` writes the text to the formatter's output. It returns an
/// error only where that output fails, so nothing is claimed of its result.
pub assume_specification<'a>[core::fmt::Formatter::<'a>::write_str](
    f: &mut core::fmt::Formatter<'a>,
    data: &str,
) -> core::fmt::Result;

/// The items of a list, separated by `, `.
pub open spec fn joined(items: Seq<Seq<char>>) -> Seq<char>
    decreases items.len(),
{
    if items.len() == 0 {
        Seq::empty()
    } else if items.len() == 1 {
        items[0]
    } else {
        joined(items.drop_last()) + ", "@ + items.last()
    }
}

/// The `Debug` text of a list: its items in square brackets, separated by `, `.
pub open spec fn list_text(items: Seq<Seq<char>>) -> Seq<char> {
    "["@ + joined(items) + "]"@
}

/// The `Debug` text of a node type.
pub open spec fn node_type_debug_text(t: NodeType) -> Seq<char> {
    match t {
        NodeType::Div => "Div"@,
        NodeType::Body => "Body"@,
        NodeType::Label(s) => "Label("@ + str_debug_text(s@) + ")"@,
        NodeType::Text(id) => "Text("@ + text_id_text(id) + ")"@,
        NodeType::Image(id) => "Image("@ + image_id_text(id) + ")"@,
        NodeType::IFrame(n) => "IFrame("@ + iframe_node_text(n) + ")"@,
    }
}

/// The `Debug` text of an id or class entry.
pub open spec fn entry_debug_text(e: IdOrClass) -> Seq<char> {
    match e {
        IdOrClass::Id(s) => "Id("@ + str_debug_text(s@) + ")"@,
        IdOrClass::Class(s) => "Class("@ + str_debug_text(s@) + ")"@,
    }
}

/// The debug text of a node type names its kind, so node types of different kinds have
/// different texts; and the text of an id entry differs from that of any class entry.
pub proof fn lemma_debug_texts_name_kinds(t: NodeType, u: NodeType, e: IdOrClass, f: IdOrClass)
    ensures
        node_type_debug_text(t) == node_type_debug_text(u) ==> ((t is Div <==> u is Div) && (
        t is Body <==> u is Body) && (t is Label <==> u is Label) && (t is Text <==> u is Text) && (
        t is Image <==> u is Image) && (t is IFrame <==> u is IFrame)),
        entry_debug_text(e) == entry_debug_text(f) ==> (e is Id <==> f is Id),
{
    reveal_strlit("Div");
    reveal_strlit("Body");
    reveal_strlit("Label(");
    reveal_strlit("Text(");
    reveal_strlit("Image(");
    reveal_strlit("IFrame(");
    reveal_strlit("Id(");
    reveal_strlit("Class(");
    let a = node_type_debug_text(t);
    let b = node_type_debug_text(u);
    assert(a.len() >= 2 && b.len() >= 2);
    if a == b {
        assert(a[0] == b[0] && a[1] == b[1]);
    }
    let x = entry_debug_text(e);
    let y = entry_debug_text(f);
    if x == y {
        assert(x[0] == y[0]);
    }
}

/// The `Debug` text of a callback entry.
pub open spec fn callback_debug_text(c: CallbackData) -> Seq<char> {
    "CallbackData { event: "@ + event_filter_text(c.event) + ", callback: Callback { cb: "@
        + decimal_text(c.callback.cb as int) + " }, data: RefAny { id: "@ + decimal_text(
        c.data.id as int,
    ) + " } }"@
}

/// The `Debug` text of an inline CSS entry, given the `Debug` text of its property.
pub open spec fn css_entry_debug_text(p: NodeDataInlineCssProperty, css: Seq<char>) -> Seq<char> {
    match p {
        NodeDataInlineCssProperty::Normal(_) => "Normal("@ + css + ")"@,
        NodeDataInlineCssProperty::Active(_) => "Active("@ + css + ")"@,
        NodeDataInlineCssProperty::Focus(_) => "Focus("@ + css + ")"@,
        NodeDataInlineCssProperty::Hover(_) => "Hover("@ + css + ")"@,
    }
}

/// The `Debug` text of a tab index.
pub open spec fn tab_index_debug_text(t: TabIndex) -> Seq<char> {
    match t {
        TabIndex::Auto => "Auto"@,
        TabIndex::OverrideInParent(x) => "OverrideInParent("@ + decimal_text(x as int) + ")"@,
        TabIndex::NoKeyboardFocus => "NoKeyboardFocus"@,
    }
}

/// The debug texts of tab indices name them: `Auto`, `NoKeyboardFocus`, and
/// `OverrideInParent(..)` around the decimal index; different tab indices have
/// different texts.
pub proof fn lemma_tab_index_debug_text(a: TabIndex, b: TabIndex)
    ensures
        tab_index_debug_text(TabIndex::Auto) == "Auto"@,
        tab_index_debug_text(TabIndex::NoKeyboardFocus) == "NoKeyboardFocus"@,
        a matches TabIndex::OverrideInParent(x) ==> tab_index_debug_text(a) == "OverrideInParent("@
            + decimal_text(x as int) + ")"@,
        (tab_index_debug_text(a) == tab_index_debug_text(b)) <==> a == b,
{
    reveal_strlit("Auto");
    reveal_strlit("NoKeyboardFocus");
    reveal_strlit("OverrideInParent(");
    reveal_strlit(")");
    let ta = tab_index_debug_text(a);
    let tb = tab_index_debug_text(b);
    if ta == tb {
        match (a, b) {
            (TabIndex::OverrideInParent(x), TabIndex::OverrideInParent(y)) => {
                let dx = decimal_text(x as int);
                let dy = decimal_text(y as int);
                assert(ta.subrange(17, ta.len() - 1) =~= dx);
                assert(tb.subrange(17, tb.len() - 1) =~= dy);
                lemma_decimal_digits_injective(x as nat, y as nat);
            },
            (TabIndex::OverrideInParent(x), _) => {
                lemma_decimal_digits_len(x as nat);
                assert(ta.len() >= 19);
            },
            (_, TabIndex::OverrideInParent(y)) => {
                lemma_decimal_digits_len(y as nat);
                assert(tb.len() >= 19);
            },
            _ => {
                assert(ta.len() == tb.len());
            },
        }
    }
}

/// The ids and classes of a node in its debug description: none if it has none.
pub open spec fn ids_part_text(e: Seq<IdOrClass>) -> Seq<char> {
    if e.len() > 0 {
        "\tids_and_classes: "@ + list_text(Seq::new(e.len(), |i: int| entry_debug_text(e[i])))
    } else {
        Seq::empty()
    }
}

/// The callbacks of a node in its debug description: none if it has none.
pub open spec fn callbacks_part_text(c: Seq<CallbackData>) -> Seq<char> {
    if c.len() > 0 {
        "\tcallbacks: "@ + list_text(Seq::new(c.len(), |i: int| callback_debug_text(c[i])))
    } else {
        Seq::empty()
    }
}

/// The inline CSS of a node in its debug description, given the `Debug` texts of its
/// properties: none if it has none.
pub open spec fn css_part_text(p: Seq<NodeDataInlineCssProperty>, css: Seq<Seq<char>>) -> Seq<char> {
    if p.len() > 0 {
        "\tinline_css_props: "@ + list_text(
            Seq::new(p.len(), |i: int| css_entry_debug_text(p[i], css[i])),
        )
    } else {
        Seq::empty()
    }
}

/// The debug description of a node, given the `Debug` texts of its CSS properties:
/// `NodeData {`, its node type, then, each only where present, its ids and classes, its
/// callbacks, its inline CSS, its draggability and its tab index, each after a tab,
/// and `}`.
pub open spec fn node_debug_text(m: NodeDataModel, css: Seq<Seq<char>>) -> Seq<char> {
    "NodeData {"@ + "\tnode_type: "@ + node_type_debug_text(m.node_type) + ids_part_text(
        m.ids_and_classes,
    ) + callbacks_part_text(m.callbacks) + css_part_text(m.inline_css_props, css) + (
    if m.is_draggable {
        "\tis_draggable: true"@
    } else {
        Seq::empty()
    }) + (match m.tab_index {
        Some(t) => "\ttab_index: "@ + tab_index_debug_text(t),
        None => Seq::empty(),
    }) + "}"@
}

/// `t` is the debug description of a node, for some `Debug` texts of its CSS properties.
pub open spec fn is_node_debug_text(m: NodeDataModel, t: Seq<char>) -> bool {
    exists|css: Seq<Seq<char>>|
        #![trigger node_debug_text(m, css)]
        css.len() == m.inline_css_props.len() && t == node_debug_text(m, css)
}

proof fn lemma_joined_push(items: Seq<Seq<char>>, i: int)
    requires
        0 <= i < items.len(),
    ensures
        joined(items.take(i + 1)) == joined(items.take(i)) + (if i > 0 {
            ", "@
        } else {
            Seq::empty()
        }) + items[i],
{
    let t = items.take(i + 1);
    assert(t.drop_last() =~= items.take(i));
    if i == 0 {
        assert(joined(items.take(0)) =~= Seq::<char>::empty());
        assert(joined(t) == t[0]);
        assert(Seq::<char>::empty() + Seq::<char>::empty() + items[0] =~= items[0]);
    }
}

/// Appends one item of a list: the separator `, ` unless it is the first, then the item.
fn append_item(s: &mut String, i: usize, item: &str)
    ensures
        final(s)@ == old(s)@ + (if i > 0 {
            ", "@
        } else {
            Seq::empty()
        }) + item@,
{
    if i > 0 {
        s.append(", ");
    } else {
        proof {
            assert(old(s)@ + Seq::<char>::empty() =~= old(s)@);
        }
    }
    s.append(item);
}

fn wrap(prefix: &str, inner: &str) -> (r: String)
    ensures
        r@ == prefix@ + inner@ + ")"@,
{
    let mut s = owned(prefix);
    s.append(inner);
    s.append(")");
    s
}

impl NodeType {
    /// The `Debug` text of this node type.
    pub fn debug_string(&self) -> (r: String)
        ensures
            r@ == node_type_debug_text(*self),
    {
        match self {
            NodeType::Div => owned("Div"),
            NodeType::Body => owned("Body"),
            NodeType::Label(s) => {
                let t = str_debug(s.as_str());
                wrap("Label(", t.as_str())
            },
            NodeType::Text(id) => {
                let t = id.debug_text();
                wrap("Text(", t.as_str())
            },
            NodeType::Image(id) => {
                let t = id.debug_text();
                wrap("Image(", t.as_str())
            },
            NodeType::IFrame(n) => {
                let t = n.debug_text();
                wrap("IFrame(", t.as_str())
            },
        }
    }
}

impl IdOrClass {
    /// The `Debug` text of this entry.
    pub fn debug_string(&self) -> (r: String)
        ensures
            r@ == entry_debug_text(*self),
    {
        match self {
            IdOrClass::Id(s) => {
                let t = str_debug(s.as_str());
                wrap("Id(", t.as_str())
            },
            IdOrClass::Class(s) => {
                let t = str_debug(s.as_str());
                wrap("Class(", t.as_str())
            },
        }
    }
}

impl TabIndex {
    /// The `Debug` text of this tab index.
    pub fn debug_string(&self) -> (r: String)
        ensures
            r@ == tab_index_debug_text(*self),
    {
        match self {
            TabIndex::Auto => owned("Auto"),
            TabIndex::OverrideInParent(x) => {
                let t = decimal_string(*x as i128);
                wrap("OverrideInParent(", t.as_str())
            },
            TabIndex::NoKeyboardFocus => owned("NoKeyboardFocus"),
        }
    }
}

/// The `Debug` text of a callback entry.
pub fn callback_debug_string(c: &CallbackData) -> (r: String)
    ensures
        r@ == callback_debug_text(*c),
{
    let mut s = owned("CallbackData { event: ");
    let e = c.event.debug_text();
    s.append(e.as_str());
    s.append(", callback: Callback { cb: ");
    let cb = decimal_string(c.callback.cb as i128);
    s.append(cb.as_str());
    s.append(" }, data: RefAny { id: ");
    let id = decimal_string(c.data.id as i128);
    s.append(id.as_str());
    s.append(" } }");
    s
}

fn ids_part(ids: &Vec<IdOrClass>) -> (r: String)
    ensures
        r@ == ids_part_text(ids@),
{
    proof {
        reveal_strlit("\tids_and_classes: [");
        reveal_strlit("\tids_and_classes: ");
        reveal_strlit("[");
        reveal_strlit("");
    }
    if ids.len() == 0 {
        return owned("");
    }
    let mut s = owned("\tids_and_classes: [");
    let ghost items = Seq::new(ids@.len(), |i: int| entry_debug_text(ids@[i]));
    let ghost before = s@;
    let mut i: usize = 0;
    while i < ids.len()
        invariant
            items == Seq::new(ids@.len(), |i: int| entry_debug_text(ids@[i])),
            i <= ids@.len(),
            s@ == before + joined(items.take(i as int)),
        decreases ids@.len() - i,
    {
        let item = ids[i].debug_string();
        proof {
            lemma_joined_push(items, i as int);
        }
        append_item(&mut s, i, item.as_str());
        i = i + 1;
    }
    assert(items.take(ids@.len() as int) =~= items);
    s.append("]");
    assert(s@ =~= ids_part_text(ids@));
    s
}

fn callbacks_part(callbacks: &Vec<CallbackData>) -> (r: String)
    ensures
        r@ == callbacks_part_text(callbacks@),
{
    proof {
        reveal_strlit("\tcallbacks: [");
        reveal_strlit("\tcallbacks: ");
        reveal_strlit("[");
        reveal_strlit("");
    }
    if callbacks.len() == 0 {
        return owned("");
    }
    let mut s = owned("\tcallbacks: [");
    let ghost items = Seq::new(callbacks@.len(), |i: int| callback_debug_text(callbacks@[i]));
    let ghost before = s@;
    let mut i: usize = 0;
    while i < callbacks.len()
        invariant
            items == Seq::new(callbacks@.len(), |i: int| callback_debug_text(callbacks@[i])),
            i <= callbacks@.len(),
            s@ == before + joined(items.take(i as int)),
        decreases callbacks@.len() - i,
    {
        let item = callback_debug_string(&callbacks[i]);
        proof {
            lemma_joined_push(items, i as int);
        }
        append_item(&mut s, i, item.as_str());
        i = i + 1;
    }
    assert(items.take(callbacks@.len() as int) =~= items);
    s.append("]");
    assert(s@ =~= callbacks_part_text(callbacks@));
    s
}

fn css_part(props: &Vec<NodeDataInlineCssProperty>) -> (r: (String, Ghost<Seq<Seq<char>>>))
    ensures
        r.1@.len() == props@.len(),
        r.0@ == css_part_text(props@, r.1@),
{
    proof {
        reveal_strlit("\tinline_css_props: [");
        reveal_strlit("\tinline_css_props: ");
        reveal_strlit("[");
        reveal_strlit("");
    }
    if props.len() == 0 {
        return (owned(""), Ghost(Seq::empty()));
    }
    let ghost p = props@;
    let mut s = owned("\tinline_css_props: [");
    let ghost before = s@;
    let ghost mut css: Seq<Seq<char>> = Seq::empty();
    let mut i: usize = 0;
    while i < props.len()
        invariant
            p == props@,
            i <= p.len(),
            css.len() == i,
            s@ == before + joined(Seq::new(i as nat, |j: int| css_entry_debug_text(p[j], css[j]))),
        decreases p.len() - i,
    {
        let (prefix, prop) = match &props[i] {
            NodeDataInlineCssProperty::Normal(x) => ("Normal(", x),
            NodeDataInlineCssProperty::Active(x) => ("Active(", x),
            NodeDataInlineCssProperty::Focus(x) => ("Focus(", x),
            NodeDataInlineCssProperty::Hover(x) => ("Hover(", x),
        };
        let text = css_property_debug(prop);
        let item = wrap(prefix, text.as_str());
        let ghost old_css = css;
        proof {
            css = css.push(text@);
            let items = Seq::new((i + 1) as nat, |j: int| css_entry_debug_text(p[j], css[j]));
            lemma_joined_push(items, i as int);
            assert(items.take(i as int) =~= Seq::new(i as nat, |j: int| css_entry_debug_text(p[j], old_css[j])));
            assert(items.take(i + 1) =~= items);
            assert(items[i as int] == item@);
        }
        append_item(&mut s, i, item.as_str());
        i = i + 1;
    }
    s.append("]");
    assert(s@ =~= css_part_text(p, css));
    (s, Ghost(css))
}

impl NodeData {
    /// A debug description of this node: its type, then, each only where present, its
    /// ids and classes, callbacks, inline CSS, draggability and tab index.
    pub fn debug_string(&self) -> (r: String)
        ensures
            is_node_debug_text(self@, r@),
    {
        let ghost m = self@;
        let mut s = owned("NodeData {");
        s.append("\tnode_type: ");
        let t = self.get_node_type().debug_string();
        s.append(t.as_str());
        let ids = ids_part(self.get_ids_and_classes());
        s.append(ids.as_str());
        let callbacks = callbacks_part(self.get_callbacks());
        s.append(callbacks.as_str());
        let (css_text, Ghost(css)) = css_part(self.get_inline_css_props());
        s.append(css_text.as_str());
        let ghost before_tail = s@;
        if self.get_is_draggable() {
            s.append("\tis_draggable: true");
        }
        if let Some(t) = self.get_tab_index() {
            s.append("\ttab_index: ");
            let tt = t.debug_string();
            s.append(tt.as_str());
        }
        s.append("}");
        proof {
            reveal_strlit("");
            assert(s@ =~= node_debug_text(m, css));
        }
        s
    }
}

/// `{:?}` writes the debug description of the node.
impl core::fmt::Debug for NodeData {
    fn fmt(&self, f: &mut core::fmt::Formatter<'_>) -> core::fmt::Result {
        let s = self.debug_string();
        f.write_str(s.as_str())
    }
}

} // verus!
