use vstd::prelude::*;
use azul_css::props::property::CssProperty;
use crate::events::EventFilter;
use crate::id_tree::{Node, NodeDataContainer, NodeHierarchy, NodeId};
use crate::node_data::{
    appended_class, appended_id, IdOrClass, NodeData, NodeDataInlineCssProperty, NodeDataModel, NodeType, end_tag_text,
    fresh_node, lemma_node_texts_line_break_free, node_line_break_free, start_tag_text, text_content,
};
use crate::resources::{
    Callback, CallbackData, CallbackType, IFrameCallback, IFrameCallbackType, IFrameNode, ImageId,
    ImageMask, RefAny, TextId,
};
use crate::tab_index::TabIndex;
use crate::debug::is_node_debug_text;
use crate::text::{
    decimal_string, decimal_text,
    indent_lines, lemma_indent_concat, lemma_indent_line_break, lemma_indent_no_line_break,
    lemma_no_cr_concat, lemma_no_cr_no_line_break, lemma_no_line_break_concat, no_cr,
    no_line_break, owned,
};
use vstd::string::StrSliceExecFns;

verus! {

/// The document model, similar to HTML: a root node and its child trees.
/// This is a create-only structure.
#[derive(PartialEq, Eq, Hash, PartialOrd, Ord)]
pub struct Dom {
    pub root: NodeData,
    pub children: Vec<Dom>,
    // Tracks the number of sub-children of the current children, so that
    // the `Dom` can be converted into a `CompactDom`
    estimated_total_children: usize,
}

impl Dom {
    /// The root node of this tree.
    pub closed spec fn root_node(&self) -> NodeData {
        self.root
    }

    /// The child trees of this tree, in order.
    pub closed spec fn child_trees(&self) -> Seq<Dom> {
        self.children@
    }

    /// The recorded number of descendants of this tree.
    pub closed spec fn estimate(&self) -> usize {
        self.estimated_total_children
    }

    /// The recorded number of descendants of every subtree is its true number.
    pub open spec fn well_formed(&self) -> bool
        decreases *self, 0nat,
    {
        &&& self.estimate() + 1 == node_count(*self)
        &&& forest_wf(self.child_trees(), self.child_trees().len())
    }
}

/// The first `k` trees of `s` are well formed.
pub open spec fn forest_wf(s: Seq<Dom>, k: nat) -> bool
    decreases s, k,
{
    if k == 0 || k > s.len() {
        true
    } else {
        forest_wf(s, (k - 1) as nat) && s[k - 1].well_formed()
    }
}

/// The number of nodes in a tree.
pub open spec fn node_count(d: Dom) -> nat
    decreases d, 0nat,
{
    1 + forest_count(d.child_trees(), d.child_trees().len())
}

/// The number of nodes in the first `k` trees of `s`.
pub open spec fn forest_count(s: Seq<Dom>, k: nat) -> nat
    decreases s, k,
{
    if k == 0 || k > s.len() {
        0
    } else {
        forest_count(s, (k - 1) as nat) + node_count(s[k - 1])
    }
}

/// The recorded number of nodes in the first `k` trees of `s`: each tree counts
/// its root and its recorded number of descendants.
pub open spec fn forest_estimate(s: Seq<Dom>, k: nat) -> nat
    decreases k,
{
    if k == 0 || k > s.len() {
        0
    } else {
        forest_estimate(s, (k - 1) as nat) + s[k - 1].estimate() as nat + 1
    }
}

proof fn lemma_forest_prefix(s: Seq<Dom>, t: Seq<Dom>, k: nat)
    requires
        k <= s.len(),
        k <= t.len(),
        forall|i: int| 0 <= i < k ==> s[i] == t[i],
    ensures
        forest_count(s, k) == forest_count(t, k),
        forest_wf(s, k) == forest_wf(t, k),
        forest_estimate(s, k) == forest_estimate(t, k),
    decreases k,
{
    if k > 0 {
        lemma_forest_prefix(s, t, (k - 1) as nat);
    }
}

proof fn lemma_forest_wf_estimate(s: Seq<Dom>, k: nat)
    requires
        k <= s.len(),
        forest_wf(s, k),
    ensures
        forest_estimate(s, k) == forest_count(s, k),
    decreases k,
{
    if k > 0 {
        lemma_forest_wf_estimate(s, (k - 1) as nat);
        assert(s[k - 1].well_formed());
        assert(s[k - 1].estimate() + 1 == node_count(s[k - 1]));
    }
}

proof fn lemma_forest_wf_element(s: Seq<Dom>, k: nat, i: int)
    requires
        k <= s.len(),
        forest_wf(s, k),
        0 <= i < k,
    ensures
        s[i].well_formed(),
    decreases k,
{
    if i < k - 1 {
        lemma_forest_wf_element(s, (k - 1) as nat, i);
    }
}

/// A tree whose root is a fresh node of the given type, with no children.
pub open spec fn leaf_dom(d: Dom, node_type: NodeType) -> bool {
    &&& d.root_node()@ == fresh_node(node_type)
    &&& d.child_trees().len() == 0
    &&& d.well_formed()
}

impl Dom {
    /// Creates an empty DOM with a given `NodeType`.
    pub fn new(node_type: NodeType) -> (r: Self)
        ensures
            r.root_node()@ == fresh_node(node_type),
            r.child_trees().len() == 0,
            r.estimate() == 0,
            r.well_formed(),
    {
        let r = Dom { root: NodeData::new(node_type), children: Vec::new(), estimated_total_children: 0 };
        proof {
            reveal_with_fuel(node_count, 2);
            reveal_with_fuel(forest_wf, 2);
        }
        r
    }

    /// Creates an empty DOM with space reserved for `cap` nodes
    pub fn with_capacity(node_type: NodeType, cap: usize) -> (r: Self)
        ensures
            r.root_node()@ == fresh_node(node_type),
            r.child_trees().len() == 0,
            r.estimate() == 0,
            r.well_formed(),
    {
        let r = Dom {
            root: NodeData::new(node_type),
            children: Vec::with_capacity(cap),
            estimated_total_children: 0,
        };
        proof {
            reveal_with_fuel(node_count, 2);
            reveal_with_fuel(forest_wf, 2);
        }
        r
    }

    /// Adds a child DOM to the current DOM
    pub fn add_child(&mut self, child: Self)
        requires
            old(self).estimate() + child.estimate() + 1 <= usize::MAX,
        ensures
            final(self).root_node() == old(self).root_node(),
            final(self).child_trees() == old(self).child_trees().push(child),
            final(self).estimate() == old(self).estimate() + child.estimate() + 1,
            old(self).well_formed() && child.well_formed() ==> final(self).well_formed(),
            node_count(*final(self)) == node_count(*old(self)) + node_count(child),
            old(self).estimate() + 1 == node_count(*old(self)) && child.estimate() + 1 == node_count(
                child,
            ) ==> final(self).estimate() + 1 == node_count(*final(self)),
    {
        let ghost old_children = self.children@;
        self.estimated_total_children = self.estimated_total_children + child.estimated_total_children;
        self.estimated_total_children = self.estimated_total_children + 1;
        self.children.push(child);
        proof {
            let n = old_children.len();
            lemma_forest_prefix(self.children@, old_children, n);
            assert(self.children@[n as int] == child);
        }
    }
}


/// Where the recorded numbers of descendants of a parent and of a child are exact, the
/// bound that adding the child asks for holds exactly when the parent's true number of
/// descendants after the addition fits in a `usize`: it leaves out only the additions
/// after which no recorded number could be exact.
pub proof fn lemma_add_child_bound(parent: Dom, child: Dom)
    requires
        parent.estimate() + 1 == node_count(parent),
        child.estimate() + 1 == node_count(child),
    ensures
        (parent.estimate() + child.estimate() + 1 <= usize::MAX) <==> (node_count(parent) + node_count(
            child,
        ) - 1 <= usize::MAX),
{
}

/// `a` and `b` have the same children and the same recorded number of descendants.
pub open spec fn same_shape(a: Dom, b: Dom) -> bool {
    &&& a.child_trees() == b.child_trees()
    &&& a.estimate() == b.estimate()
}

/// Trees of the same shape agree on their children, their recorded and true
/// sizes, and on being well formed.
pub proof fn lemma_same_shape(a: Dom, b: Dom)
    requires
        same_shape(a, b),
    ensures
        a.child_trees() == b.child_trees(),
        a.estimate() == b.estimate(),
        a.well_formed() == b.well_formed(),
        node_count(a) == node_count(b),
{
}

impl Dom {
    pub fn div() -> (r: Self)
        ensures
            leaf_dom(r, NodeType::Div),
    {
        Self::new(NodeType::Div)
    }

    pub fn body() -> (r: Self)
        ensures
            leaf_dom(r, NodeType::Body),
    {
        Self::new(NodeType::Body)
    }

    pub fn label(value: &str) -> (r: Self)
        ensures
            r.root_node()@ == (NodeDataModel {
                node_type: r.root_node()@.node_type,
                ..fresh_node(NodeType::Div)
            }),
            r.root_node()@.node_type matches NodeType::Label(s) && s@ == value@,
            r.child_trees().len() == 0,
            r.well_formed(),
    {
        Self::new(NodeType::Label(owned(value)))
    }

    pub fn text(text_id: TextId) -> (r: Self)
        ensures
            leaf_dom(r, NodeType::Text(text_id)),
    {
        Self::new(NodeType::Text(text_id))
    }

    pub fn image(image: ImageId) -> (r: Self)
        ensures
            leaf_dom(r, NodeType::Image(image)),
    {
        Self::new(NodeType::Image(image))
    }

    pub fn iframe(data: RefAny, callback: IFrameCallbackType) -> (r: Self)
        ensures
            leaf_dom(r, NodeType::IFrame(IFrameNode { callback: IFrameCallback { cb: callback }, data })),
    {
        Self::new(NodeType::IFrame(IFrameNode { callback: IFrameCallback { cb: callback }, data }))
    }

    /// Adds a child DOM to this DOM and returns it.
    pub fn with_child(self, child: Self) -> (r: Self)
        requires
            self.estimate() + child.estimate() + 1 <= usize::MAX,
        ensures
            r.root_node() == self.root_node(),
            r.child_trees() == self.child_trees().push(child),
            r.estimate() == self.estimate() + child.estimate() + 1,
            self.well_formed() && child.well_formed() ==> r.well_formed(),
            node_count(r) == node_count(self) + node_count(child),
            self.estimate() + 1 == node_count(self) && child.estimate() + 1 == node_count(child)
                ==> r.estimate() + 1 == node_count(r),
    {
        let mut s = self;
        s.add_child(child);
        s
    }

    pub fn set_dataset(&mut self, data: RefAny)
        ensures
            final(self).root_node()@ == (NodeDataModel { dataset: Some(data), ..old(self).root_node()@ }),
            same_shape(*final(self), *old(self)),
    {
        self.root.set_dataset(Some(data));
    }

    pub fn add_id(&mut self, id: &str)
        ensures
            appended_id(old(self).root_node()@, final(self).root_node()@, id@),
            same_shape(*final(self), *old(self)),
    {
        self.root.add_id(id);
    }

    pub fn add_class(&mut self, class: &str)
        ensures
            appended_class(old(self).root_node()@, final(self).root_node()@, class@),
            same_shape(*final(self), *old(self)),
    {
        self.root.add_class(class);
    }

    pub fn set_ids_and_classes(&mut self, ids: Vec<IdOrClass>)
        ensures
            final(self).root_node()@ == (NodeDataModel { ids_and_classes: ids@, ..old(self).root_node()@ }),
            same_shape(*final(self), *old(self)),
    {
        self.root.set_ids_and_classes(ids);
    }

    pub fn add_callback(&mut self, on: EventFilter, callback: CallbackType, data: RefAny)
        ensures
            final(self).root_node()@ == (NodeDataModel {
                callbacks: old(self).root_node()@.callbacks.push(
                    CallbackData { event: on, callback: Callback { cb: callback }, data },
                ),
                ..old(self).root_node()@
            }),
            same_shape(*final(self), *old(self)),
    {
        self.root.add_callback(on, callback, data);
    }

    pub fn set_inline_css_props(&mut self, properties: Vec<NodeDataInlineCssProperty>)
        ensures
            final(self).root_node()@ == (NodeDataModel { inline_css_props: properties@, ..old(self).root_node()@ }),
            same_shape(*final(self), *old(self)),
    {
        self.root.set_inline_css_props(properties);
    }

    pub fn add_inline_css(&mut self, property: CssProperty)
        ensures
            final(self).root_node()@ == (NodeDataModel {
                inline_css_props: old(self).root_node()@.inline_css_props.push(
                    NodeDataInlineCssProperty::Normal(property),
                ),
                ..old(self).root_node()@
            }),
            same_shape(*final(self), *old(self)),
    {
        self.root.add_inline_css(property);
    }

    pub fn add_inline_hover_css(&mut self, property: CssProperty)
        ensures
            final(self).root_node()@ == (NodeDataModel {
                inline_css_props: old(self).root_node()@.inline_css_props.push(
                    NodeDataInlineCssProperty::Hover(property),
                ),
                ..old(self).root_node()@
            }),
            same_shape(*final(self), *old(self)),
    {
        self.root.add_inline_hover_css(property);
    }

    pub fn add_inline_active_css(&mut self, property: CssProperty)
        ensures
            final(self).root_node()@ == (NodeDataModel {
                inline_css_props: old(self).root_node()@.inline_css_props.push(
                    NodeDataInlineCssProperty::Active(property),
                ),
                ..old(self).root_node()@
            }),
            same_shape(*final(self), *old(self)),
    {
        self.root.add_inline_active_css(property);
    }

    pub fn add_inline_focus_css(&mut self, property: CssProperty)
        ensures
            final(self).root_node()@ == (NodeDataModel {
                inline_css_props: old(self).root_node()@.inline_css_props.push(
                    NodeDataInlineCssProperty::Focus(property),
                ),
                ..old(self).root_node()@
            }),
            same_shape(*final(self), *old(self)),
    {
        self.root.add_inline_focus_css(property);
    }

    pub fn set_clip_mask(&mut self, clip_mask: Option<ImageMask>)
        ensures
            final(self).root_node()@ == (NodeDataModel { clip_mask, ..old(self).root_node()@ }),
            same_shape(*final(self), *old(self)),
    {
        self.root.set_clip_mask(clip_mask);
    }

    pub fn set_tab_index(&mut self, tab_index: Option<TabIndex>)
        ensures
            final(self).root_node()@ == (NodeDataModel { tab_index, ..old(self).root_node()@ }),
            same_shape(*final(self), *old(self)),
    {
        self.root.set_tab_index(tab_index);
    }

    pub fn set_is_draggable(&mut self, draggable: bool)
        ensures
            final(self).root_node()@ == (NodeDataModel { is_draggable: draggable, ..old(self).root_node()@ }),
            same_shape(*final(self), *old(self)),
    {
        self.root.set_is_draggable(draggable);
    }

    pub fn with_dataset(self, data: RefAny) -> (r: Self)
        ensures
            r.root_node()@ == (NodeDataModel { dataset: Some(data), ..self.root_node()@ }),
            same_shape(r, self),
    {
        let mut s = self;
        s.set_dataset(data);
        s
    }

    pub fn with_id(self, id: &str) -> (r: Self)
        ensures
            appended_id(self.root_node()@, r.root_node()@, id@),
            same_shape(r, self),
    {
        let mut s = self;
        s.add_id(id);
        s
    }

    pub fn with_class(self, class: &str) -> (r: Self)
        ensures
            appended_class(self.root_node()@, r.root_node()@, class@),
            same_shape(r, self),
    {
        let mut s = self;
        s.add_class(class);
        s
    }

    pub fn with_callback(self, on: EventFilter, callback: CallbackType, data: RefAny) -> (r: Self)
        ensures
            r.root_node()@ == (NodeDataModel {
                callbacks: self.root_node()@.callbacks.push(
                    CallbackData { event: on, callback: Callback { cb: callback }, data },
                ),
                ..self.root_node()@
            }),
            same_shape(r, self),
    {
        let mut s = self;
        s.add_callback(on, callback, data);
        s
    }

    pub fn with_inline_css_props(self, properties: Vec<NodeDataInlineCssProperty>) -> (r: Self)
        ensures
            r.root_node()@ == (NodeDataModel { inline_css_props: properties@, ..self.root_node()@ }),
            same_shape(r, self),
    {
        let mut s = self;
        s.set_inline_css_props(properties);
        s
    }

    pub fn with_inline_css(self, property: CssProperty) -> (r: Self)
        ensures
            r.root_node()@ == (NodeDataModel {
                inline_css_props: self.root_node()@.inline_css_props.push(
                    NodeDataInlineCssProperty::Normal(property),
                ),
                ..self.root_node()@
            }),
            same_shape(r, self),
    {
        let mut s = self;
        s.add_inline_css(property);
        s
    }

    pub fn with_inline_hover_css(self, property: CssProperty) -> (r: Self)
        ensures
            r.root_node()@ == (NodeDataModel {
                inline_css_props: self.root_node()@.inline_css_props.push(
                    NodeDataInlineCssProperty::Hover(property),
                ),
                ..self.root_node()@
            }),
            same_shape(r, self),
    {
        let mut s = self;
        s.add_inline_hover_css(property);
        s
    }

    pub fn with_inline_active_css(self, property: CssProperty) -> (r: Self)
        ensures
            r.root_node()@ == (NodeDataModel {
                inline_css_props: self.root_node()@.inline_css_props.push(
                    NodeDataInlineCssProperty::Active(property),
                ),
                ..self.root_node()@
            }),
            same_shape(r, self),
    {
        let mut s = self;
        s.add_inline_active_css(property);
        s
    }

    pub fn with_inline_focus_css(self, property: CssProperty) -> (r: Self)
        ensures
            r.root_node()@ == (NodeDataModel {
                inline_css_props: self.root_node()@.inline_css_props.push(
                    NodeDataInlineCssProperty::Focus(property),
                ),
                ..self.root_node()@
            }),
            same_shape(r, self),
    {
        let mut s = self;
        s.add_inline_focus_css(property);
        s
    }

    pub fn with_clip_mask(self, clip_mask: Option<ImageMask>) -> (r: Self)
        ensures
            r.root_node()@ == (NodeDataModel { clip_mask, ..self.root_node()@ }),
            same_shape(r, self),
    {
        let mut s = self;
        s.set_clip_mask(clip_mask);
        s
    }

    pub fn with_tab_index(self, tab_index: Option<TabIndex>) -> (r: Self)
        ensures
            r.root_node()@ == (NodeDataModel { tab_index, ..self.root_node()@ }),
            same_shape(r, self),
    {
        let mut s = self;
        s.set_tab_index(tab_index);
        s
    }

    pub fn is_draggable(self, draggable: bool) -> (r: Self)
        ensures
            r.root_node()@ == (NodeDataModel { is_draggable: draggable, ..self.root_node()@ }),
            same_shape(r, self),
    {
        let mut s = self;
        s.set_is_draggable(draggable);
        s
    }
}


/// The arena position of the `n`-th node.
pub open spec fn node_id(n: nat) -> NodeId {
    NodeId { index: n as usize }
}

/// The arena links of the nodes of tree `d`, in pre-order, when its root stands at
/// position `pos` and has the given parent and siblings. The first child of a node
/// directly follows it; its `last_child` link is the last node of its subtree.
pub open spec fn subtree_nodes(
    d: Dom,
    pos: nat,
    parent: Option<NodeId>,
    prev: Option<NodeId>,
    next: Option<NodeId>,
) -> Seq<Node>
    decreases d, 0nat,
{
    seq![
        Node {
            parent,
            previous_sibling: prev,
            next_sibling: next,
            first_child: if d.child_trees().len() == 0 {
                None
            } else {
                Some(node_id(pos + 1))
            },
            last_child: if d.child_trees().len() == 0 {
                None
            } else {
                Some(node_id((pos + node_count(d) - 1) as nat))
            },
        },
    ] + forest_nodes(d.child_trees(), d.child_trees().len(), pos + 1, node_id(pos))
}

/// The arena links of the nodes of the first `k` trees of `s`, siblings under `parent`,
/// laid out one after another from position `start`.
pub open spec fn forest_nodes(s: Seq<Dom>, k: nat, start: nat, parent: NodeId) -> Seq<Node>
    decreases s, k,
{
    if k == 0 || k > s.len() {
        Seq::empty()
    } else {
        let i = (k - 1) as nat;
        forest_nodes(s, i, start, parent) + subtree_nodes(
            s[i as int],
            start + forest_count(s, i),
            Some(parent),
            if i == 0 {
                None
            } else {
                Some(node_id(start + forest_count(s, (i - 1) as nat)))
            },
            if k < s.len() {
                Some(node_id(start + forest_count(s, k)))
            } else {
                None
            },
        )
    }
}

/// The nodes of tree `d` in pre-order.
pub open spec fn subtree_data(d: Dom) -> Seq<NodeData>
    decreases d, 0nat,
{
    seq![d.root_node()] + forest_data(d.child_trees(), d.child_trees().len())
}

/// The nodes of the first `k` trees of `s`, each tree in pre-order.
pub open spec fn forest_data(s: Seq<Dom>, k: nat) -> Seq<NodeData>
    decreases s, k,
{
    if k == 0 || k > s.len() {
        Seq::empty()
    } else {
        forest_data(s, (k - 1) as nat) + subtree_data(s[k - 1])
    }
}

proof fn lemma_forest_count_mono(s: Seq<Dom>, i: nat, j: nat)
    requires
        i <= j <= s.len(),
    ensures
        forest_count(s, i) <= forest_count(s, j),
    decreases j,
{
    if i < j {
        lemma_forest_count_mono(s, i, (j - 1) as nat);
    }
}

proof fn lemma_subtree_nodes_len(d: Dom, pos: nat, parent: Option<NodeId>, prev: Option<NodeId>, next: Option<NodeId>)
    ensures
        subtree_nodes(d, pos, parent, prev, next).len() == node_count(d),
    decreases d, 0nat,
{
    lemma_forest_nodes_len(d.children@, d.children@.len(), pos + 1, node_id(pos));
}

proof fn lemma_forest_nodes_len(s: Seq<Dom>, k: nat, start: nat, parent: NodeId)
    ensures
        forest_nodes(s, k, start, parent).len() == forest_count(s, k),
    decreases s, k,
{
    if k == 0 || k > s.len() {
    } else {
        let i = (k - 1) as nat;
        lemma_forest_nodes_len(s, i, start, parent);
        lemma_subtree_nodes_len(
            s[i as int],
            start + forest_count(s, i),
            Some(parent),
            if i == 0 {
                None
            } else {
                Some(node_id(start + forest_count(s, (i - 1) as nat)))
            },
            if k < s.len() {
                Some(node_id(start + forest_count(s, k)))
            } else {
                None
            },
        );
    }
}

/// Same as `Dom`, but arena-based for more efficient memory layout
#[derive(Debug, PartialEq, PartialOrd, Clone, Eq)]
pub struct CompactDom {
    pub node_hierarchy: NodeHierarchy,
    pub node_data: NodeDataContainer<NodeData>,
    pub root: NodeId,
}

impl CompactDom {
    /// Returns the number of nodes in this DOM
    pub fn len(&self) -> (r: usize)
        ensures
            r == self.node_hierarchy.internal@.len(),
    {
        self.node_hierarchy.internal.len()
    }
}

/// Appends the nodes of `dom` in pre-order to the arena, the root of `dom` linked
/// to the given parent and siblings.
fn convert_dom_into_compact_dom_internal(
    dom: Dom,
    node_hierarchy: &mut Vec<Node>,
    node_data: &mut Vec<NodeData>,
    parent: Option<NodeId>,
    previous_sibling: Option<NodeId>,
    next_sibling: Option<NodeId>,
)
    requires
        dom.well_formed(),
        old(node_hierarchy)@.len() + node_count(dom) <= usize::MAX,
    ensures
        final(node_hierarchy)@ == old(node_hierarchy)@ + subtree_nodes(
            dom,
            old(node_hierarchy)@.len(),
            parent,
            previous_sibling,
            next_sibling,
        ),
        final(node_data)@ == old(node_data)@ + subtree_data(dom),
    decreases dom,
{
    let ghost d = dom;
    let ghost h0 = node_hierarchy@;
    let ghost d0 = node_data@;
    let pos = node_hierarchy.len();
    let Dom { root, children, estimated_total_children } = dom;
    let ghost s = children@;
    let n = children.len();
    proof {
        lemma_forest_count_mono(s, 0, n as nat);
    }
    let node = Node {
        parent,
        previous_sibling,
        next_sibling,
        first_child: if n == 0 {
            None
        } else {
            Some(NodeId::new(pos + 1))
        },
        last_child: if n == 0 {
            None
        } else {
            Some(NodeId::new(pos + estimated_total_children))
        },
    };
    node_hierarchy.push(node);
    node_data.push(root);
    let this_id = NodeId::new(pos);
    let mut child_pos: usize = pos + 1;
    let mut previous: Option<NodeId> = None;
    let mut i: usize = 0;
    for child in iter: children.into_iter()
        invariant
            d == dom,
            s == d.children@,
            n == s.len(),
            d.well_formed(),
            pos == h0.len(),
            pos + node_count(d) <= usize::MAX,
            this_id == node_id(pos as nat),
            i == iter.index(),
            iter.seq() == s,
            i <= n,
            child_pos == pos + 1 + forest_count(s, i as nat),
            previous == (if i == 0 {
                None
            } else {
                Some(node_id((pos + 1 + forest_count(s, (i - 1) as nat)) as nat))
            }),
            node_hierarchy@ == h0 + seq![node] + forest_nodes(s, i as nat, (pos + 1) as nat, this_id),
            node_data@ == d0 + seq![d.root] + forest_data(s, i as nat),
    {
        proof {
            lemma_forest_wf_element(s, n as nat, i as int);
            lemma_forest_count_mono(s, (i + 1) as nat, n as nat);
            assert(child == s[i as int]);
            assert(s[i as int].estimate() + 1 == node_count(s[i as int]));
            assert(decreases_to!(dom => child));
            lemma_forest_nodes_len(s, i as nat, (pos + 1) as nat, this_id);
        }
        let child_size = child.estimated_total_children + 1;
        let next = if i + 1 < n {
            Some(NodeId::new(child_pos + child_size))
        } else {
            None
        };
        let ghost h_before = node_hierarchy@;
        let ghost d_before = node_data@;
        convert_dom_into_compact_dom_internal(child, node_hierarchy, node_data, Some(this_id), previous, next);
        proof {
            assert(node_hierarchy@ =~= h0 + seq![node] + forest_nodes(s, (i + 1) as nat, (pos + 1) as nat, this_id));
            assert(node_data@ =~= d0 + seq![d.root] + forest_data(s, (i + 1) as nat));
        }
        previous = Some(NodeId::new(child_pos));
        child_pos = child_pos + child_size;
        i = i + 1;
    }
    proof {
        assert(node_hierarchy@ =~= h0 + subtree_nodes(d, pos as nat, parent, previous_sibling, next_sibling));
        assert(node_data@ =~= d0 + subtree_data(d));
    }
}

/// Flattens a DOM tree into an arena: the nodes in pre-order, each with links to its
/// parent, siblings and children; the root stands at position 0.
pub fn convert_dom_into_compact_dom(dom: Dom) -> (r: CompactDom)
    requires
        dom.well_formed(),
        dom.estimate() < usize::MAX,
    ensures
        r.node_hierarchy.internal@ == subtree_nodes(dom, 0, None, None, None),
        r.node_data.internal@ == subtree_data(dom),
        r.root == node_id(0),
        arena_follows_tree(r.node_hierarchy.internal@, 0),
{
    let mut node_hierarchy: Vec<Node> = Vec::new();
    let mut node_data: Vec<NodeData> = Vec::new();
    let ghost d = dom;
    convert_dom_into_compact_dom_internal(dom, &mut node_hierarchy, &mut node_data, None, None, None);
    proof {
        assert(node_hierarchy@ =~= subtree_nodes(d, 0, None, None, None));
        assert(node_data@ =~= subtree_data(d));
        lemma_compact_follows_tree(d);
    }
    CompactDom {
        node_hierarchy: NodeHierarchy { internal: node_hierarchy },
        node_data: NodeDataContainer { internal: node_data },
        root: NodeId::new(0),
    }
}


/// `n` levels of indentation, four spaces each.
pub open spec fn indent_text(n: nat) -> Seq<char>
    decreases n,
{
    if n == 0 {
        Seq::empty()
    } else {
        indent_text((n - 1) as nat) + "    "@
    }
}

/// The HTML of tree `d` at the given indentation: a line break, the indentation and the
/// opening tag of the root, its text content, then (unless the root has neither
/// children nor content, in which case its tag closes itself) the children one level
/// deeper, a line break, the indentation and the closing tag.
pub open spec fn html_lines(d: Dom, indent: nat) -> Seq<char>
    decreases d, 0nat,
{
    let content = text_content(d.root_node()@.node_type);
    let self_closing = d.child_trees().len() == 0 && content is None;
    "\r\n"@ + indent_text(indent) + start_tag_text(d.root_node()@, self_closing) + (match content {
        Some(c) => c,
        None => Seq::empty(),
    }) + (if self_closing {
        Seq::empty()
    } else {
        forest_html(d.child_trees(), d.child_trees().len(), indent + 1) + "\r\n"@ + indent_text(indent)
            + end_tag_text(d.root_node()@)
    })
}

/// The HTML of the first `k` trees of `s`, one after another, at the given indentation.
pub open spec fn forest_html(s: Seq<Dom>, k: nat, indent: nat) -> Seq<char>
    decreases s, k,
{
    if k == 0 || k > s.len() {
        Seq::empty()
    } else {
        forest_html(s, (k - 1) as nat, indent) + html_lines(s[k - 1], indent)
    }
}

/// The HTML of a tree: its lines without the leading line break.
pub open spec fn html_text(d: Dom) -> Seq<char> {
    html_lines(d, 0).skip(2)
}

fn get_html_string_inner(dom: &Dom, output: &mut String, tabs: &String, Ghost(indent): Ghost<nat>)
    requires
        tabs@ == indent_text(indent),
    ensures
        final(output)@ == old(output)@ + html_lines(*dom, indent),
    decreases dom,
{
    proof {
        reveal_strlit("\r\n");
        reveal_strlit("    ");
    }
    let ghost out0 = output@;
    let content = dom.root.get_node_type().get_text_content();
    let print_self_closing_tag = dom.children.len() == 0 && content.is_none();
    output.append("\r\n");
    output.append(tabs.as_str());
    let start = dom.root.debug_print_start(print_self_closing_tag);
    output.append(start.as_str());
    if let Some(c) = &content {
        output.append(c.as_str());
    }
    let ghost head = output@;
    assert(head == out0 + "\r\n"@ + indent_text(indent) + start_tag_text(dom.root@, print_self_closing_tag) + (match text_content(dom.root@.node_type) {
        Some(c) => c,
        None => Seq::empty(),
    }));
    if !print_self_closing_tag {
        let mut child_tabs = tabs.clone();
        child_tabs.append("    ");
        let n = dom.children.len();
        let mut i: usize = 0;
        while i < n
            invariant
                n == dom.children@.len(),
                i <= n,
                child_tabs@ == indent_text(indent + 1),
                output@ == head + forest_html(dom.children@, i as nat, indent + 1),
            decreases n - i,
        {
            proof {
                assert(decreases_to!(dom => dom.children@[i as int]));
            }
            get_html_string_inner(&dom.children[i], output, &child_tabs, Ghost(indent + 1));
            i = i + 1;
        }
        output.append("\r\n");
        output.append(tabs.as_str());
        let end = dom.root.debug_print_end();
        output.append(end.as_str());
    }
    proof {
        assert(output@ =~= out0 + html_lines(*dom, indent));
    }
}

impl Dom {
    /// The HTML of this DOM, one node per line, each child indented by four spaces
    /// more than its parent.
    pub fn get_html_string(&self) -> (r: String)
        ensures
            r@ == html_text(*self),
    {
        proof {
            reveal_strlit("");
            reveal_strlit("\r\n");
        }
        let mut output = owned("");
        let tabs = owned("");
        assert(tabs@ =~= indent_text(0));
        get_html_string_inner(self, &mut output, &tabs, Ghost(0));
        let len = output.as_str().unicode_len();
        let trimmed = output.as_str().substring_char(2, len);
        owned(trimmed)
    }
}


proof fn lemma_forest_wf_from_all(s: Seq<Dom>, k: nat)
    requires
        k <= s.len(),
        forall|i: int| 0 <= i < s.len() ==> #[trigger] s[i].well_formed(),
    ensures
        forest_wf(s, k),
    decreases k,
{
    if k > 0 {
        lemma_forest_wf_from_all(s, (k - 1) as nat);
        assert(s[k - 1].well_formed());
    }
}

impl Dom {
    /// A `div` whose children are the given trees, in order.
    pub fn from_children(children: Vec<Dom>) -> (r: Dom)
        requires
            forest_estimate(children@, children@.len()) <= usize::MAX,
        ensures
            r.root_node()@ == fresh_node(NodeType::Div),
            r.child_trees() == children@,
            r.estimate() == forest_estimate(children@, children@.len()),
            (forall|i: int| 0 <= i < children@.len() ==> #[trigger] children@[i].well_formed())
                ==> r.well_formed(),
    {
        let ghost s = children@;
        let n = children.len();
        let mut estimated_total_children: usize = 0;
        let mut i: usize = 0;
        while i < n
            invariant
                n == s.len(),
                s == children@,
                i <= n,
                forest_estimate(s, n as nat) <= usize::MAX,
                estimated_total_children == forest_estimate(s, i as nat),
            decreases n - i,
        {
            proof {
                lemma_forest_estimate_mono(s, (i + 1) as nat, n as nat);
            }
            estimated_total_children = estimated_total_children + children[i].estimated_total_children + 1;
            i = i + 1;
        }
        let r = Dom { root: NodeData::div(), children, estimated_total_children };
        proof {
            if forall|i: int| 0 <= i < s.len() ==> #[trigger] s[i].well_formed() {
                lemma_forest_wf_from_all(s, n as nat);
                lemma_forest_wf_estimate(s, n as nat);
            }
        }
        r
    }

    /// A `div` whose children are childless trees with the given nodes as roots, in order.
    pub fn from_node_data_list(nodes: Vec<NodeData>) -> (r: Dom)
        ensures
            r.root_node()@ == fresh_node(NodeType::Div),
            r.child_trees().len() == nodes@.len(),
            forall|i: int| 0 <= i < nodes@.len() ==> {
                &&& (#[trigger] r.child_trees()[i]).root_node() == nodes@[i]
                &&& r.child_trees()[i].child_trees().len() == 0
                &&& r.child_trees()[i].estimate() == 0
            },
            r.estimate() == nodes@.len(),
            r.well_formed(),
    {
        let ghost s = nodes@;
        let n = nodes.len();
        let mut children: Vec<Dom> = Vec::with_capacity(n);
        for node in iter: nodes.into_iter()
            invariant
                n == s.len(),
                iter.seq() == s,
                children@.len() == iter.index(),
                forall|i: int| 0 <= i < children@.len() ==> {
                    &&& (#[trigger] children@[i]).root == s[i]
                    &&& children@[i].children@.len() == 0
                    &&& children@[i].estimated_total_children == 0
                },
        {
            children.push(Dom { root: node, children: Vec::new(), estimated_total_children: 0 });
        }
        let ghost c = children@;
        let r = Dom { root: NodeData::div(), children, estimated_total_children: n };
        proof {
            assert forall|i: int| 0 <= i < c.len() implies #[trigger] c[i].well_formed() by {
                reveal_with_fuel(node_count, 2);
                reveal_with_fuel(forest_wf, 2);
            }
            lemma_forest_wf_from_all(c, n as nat);
            lemma_forest_wf_estimate(c, n as nat);
            lemma_forest_estimate_leaves(c, n as nat);
        }
        r
    }

    /// A `div` whose children are childless trees with fresh nodes of the given types as
    /// roots, in order.
    pub fn from_node_types(node_types: Vec<NodeType>) -> (r: Dom)
        ensures
            r.root_node()@ == fresh_node(NodeType::Div),
            r.child_trees().len() == node_types@.len(),
            forall|i: int| 0 <= i < node_types@.len() ==> {
                &&& (#[trigger] r.child_trees()[i]).root_node()@ == fresh_node(node_types@[i])
                &&& r.child_trees()[i].child_trees().len() == 0
                &&& r.child_trees()[i].estimate() == 0
            },
            r.estimate() == node_types@.len(),
            r.well_formed(),
    {
        let ghost s = node_types@;
        let n = node_types.len();
        let mut nodes: Vec<NodeData> = Vec::with_capacity(n);
        for node_type in iter: node_types.into_iter()
            invariant
                n == s.len(),
                iter.seq() == s,
                nodes@.len() == iter.index(),
                forall|i: int| 0 <= i < nodes@.len() ==> (#[trigger] nodes@[i])@ == fresh_node(s[i]),
        {
            nodes.push(NodeData::new(node_type));
        }
        Self::from_node_data_list(nodes)
    }
}

proof fn lemma_forest_estimate_mono(s: Seq<Dom>, i: nat, j: nat)
    requires
        i <= j <= s.len(),
    ensures
        forest_estimate(s, i) <= forest_estimate(s, j),
    decreases j,
{
    if i < j {
        lemma_forest_estimate_mono(s, i, (j - 1) as nat);
    }
}

proof fn lemma_forest_estimate_leaves(s: Seq<Dom>, k: nat)
    requires
        k <= s.len(),
        forall|i: int| 0 <= i < s.len() ==> (#[trigger] s[i]).estimated_total_children == 0,
    ensures
        forest_estimate(s, k) == k,
    decreases k,
{
    if k > 0 {
        lemma_forest_estimate_leaves(s, (k - 1) as nat);
    }
}


/// The links of `t`, the arena entries of one subtree whose root stands at position
/// `pos`, are consistent: every node but the root has a parent that stands before it
/// inside the subtree; a first child directly follows its parent, links back to it
/// and has no previous sibling; and a node's next sibling stands after it inside the
/// subtree and links back to it as previous sibling, under the same parent.
pub open spec fn subtree_links_consistent(t: Seq<Node>, pos: nat) -> bool {
    &&& forall|j: int|
        0 < j < t.len() ==> ((#[trigger] t[j]).parent matches Some(p) && pos <= p.index < pos + j)
    &&& forall|j: int|
        #![trigger t[j]]
        0 <= j < t.len() ==> (t[j].first_child matches Some(c) ==> {
            &&& c.index == pos + j + 1
            &&& j + 1 < t.len()
            &&& t[j + 1].parent == Some(node_id((pos + j) as nat))
            &&& t[j + 1].previous_sibling is None
        })
    &&& forall|j: int|
        #![trigger t[j]]
        0 < j < t.len() ==> (t[j].next_sibling matches Some(x) ==> {
            &&& pos + j < x.index < pos + t.len()
            &&& t[x.index - pos].previous_sibling == Some(node_id((pos + j) as nat))
            &&& t[x.index - pos].parent == t[j].parent
        })
}

/// The links of `f`, the arena entries of the first `k` children of `parent` laid out
/// from position `start`, are consistent in the same way; a next-sibling link may
/// point just past them, and then it is the link of the last root, whose
/// sibling follows later.
spec fn forest_links_consistent(f: Seq<Node>, s: Seq<Dom>, k: nat, start: nat, parent: NodeId) -> bool {
    &&& k >= 1 ==> f.len() >= 1 && f[0].parent == Some(parent) && f[0].previous_sibling is None
    &&& forall|j: int|
        0 <= j < f.len() ==> ((#[trigger] f[j]).parent matches Some(p) && (p == parent || start
            <= p.index < start + j))
    &&& forall|j: int|
        #![trigger f[j]]
        0 <= j < f.len() ==> (f[j].first_child matches Some(c) ==> {
            &&& c.index == start + j + 1
            &&& j + 1 < f.len()
            &&& f[j + 1].parent == Some(node_id((start + j) as nat))
            &&& f[j + 1].previous_sibling is None
        })
    &&& forall|j: int|
        #![trigger f[j]]
        0 <= j < f.len() ==> (f[j].next_sibling matches Some(x) ==> {
            &&& start + j < x.index <= start + f.len()
            &&& x.index < start + f.len() ==> f[x.index - start].previous_sibling == Some(
                node_id((start + j) as nat),
            ) && f[x.index - start].parent == f[j].parent
            &&& x.index == start + f.len() ==> k >= 1 && k < s.len() && f[j].parent == Some(parent)
                && j == forest_count(s, (k - 1) as nat)
        })
}

#[verifier::rlimit(100)]
proof fn lemma_subtree_links(d: Dom, pos: nat, parent: Option<NodeId>, prev: Option<NodeId>, next: Option<NodeId>)
    requires
        pos + node_count(d) <= usize::MAX,
    ensures
        subtree_links_consistent(subtree_nodes(d, pos, parent, prev, next), pos),
    decreases d, 0nat,
{
    let s = d.children@;
    let n = s.len();
    let t = subtree_nodes(d, pos, parent, prev, next);
    let f = forest_nodes(s, n, pos + 1, node_id(pos));
    lemma_subtree_nodes_len(d, pos, parent, prev, next);
    lemma_forest_nodes_len(s, n, pos + 1, node_id(pos));
    lemma_forest_links(s, n, pos + 1, node_id(pos));
    assert(t =~= seq![t[0]] + f);
    assert forall|j: int| 0 < j < t.len() implies ((#[trigger] t[j]).parent matches Some(p) && pos <= p.index < pos + j) by {
        assert(t[j] == f[j - 1]);
    }
    assert forall|j: int| 0 <= j < t.len() implies ((#[trigger] t[j]).first_child matches Some(c) ==> {
            &&& c.index == pos + j + 1
            &&& j + 1 < t.len()
            &&& t[j + 1].parent == Some(node_id((pos + j) as nat))
            &&& t[j + 1].previous_sibling is None
        }) by {
        if j == 0 {
            if n > 0 {
                lemma_forest_count_mono(s, 1, n);
                reveal_with_fuel(forest_count, 2);
                assert(t[1] == f[0]);
            }
        } else {
            assert(t[j] == f[j - 1]);
            if t[j].first_child is Some {
                assert(t[j + 1] == f[j]);
            }
        }
    }
    assert forall|j: int| 0 < j < t.len() implies ((#[trigger] t[j]).next_sibling matches Some(x) ==> {
            &&& pos + j < x.index < pos + t.len()
            &&& t[x.index - pos].previous_sibling == Some(node_id((pos + j) as nat))
            &&& t[x.index - pos].parent == t[j].parent
        }) by {
        assert(t[j] == f[j - 1]);
        if let Some(x) = t[j].next_sibling {
            assert(t[x.index - pos] == f[x.index - pos - 1]);
        }
    }
}

#[verifier::rlimit(100)]
proof fn lemma_forest_links(s: Seq<Dom>, k: nat, start: nat, parent: NodeId)
    requires
        k <= s.len(),
        start + forest_count(s, k) <= usize::MAX,
        parent.index < start,
    ensures
        forest_links_consistent(forest_nodes(s, k, start, parent), s, k, start, parent),
    decreases s, k,
{
    if k == 0 {
        assert(forest_nodes(s, k, start, parent) =~= Seq::<Node>::empty());
    } else {
        let i = (k - 1) as nat;
        let fi = forest_count(s, i);
        let prev = if i == 0 {
            None
        } else {
            Some(node_id(start + forest_count(s, (i - 1) as nat)))
        };
        let next = if k < s.len() {
            Some(node_id(start + forest_count(s, k)))
        } else {
            None
        };
        let f = forest_nodes(s, i, start, parent);
        let g = subtree_nodes(s[i as int], start + fi, Some(parent), prev, next);
        let h = forest_nodes(s, k, start, parent);
        assert(h == f + g);
        lemma_forest_links(s, i, start, parent);
        lemma_subtree_links(s[i as int], start + fi, Some(parent), prev, next);
        lemma_forest_nodes_len(s, i, start, parent);
        lemma_subtree_nodes_len(s[i as int], start + fi, Some(parent), prev, next);
        if i > 0 {
            lemma_forest_count_mono(s, (i - 1) as nat, i);
        }
        assert(f.len() == fi);
        assert(g.len() >= 1);
        assert forall|j: int| 0 <= j < h.len() implies ((#[trigger] h[j]).parent matches Some(p) && (p == parent || start <= p.index < start + j)) by {
            if j < f.len() {
                assert(h[j] == f[j]);
            } else {
                assert(h[j] == g[j - fi]);
            }
        }
        assert forall|j: int| 0 <= j < h.len() implies ((#[trigger] h[j]).first_child matches Some(c) ==> {
                &&& c.index == start + j + 1
                &&& j + 1 < h.len()
                &&& h[j + 1].parent == Some(node_id((start + j) as nat))
                &&& h[j + 1].previous_sibling is None
            }) by {
            if j < f.len() {
                assert(h[j] == f[j]);
                if f[j].first_child is Some {
                    assert(h[j + 1] == f[j + 1]);
                }
            } else {
                assert(h[j] == g[j - fi]);
                if g[j - fi].first_child is Some {
                    assert(h[j + 1] == g[j + 1 - fi]);
                }
            }
        }
        assert forall|j: int| 0 <= j < h.len() implies ((#[trigger] h[j]).next_sibling matches Some(x) ==> {
                &&& start + j < x.index <= start + h.len()
                &&& x.index < start + h.len() ==> h[x.index - start].previous_sibling == Some(
                    node_id((start + j) as nat),
                ) && h[x.index - start].parent == h[j].parent
                &&& x.index == start + h.len() ==> k >= 1 && k < s.len() && h[j].parent == Some(
                    parent,
                ) && j == forest_count(s, (k - 1) as nat)
            }) by {
            if j < f.len() {
                assert(h[j] == f[j]);
                if let Some(x) = f[j].next_sibling {
                    if x.index < start + f.len() {
                        assert(h[x.index - start] == f[x.index - start]);
                    } else {
                        assert(h[x.index - start] == g[0]);
                    }
                }
            } else {
                assert(h[j] == g[j - fi]);
                if let Some(x) = g[j - fi].next_sibling {
                    if j > fi {
                        assert(h[x.index - start] == g[x.index - start - fi]);
                    } else {
                        if k < s.len() {
                            lemma_forest_count_mono(s, k, k);
                        }
                    }
                }
            }
        }
        if i > 0 {
            assert(h[0] == f[0]);
        } else {
            assert(h[0] == g[0]);
        }
    }
}

/// The arena of a tree records its structure consistently: every node but the root has
/// a parent standing before it, each first child follows its parent directly and links
/// back to it, and sibling links run both ways between nodes of the same parent.
pub proof fn lemma_compact_links_consistent(d: Dom)
    requires
        node_count(d) <= usize::MAX,
    ensures
        subtree_links_consistent(subtree_nodes(d, 0, None, None, None), 0),
{
    lemma_subtree_links(d, 0, None, None, None);
}

/// The absolute arena position of the last node of the subtree whose root is entry `j`
/// of `t` (entries laid out from position `pos`): its `last_child` link, or the entry
/// itself where it has no children.
pub open spec fn arena_subtree_end(t: Seq<Node>, pos: nat, j: int) -> int {
    match t[j].last_child {
        Some(l) => l.index as int,
        None => pos + j,
    }
}

/// Entry `j` of `t` has children links exactly where it has children: it has a first
/// child (and then a last one) exactly when the next entry names it as parent.
pub open spec fn child_links_ok(t: Seq<Node>, pos: nat, j: int) -> bool {
    &&& (t[j].first_child is Some) <==> (j + 1 < t.len() && t[j + 1].parent == Some(
        node_id((pos + j) as nat),
    ))
    &&& (t[j].last_child is Some) == (t[j].first_child is Some)
}

/// Entry `j` of `t`, not the root, has a parent before it, and a next sibling exactly
/// where its subtree does not end its parent's subtree; that sibling then stands
/// directly after its subtree.
pub open spec fn sibling_entry_ok(t: Seq<Node>, pos: nat, j: int) -> bool {
    match t[j].parent {
        Some(p) => {
            &&& pos <= p.index < pos + j
            &&& (t[j].next_sibling matches Some(x) ==> x.index == arena_subtree_end(t, pos, j) + 1)
            &&& (t[j].next_sibling is None <==> arena_subtree_end(t, pos, j) == arena_subtree_end(
                t,
                pos,
                p.index - pos,
            ))
        },
        None => false,
    }
}

/// The arena `t` of one tree, laid out from position `pos`, follows the tree's shape:
/// the root's subtree spans all of it, every entry has child links exactly where it
/// has children, and every other entry has a parent before it and a next sibling
/// exactly where another child of that parent follows its subtree.
pub open spec fn arena_follows_tree(t: Seq<Node>, pos: nat) -> bool {
    &&& t.len() > 0
    &&& arena_subtree_end(t, pos, 0) == pos + t.len() - 1
    &&& forall|j: int| 0 <= j < t.len() ==> #[trigger] child_links_ok(t, pos, j)
    &&& forall|j: int| 0 < j < t.len() ==> #[trigger] sibling_entry_ok(t, pos, j)
}

spec fn forest_entry_ok(h: Seq<Node>, s: Seq<Dom>, start: nat, parent: NodeId, j: int) -> bool {
    match h[j].parent {
        Some(p) => {
            &&& (p == parent || start <= p.index < start + j)
            &&& (h[j].next_sibling matches Some(x) ==> x.index == arena_subtree_end(h, start, j) + 1)
            &&& p == parent ==> (h[j].next_sibling is None <==> arena_subtree_end(h, start, j) == start
                + forest_count(s, s.len()) - 1)
            &&& p != parent ==> (h[j].next_sibling is None <==> arena_subtree_end(h, start, j)
                == arena_subtree_end(h, start, p.index - start))
        },
        None => false,
    }
}

spec fn forest_follows(h: Seq<Node>, s: Seq<Dom>, start: nat, parent: NodeId) -> bool {
    &&& forall|j: int| 0 <= j < h.len() ==> #[trigger] child_links_ok(h, start, j)
    &&& forall|j: int| 0 <= j < h.len() ==> #[trigger] forest_entry_ok(h, s, start, parent, j)
}

proof fn lemma_forest_count_strict(s: Seq<Dom>, i: nat, j: nat)
    requires
        i < j <= s.len(),
    ensures
        forest_count(s, i) < forest_count(s, j),
    decreases j,
{
    assert(node_count(s[j - 1]) >= 1);
    if i < j - 1 {
        lemma_forest_count_strict(s, i, (j - 1) as nat);
    }
}

#[verifier::rlimit(100)]
proof fn lemma_subtree_follows(d: Dom, pos: nat, parent: Option<NodeId>, prev: Option<NodeId>, next: Option<NodeId>)
    requires
        pos + node_count(d) <= usize::MAX,
    ensures
        arena_follows_tree(subtree_nodes(d, pos, parent, prev, next), pos),
    decreases d, 0nat,
{
    let s = d.children@;
    let n = s.len();
    let t = subtree_nodes(d, pos, parent, prev, next);
    let f = forest_nodes(s, n, pos + 1, node_id(pos));
    lemma_subtree_nodes_len(d, pos, parent, prev, next);
    lemma_forest_nodes_len(s, n, pos + 1, node_id(pos));
    lemma_forest_follows(s, n, pos + 1, node_id(pos));
    assert(t =~= seq![t[0]] + f);
    assert(child_links_ok(t, pos, 0)) by {
        if n > 0 {
            lemma_forest_count_strict(s, 0, n);
            assert(t[1] == f[0]);
            assert(child_links_ok(f, pos + 1, 0));
            assert(forest_entry_ok(f, s, pos + 1, node_id(pos), 0));
            if f[0].parent != Some(node_id(pos)) {
                assert(f[0].parent matches Some(p) && pos + 1 <= p.index < pos + 1);
            }
        }
    }
    assert forall|j: int| 0 <= j < t.len() implies #[trigger] child_links_ok(t, pos, j) by {
        if j > 0 {
            assert(t[j] == f[j - 1]);
            assert(child_links_ok(f, pos + 1, j - 1));
            if j + 1 < t.len() {
                assert(t[j + 1] == f[j]);
            }
        }
    }
    assert forall|j: int| 0 < j < t.len() implies #[trigger] sibling_entry_ok(t, pos, j) by {
        assert(t[j] == f[j - 1]);
        assert(forest_entry_ok(f, s, pos + 1, node_id(pos), j - 1));
        let p = t[j].parent->0;
        if p != node_id(pos) {
            assert(t[p.index - pos] == f[p.index - pos - 1]);
        }
    }
}

#[verifier::rlimit(100)]
proof fn lemma_forest_follows(s: Seq<Dom>, k: nat, start: nat, parent: NodeId)
    requires
        k <= s.len(),
        start + forest_count(s, k) <= usize::MAX,
        parent.index < start,
    ensures
        forest_follows(forest_nodes(s, k, start, parent), s, start, parent),
    decreases s, k,
{
    if k == 0 {
        assert(forest_nodes(s, k, start, parent) =~= Seq::<Node>::empty());
    } else {
        let i = (k - 1) as nat;
        let fi = forest_count(s, i);
        let prev = if i == 0 {
            None
        } else {
            Some(node_id(start + forest_count(s, (i - 1) as nat)))
        };
        let next = if k < s.len() {
            Some(node_id(start + forest_count(s, k)))
        } else {
            None
        };
        let pos = start + fi;
        let f = forest_nodes(s, i, start, parent);
        let g = subtree_nodes(s[i as int], pos, Some(parent), prev, next);
        let h = forest_nodes(s, k, start, parent);
        assert(h == f + g);
        lemma_forest_follows(s, i, start, parent);
        lemma_subtree_follows(s[i as int], pos, Some(parent), prev, next);
        lemma_forest_nodes_len(s, i, start, parent);
        lemma_subtree_nodes_len(s[i as int], pos, Some(parent), prev, next);
        assert(f.len() == fi);
        assert(g.len() == node_count(s[i as int]));
        assert(g[0].parent == Some(parent));
        assert(g[0].next_sibling == next);
        if k < s.len() {
            lemma_forest_count_strict(s, k, s.len());
        }
        assert forall|j: int| 0 <= j < h.len() implies #[trigger] child_links_ok(h, start, j) by {
            if j < fi {
                assert(h[j] == f[j]);
                assert(child_links_ok(f, start, j));
                if j + 1 < fi {
                    assert(h[j + 1] == f[j + 1]);
                } else {
                    assert(h[j + 1] == g[0]);
                }
            } else {
                assert(h[j] == g[j - fi]);
                assert(child_links_ok(g, pos, j - fi));
                if j + 1 < h.len() {
                    assert(h[j + 1] == g[j + 1 - fi]);
                }
            }
        }
        assert forall|j: int| 0 <= j < h.len() implies #[trigger] forest_entry_ok(h, s, start, parent, j) by {
            if j < fi {
                assert(h[j] == f[j]);
                assert(forest_entry_ok(f, s, start, parent, j));
                let p = f[j].parent->0;
                if p != parent {
                    assert(h[p.index - start] == f[p.index - start]);
                }
            } else if j == fi {
                assert(h[j] == g[0]);
            } else {
                assert(h[j] == g[j - fi]);
                assert(sibling_entry_ok(g, pos, j - fi));
                let p = g[j - fi].parent->0;
                assert(h[p.index - start] == g[p.index - pos]);
            }
        }
    }
}

/// The arena of a tree follows its shape: the root's subtree spans the whole arena;
/// a node has a first and a last child link exactly when the node after it is its
/// child; and every other node has its parent before it and a next sibling exactly
/// when another child of its parent follows its subtree, standing right after that
/// subtree. So following next-sibling links from a first child visits every child.
pub proof fn lemma_compact_follows_tree(d: Dom)
    requires
        node_count(d) <= usize::MAX,
    ensures
        arena_follows_tree(subtree_nodes(d, 0, None, None, None), 0),
{
    lemma_subtree_follows(d, 0, None, None, None);
}


proof fn lemma_subtree_data_len(d: Dom)
    ensures
        subtree_data(d).len() == node_count(d),
    decreases d, 0nat,
{
    lemma_forest_data_len(d.children@, d.children@.len());
}

proof fn lemma_forest_data_len(s: Seq<Dom>, k: nat)
    ensures
        forest_data(s, k).len() == forest_count(s, k),
    decreases s, k,
{
    if k > 0 && k <= s.len() {
        lemma_forest_data_len(s, (k - 1) as nat);
        lemma_subtree_data_len(s[k - 1]);
    }
}

proof fn lemma_forest_data_block(s: Seq<Dom>, k: nat, i: nat)
    requires
        i < k <= s.len(),
    ensures
        forest_data(s, k).subrange(forest_count(s, i) as int, forest_count(s, i + 1) as int)
            == subtree_data(s[i as int]),
    decreases k,
{
    lemma_forest_data_len(s, (k - 1) as nat);
    lemma_forest_data_len(s, i);
    lemma_subtree_data_len(s[i as int]);
    let p = forest_data(s, (k - 1) as nat);
    let x = subtree_data(s[k - 1]);
    assert(forest_data(s, k) == p + x);
    if k == i + 1 {
        assert((p + x).subrange(forest_count(s, i) as int, forest_count(s, i + 1) as int) =~= x);
    } else {
        lemma_forest_data_block(s, (k - 1) as nat, i);
        lemma_forest_count_mono(s, i + 1, (k - 1) as nat);
        assert((p + x).subrange(forest_count(s, i) as int, forest_count(s, i + 1) as int) =~= p.subrange(
            forest_count(s, i) as int,
            forest_count(s, i + 1) as int,
        ));
    }
}

/// The nodes of a tree stand in pre-order: its root first, then the nodes of each child
/// tree as one block, in the order of the children, each block starting where those of
/// the earlier children end.
pub proof fn lemma_data_pre_order(d: Dom, i: int)
    requires
        0 <= i < d.child_trees().len(),
    ensures
        subtree_data(d)[0] == d.root_node(),
        subtree_data(d).subrange(
            1 + forest_count(d.child_trees(), i as nat) as int,
            1 + forest_count(d.child_trees(), (i + 1) as nat) as int,
        ) == subtree_data(d.child_trees()[i]),
{
    let s = d.child_trees();
    lemma_forest_data_block(s, s.len(), i as nat);
    lemma_forest_count_mono(s, (i + 1) as nat, s.len());
    lemma_forest_data_len(s, s.len());
    let f = forest_data(s, s.len());
    assert(subtree_data(d) == seq![d.root_node()] + f);
    assert(subtree_data(d).subrange(1 + forest_count(s, i as nat) as int, 1 + forest_count(s, (i + 1) as nat) as int)
        =~= f.subrange(forest_count(s, i as nat) as int, forest_count(s, (i + 1) as nat) as int));
}

/// A well-formed tree records exactly its number of descendants.
pub proof fn lemma_estimate_counts_descendants(d: Dom)
    requires
        d.well_formed(),
    ensures
        node_count(d) == d.estimate() + 1,
{
}

/// The arena of a tree holds exactly one entry per node, in its links as in its data,
/// so never zero entries; the root comes first, with its own data, no parent and no
/// siblings, and its first child, if any, directly follows it.
pub proof fn lemma_compact_shape(d: Dom)
    ensures
        subtree_nodes(d, 0, None, None, None).len() == node_count(d),
        subtree_data(d).len() == node_count(d),
        node_count(d) >= 1,
        subtree_data(d)[0] == d.root_node(),
        subtree_nodes(d, 0, None, None, None)[0].parent is None,
        subtree_nodes(d, 0, None, None, None)[0].previous_sibling is None,
        subtree_nodes(d, 0, None, None, None)[0].next_sibling is None,
        subtree_nodes(d, 0, None, None, None)[0].first_child == (if d.child_trees().len() == 0 {
            None
        } else {
            Some(node_id(1))
        }),
{
    lemma_subtree_nodes_len(d, 0, None, None, None);
    lemma_subtree_data_len(d);
}

/// A tree's HTML begins with the `<` of its root's opening tag and ends with the `>`
/// of a tag: no whitespace surrounds it.
pub proof fn lemma_html_delimited(d: Dom)
    ensures
        html_text(d).len() >= 2,
        html_text(d)[0] == '<',
        html_text(d).last() == '>',
{
    reveal_strlit("\r\n");
    reveal_strlit("<");
    reveal_strlit(">");
    reveal_strlit(" /");
    let m = d.root@;
    let content = text_content(m.node_type);
    let self_closing = d.children@.len() == 0 && content is None;
    let start = start_tag_text(m, self_closing);
    assert(indent_text(0) =~= Seq::<char>::empty());
    let rest = (match content {
        Some(c) => c,
        None => Seq::empty(),
    }) + (if self_closing {
        Seq::empty()
    } else {
        forest_html(d.children@, d.children@.len(), 1) + "\r\n"@ + indent_text(0) + end_tag_text(m)
    });
    let lines = html_lines(d, 0);
    assert(lines =~= "\r\n"@ + (start + rest));
    assert(lines.skip(2) =~= start + rest);
    assert(start[0] == '<');
    if self_closing {
        assert(rest =~= Seq::<char>::empty());
        assert(start.last() == '>');
    } else {
        reveal_strlit("</");
        assert(end_tag_text(m).last() == '>');
        assert(rest.last() == end_tag_text(m).last());
    }
}


impl Dom {
    /// The recorded number of descendants of this tree.
    pub fn estimated_total_children(&self) -> (r: usize)
        ensures
            r == self.estimate(),
    {
        self.estimated_total_children
    }

    /// Whether the recorded number of descendants of every subtree is its true number,
    /// as it is for every tree built through the methods of this type.
    pub fn is_well_formed(&self) -> (r: bool)
        ensures
            r == self.well_formed(),
        decreases self,
    {
        let n = self.children.len();
        let ghost s = self.children@;
        let mut sum: usize = 0;
        let mut i: usize = 0;
        while i < n
            invariant
                s == self.children@,
                n == s.len(),
                i <= n,
                forest_wf(s, i as nat),
                sum == forest_estimate(s, i as nat),
            decreases n - i,
        {
            proof {
                assert(decreases_to!(self => self.children@[i as int]));
            }
            let child = &self.children[i];
            if !child.is_well_formed() {
                proof {
                    if forest_wf(s, n as nat) {
                        lemma_forest_wf_element(s, n as nat, i as int);
                    }
                }
                return false;
            }
            if child.estimated_total_children >= usize::MAX - sum {
                proof {
                    if self.well_formed() {
                        lemma_forest_wf_estimate(s, n as nat);
                        lemma_forest_estimate_mono(s, (i + 1) as nat, n as nat);
                    }
                }
                return false;
            }
            sum = sum + child.estimated_total_children + 1;
            i = i + 1;
        }
        proof {
            lemma_forest_wf_estimate(s, n as nat);
        }
        self.estimated_total_children == sum
    }
}


proof fn lemma_forests_agree(s: Seq<Dom>, t: Seq<Dom>, k: nat)
    requires
        k <= s.len(),
        k <= t.len(),
        forall|j: int| 0 <= j < k ==> node_count(#[trigger] s[j]) == node_count(t[j]),
        forall|j: int| 0 <= j < k ==> (#[trigger] s[j]).well_formed() ==> t[j].well_formed(),
    ensures
        forest_count(s, k) == forest_count(t, k),
        forest_wf(s, k) ==> forest_wf(t, k),
    decreases k,
{
    if k > 0 {
        lemma_forests_agree(s, t, (k - 1) as nat);
        assert(node_count(s[k - 1]) == node_count(t[k - 1]));
    }
}

impl Dom {
    /// A copy of this tree: every node is cloned, and the copy has the same size and
    /// the same recorded size as the tree, at every level.
    fn clone_tree(&self) -> (r: Dom)
        ensures
            r.estimate() == self.estimate(),
            r.child_trees().len() == self.child_trees().len(),
            node_count(r) == node_count(*self),
            self.well_formed() ==> r.well_formed(),
        decreases self,
    {
        let n = self.children.len();
        let ghost s = self.children@;
        let mut children: Vec<Dom> = Vec::with_capacity(n);
        let mut i: usize = 0;
        while i < n
            invariant
                s == self.children@,
                n == s.len(),
                i <= n,
                children@.len() == i,
                forall|j: int| 0 <= j < i ==> node_count(#[trigger] children@[j]) == node_count(s[j]),
                forall|j: int| 0 <= j < i ==> (#[trigger] s[j]).well_formed() ==> children@[j].well_formed(),
            decreases n - i,
        {
            proof {
                assert(decreases_to!(self => self.children@[i as int]));
            }
            let c = self.children[i].clone_tree();
            children.push(c);
            i = i + 1;
        }
        proof {
            lemma_forests_agree(s, children@, n as nat);
            if self.well_formed() {
                assert forall|j: int| 0 <= j < n implies (#[trigger] s[j]).well_formed() by {
                    lemma_forest_wf_element(s, n as nat, j);
                }
            }
        }
        Dom {
            root: self.root.clone(),
            children,
            estimated_total_children: self.estimated_total_children,
        }
    }
}

impl Clone for Dom {
    fn clone(&self) -> (r: Dom)
        ensures
            r.estimate() == self.estimate(),
            r.child_trees().len() == self.child_trees().len(),
            node_count(r) == node_count(*self),
            self.well_formed() ==> r.well_formed(),
    {
        self.clone_tree()
    }
}


/// No line break `\r\n` stands in a label text, nor in the ids or the classes of a
/// node, anywhere in the tree.
pub open spec fn tree_line_break_free(d: Dom) -> bool
    decreases d, 0nat,
{
    node_line_break_free(d.root_node()@) && forest_line_break_free(d.child_trees(), d.child_trees().len())
}

/// No line break `\r\n` stands in a label text, nor in the ids or the classes of a
/// node, anywhere in the first `k` trees of `s`.
pub open spec fn forest_line_break_free(s: Seq<Dom>, k: nat) -> bool
    decreases s, k,
{
    if k == 0 || k > s.len() {
        true
    } else {
        forest_line_break_free(s, (k - 1) as nat) && tree_line_break_free(s[k - 1])
    }
}

/// The HTML of the first `k` trees of `s` as it stands inside their parent's HTML:
/// for each, a line break, four spaces, and its own HTML with four more spaces after
/// each of its line breaks.
pub open spec fn nested_children_html(s: Seq<Dom>, k: nat) -> Seq<char>
    decreases k,
{
    if k == 0 || k > s.len() {
        Seq::empty()
    } else {
        nested_children_html(s, (k - 1) as nat) + "\r\n    "@ + indent_lines(html_text(s[k - 1]))
    }
}

proof fn lemma_indent_text_front(n: nat)
    ensures
        indent_text(n + 1) == "    "@ + indent_text(n),
        no_cr(indent_text(n)),
    decreases n,
{
    reveal_strlit("    ");
    if n == 0 {
        assert(indent_text(1) =~= "    "@ + indent_text(0));
    } else {
        lemma_indent_text_front((n - 1) as nat);
        assert(indent_text(n + 1) =~= "    "@ + indent_text(n));
        lemma_no_cr_concat(indent_text((n - 1) as nat), "    "@);
    }
}

proof fn lemma_html_lines_start(d: Dom, n: nat)
    ensures
        html_lines(d, n) == "\r\n"@ + html_lines(d, n).skip(2),
        html_lines(d, n)[0] == '\r',
{
    reveal_strlit("\r\n");
    let x = html_lines(d, n);
    let content = text_content(d.root_node()@.node_type);
    let self_closing = d.child_trees().len() == 0 && content is None;
    let rest = indent_text(n) + start_tag_text(d.root_node()@, self_closing) + (match content {
        Some(c) => c,
        None => Seq::empty(),
    }) + (if self_closing {
        Seq::empty()
    } else {
        forest_html(d.child_trees(), d.child_trees().len(), n + 1) + "\r\n"@ + indent_text(n)
            + end_tag_text(d.root_node()@)
    });
    assert(x =~= "\r\n"@ + rest);
    assert(x.skip(2) =~= rest);
}

proof fn lemma_forest_html_start(s: Seq<Dom>, k: nat, n: nat)
    ensures
        forest_html(s, k, n).len() == 0 || forest_html(s, k, n)[0] == '\r',
    decreases k,
{
    if k > 0 && k <= s.len() {
        let i = (k - 1) as nat;
        lemma_forest_html_start(s, i, n);
        lemma_html_lines_start(s[i as int], n);
        let p = forest_html(s, i, n);
        let h = html_lines(s[i as int], n);
        if p.len() == 0 {
            assert((p + h)[0] == h[0]);
        } else {
            assert((p + h)[0] == p[0]);
        }
    }
}

proof fn lemma_indent_assemble(head: Seq<char>, f0: Seq<char>, f1: Seq<char>, tail: Seq<char>)
    requires
        no_line_break(head),
        no_line_break(tail),
        f0.len() == 0 || f0[0] == '\r',
        indent_lines(f0) == f1,
    ensures
        indent_lines("\r\n"@ + (head + (f0 + ("\r\n"@ + tail)))) == "\r\n    "@ + (head + (f1 + (
        "\r\n    "@ + tail))),
        indent_lines("\r\n"@ + head) == "\r\n    "@ + head,
{
    reveal_strlit("\r\n");
    lemma_indent_no_line_break(head);
    lemma_indent_no_line_break(tail);
    let lt = "\r\n"@ + tail;
    assert(lt[0] == '\r');
    lemma_indent_line_break(tail);
    lemma_indent_concat(f0, lt);
    let r = f0 + lt;
    if f0.len() == 0 {
        assert(r[0] == lt[0]);
    } else {
        assert(r[0] == f0[0]);
    }
    lemma_indent_concat(head, r);
    lemma_indent_line_break(head + r);
    lemma_indent_line_break(head);
}

#[verifier::rlimit(100)]
proof fn lemma_html_lines_indent(d: Dom, n: nat)
    requires
        tree_line_break_free(d),
    ensures
        indent_lines(html_lines(d, n)) == html_lines(d, n + 1),
    decreases d, 0nat,
{
    reveal_strlit("\r\n");
    reveal_strlit("\r\n    ");
    reveal_strlit("    ");
    let m = d.root_node()@;
    let ch = d.child_trees();
    let content = text_content(m.node_type);
    let sc = ch.len() == 0 && content is None;
    let start = start_tag_text(m, sc);
    let end = end_tag_text(m);
    let c = match content {
        Some(c) => c,
        None => Seq::<char>::empty(),
    };
    let i0 = indent_text(n);
    lemma_node_texts_line_break_free(m, sc);
    lemma_indent_text_front(n);
    if content is None {
        assert(no_cr(c));
        lemma_no_cr_no_line_break(c);
    }
    assert(no_line_break(c));
    lemma_no_cr_no_line_break(i0);
    lemma_no_line_break_concat(i0, start);
    lemma_no_line_break_concat(i0 + start, c);
    let head = i0 + start + c;
    let tail = i0 + end;
    lemma_no_cr_concat(i0, end);
    lemma_no_cr_no_line_break(tail);
    assert("\r\n    "@ =~= "\r\n"@ + "    "@);
    let f0 = forest_html(ch, ch.len(), n + 1);
    let f1 = forest_html(ch, ch.len(), n + 2);
    lemma_forest_html_indent(ch, ch.len(), n + 1);
    lemma_forest_html_start(ch, ch.len(), n + 1);
    lemma_indent_assemble(head, f0, f1, tail);
    if sc {
        assert(html_lines(d, n) =~= "\r\n"@ + head);
        assert(html_lines(d, n + 1) =~= "\r\n    "@ + head);
    } else {
        assert(html_lines(d, n) =~= "\r\n"@ + (head + (f0 + ("\r\n"@ + tail))));
        assert(html_lines(d, n + 1) =~= "\r\n    "@ + (head + (f1 + ("\r\n    "@ + tail))));
    }
}

proof fn lemma_forest_html_indent(s: Seq<Dom>, k: nat, n: nat)
    requires
        forest_line_break_free(s, k),
    ensures
        indent_lines(forest_html(s, k, n)) == forest_html(s, k, n + 1),
    decreases s, k,
{
    if k == 0 || k > s.len() {
        assert(indent_lines(Seq::<char>::empty()) =~= Seq::<char>::empty());
    } else {
        let i = (k - 1) as nat;
        lemma_forest_html_indent(s, i, n);
        lemma_html_lines_indent(s[i as int], n);
        lemma_html_lines_start(s[i as int], n);
        lemma_indent_concat(forest_html(s, i, n), html_lines(s[i as int], n));
    }
}

proof fn lemma_nested_children(s: Seq<Dom>, k: nat)
    requires
        forest_line_break_free(s, k),
    ensures
        forest_html(s, k, 1) == nested_children_html(s, k),
    decreases k,
{
    if k > 0 && k <= s.len() {
        let i = (k - 1) as nat;
        lemma_nested_children(s, i);
        let c = s[i as int];
        lemma_html_lines_indent(c, 0);
        lemma_html_lines_start(c, 0);
        lemma_indent_line_break(html_text(c));
        assert(forest_html(s, k, 1) =~= nested_children_html(s, i) + html_lines(c, 1));
        assert(nested_children_html(s, k) =~= nested_children_html(s, i) + ("\r\n    "@ + indent_lines(html_text(c))));
    }
}

/// The HTML of a tree is its root's opening tag and text content, then, if it has
/// children, each child's own HTML on new lines indented by four more spaces, and a
/// line break and the root's closing tag; a childless root without content closes its
/// own tag, one with content ends with a line break and its closing tag. (The children
/// are indented line by line, so this holds where no label, id or class below the root
/// holds a line break `\r\n`: indenting a child's HTML would also indent such a text.)
pub proof fn lemma_html_nesting(d: Dom)
    requires
        forest_line_break_free(d.child_trees(), d.child_trees().len()),
    ensures
        d.child_trees().len() > 0 ==> html_text(d) == start_tag_text(d.root_node()@, false) + (
        match text_content(d.root_node()@.node_type) {
            Some(c) => c,
            None => Seq::empty(),
        }) + nested_children_html(d.child_trees(), d.child_trees().len()) + "\r\n"@
            + end_tag_text(d.root_node()@),
        d.child_trees().len() == 0 ==> html_text(d) == (match text_content(
            d.root_node()@.node_type,
        ) {
            Some(c) => start_tag_text(d.root_node()@, false) + c + "\r\n"@ + end_tag_text(
                d.root_node()@,
            ),
            None => start_tag_text(d.root_node()@, true),
        }),
{
    reveal_strlit("\r\n");
    let m = d.root_node()@;
    let ch = d.child_trees();
    let content = text_content(m.node_type);
    let sc = ch.len() == 0 && content is None;
    let c = match content {
        Some(c) => c,
        None => Seq::<char>::empty(),
    };
    assert(indent_text(0) =~= Seq::<char>::empty());
    let rest = if sc {
        Seq::empty()
    } else {
        forest_html(ch, ch.len(), 1) + "\r\n"@ + indent_text(0) + end_tag_text(m)
    };
    assert(html_lines(d, 0) =~= "\r\n"@ + (start_tag_text(m, sc) + c + rest));
    assert(html_text(d) =~= start_tag_text(m, sc) + c + rest);
    if ch.len() > 0 {
        lemma_nested_children(ch, ch.len());
        assert(html_text(d) =~= start_tag_text(m, false) + c + nested_children_html(ch, ch.len()) + "\r\n"@ + end_tag_text(m));
    } else {
        assert(forest_html(ch, ch.len(), 1) =~= Seq::<char>::empty());
    }
}


/// The texts one after another.
pub open spec fn concat_texts(ys: Seq<Seq<char>>) -> Seq<char>
    decreases ys.len(),
{
    if ys.len() == 0 {
        Seq::empty()
    } else {
        concat_texts(ys.drop_last()) + ys.last()
    }
}

/// The debug description of a tree, given that of its root and the joined ones of its
/// children: `Dom {`, a line break, the root, the recorded number of descendants and
/// the children in brackets, each after a tab, and `}`.
pub open spec fn dom_debug_text(d: Dom, root: Seq<char>, children: Seq<char>) -> Seq<char> {
    "Dom {\r\n"@ + "\troot: "@ + root + "\testimated_total_children: "@ + decimal_text(
        d.estimate() as int,
    ) + "\tchildren: ["@ + children + "\t]"@ + "}"@
}

/// `t` is the debug description of tree `d`: its root's is a debug description of the
/// root node, and its children's are debug descriptions of the child trees.
pub open spec fn is_dom_debug_text(d: Dom, t: Seq<char>) -> bool
    decreases d, 0nat,
{
    exists|x: Seq<char>, ys: Seq<Seq<char>>|
        #![trigger dom_debug_text(d, x, concat_texts(ys))]
        {
            &&& is_node_debug_text(d.root_node()@, x)
            &&& ys.len() == d.child_trees().len()
            &&& forest_debug_ok(d.child_trees(), ys, ys.len())
            &&& t == dom_debug_text(d, x, concat_texts(ys))
        }
}

/// The first `k` texts of `ys` are debug descriptions of the first `k` trees of `s`.
pub open spec fn forest_debug_ok(s: Seq<Dom>, ys: Seq<Seq<char>>, k: nat) -> bool
    decreases s, k,
{
    if k == 0 || k > s.len() {
        true
    } else {
        forest_debug_ok(s, ys, (k - 1) as nat) && is_dom_debug_text(s[k - 1], ys[k - 1])
    }
}

proof fn lemma_forest_debug_ok_extend(s: Seq<Dom>, ys: Seq<Seq<char>>, zs: Seq<Seq<char>>, k: nat)
    requires
        k <= s.len(),
        k <= ys.len(),
        k <= zs.len(),
        forall|j: int| 0 <= j < k ==> ys[j] == zs[j],
        forest_debug_ok(s, ys, k),
    ensures
        forest_debug_ok(s, zs, k),
    decreases k,
{
    if k > 0 {
        lemma_forest_debug_ok_extend(s, ys, zs, (k - 1) as nat);
    }
}

impl Dom {
    /// A debug description of this tree: its root, its recorded number of descendants
    /// and the descriptions of its children.
    pub fn debug_string(&self) -> (r: String)
        ensures
            is_dom_debug_text(*self, r@),
        decreases self,
    {
        let root = self.root.debug_string();
        let n = self.children.len();
        let ghost s = self.children@;
        let mut children = owned("");
        let ghost mut ys: Seq<Seq<char>> = Seq::empty();
        let mut i: usize = 0;
        proof {
            reveal_strlit("");
            assert(children@ =~= concat_texts(ys));
        }
        while i < n
            invariant
                s == self.children@,
                n == s.len(),
                i <= n,
                ys.len() == i,
                forest_debug_ok(s, ys, i as nat),
                children@ == concat_texts(ys),
            decreases n - i,
        {
            proof {
                assert(decreases_to!(self => self.children@[i as int]));
            }
            let c = self.children[i].debug_string();
            children.append(c.as_str());
            proof {
                let old_ys = ys;
                ys = ys.push(c@);
                assert(ys.drop_last() =~= old_ys);
                lemma_forest_debug_ok_extend(s, old_ys, ys, i as nat);
            }
            i = i + 1;
        }
        let mut out = owned("Dom {\r\n");
        out.append("\troot: ");
        out.append(root.as_str());
        out.append("\testimated_total_children: ");
        let est = decimal_string(self.estimated_total_children as i128);
        out.append(est.as_str());
        out.append("\tchildren: [");
        out.append(children.as_str());
        out.append("\t]");
        out.append("}");
        proof {
            assert(out@ =~= dom_debug_text(*self, root@, concat_texts(ys)));
        }
        out
    }
}

/// `{:?}` writes the debug description of the tree.
impl core::fmt::Debug for Dom {
    fn fmt(&self, f: &mut core::fmt::Formatter<'_>) -> core::fmt::Result {
        let s = self.debug_string();
        f.write_str(s.as_str())
    }
}

} // verus!
