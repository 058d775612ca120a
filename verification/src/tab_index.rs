use vstd::prelude::*;

verus! {

/// Whether and in which order a node can receive keyboard focus.
#[derive(Debug, Copy, Clone, PartialEq, Eq, Structural, Ord, PartialOrd, Hash)]
pub enum TabIndex {
    /// Automatic tab index, similar to `focusable = "true"` or `tabindex = 0`.
    Auto,
    /// Sets the tab index in relation to the parent element: among siblings,
    /// `OverrideInParent` elements are focused in the order of their numbers,
    /// before elements with a global order.
    OverrideInParent(u32),
    /// The element can be focused in callbacks, but is not reachable via
    /// keyboard / tab navigation (`-1`).
    NoKeyboardFocus,
}

/// The HTML-compatible `tabindex` number of a tab index.
pub open spec fn html_tab_index(t: TabIndex) -> isize {
    match t {
        TabIndex::Auto => 0isize,
        TabIndex::OverrideInParent(x) => x as isize,
        TabIndex::NoKeyboardFocus => -1isize,
    }
}

impl TabIndex {
    /// Returns the HTML-compatible number of the `tabindex` element
    pub fn get_index(&self) -> (r: isize)
        ensures
            r == html_tab_index(*self),
    {
        match self {
            TabIndex::Auto => 0,
            TabIndex::OverrideInParent(x) => *x as isize,
            TabIndex::NoKeyboardFocus => -1,
        }
    }
}

impl Default for TabIndex {
    fn default() -> (r: TabIndex)
        ensures
            r == TabIndex::Auto,
    {
        TabIndex::Auto
    }
}

/// The `tabindex` number of an explicit override is the override itself whenever it
/// fits in an `isize` (always, on 64-bit targets); automatic indices are `0` and
/// non-keyboard-focusable ones `-1`, so only explicit overrides are positive.
pub proof fn lemma_tab_index_number(t: TabIndex)
    ensures
        forall|x: u32| t == TabIndex::OverrideInParent(x) && x <= isize::MAX ==> html_tab_index(t) == x,
        t == TabIndex::Auto ==> html_tab_index(t) == 0,
        t == TabIndex::NoKeyboardFocus ==> html_tab_index(t) == -1,
        html_tab_index(t) < 0 && usize::BITS == 64 ==> t == TabIndex::NoKeyboardFocus,
{
    if let TabIndex::OverrideInParent(x) = t {
        if x <= isize::MAX {
            assert(x as isize == x);
        }
        if usize::BITS == 64 {
            assert(isize::MAX > u32::MAX);
            assert(x as isize == x);
        }
    }
}

/// The HTML `tabindex` of a tab index is negative exactly for a node that keyboard
/// navigation skips, zero for automatic order (and for position zero), and the
/// position itself for a position among siblings (where the position fits in an
/// `isize`, which it always does on 64-bit machines).
pub proof fn lemma_html_tab_index(t: TabIndex)
    requires
        t matches TabIndex::OverrideInParent(x) ==> x <= isize::MAX,
    ensures
        html_tab_index(t) < 0 <==> t is NoKeyboardFocus,
        html_tab_index(t) == 0 <==> (t is Auto || t == TabIndex::OverrideInParent(0)),
        t matches TabIndex::OverrideInParent(x) ==> html_tab_index(t) == x,
{
}

} // verus!
