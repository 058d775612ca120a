use vstd::prelude::*;
use crate::text::{
    decimal_string, decimal_text, digits_value, lemma_decimal_digits_injective,
    lemma_decimal_digits_value, owned,
};

verus! {

/// Unique tag that is used to annotate which rectangles are relevant for hit-testing
#[derive(Copy, Clone, PartialEq, Eq, Structural, Hash, Ord, PartialOrd)]
pub struct TagId(pub u64);

/// Same as the `TagId`, but only for scrollable nodes
#[derive(Copy, Clone, PartialEq, Eq, Structural, Hash, Ord, PartialOrd)]
pub struct ScrollTagId(pub TagId);

/// Calculated hash of a DOM node, used for querying attributes of the DOM node
#[derive(Debug, Copy, Clone, Hash, PartialEq, Eq, Structural, Ord, PartialOrd)]
pub struct DomHash(pub u64);

/// The source of fresh tag ids: holds the id that the next tag receives.
/// Ids start at 1; like an atomic counter, the counter wraps around after
/// `usize::MAX`.
pub struct TagIdCounter {
    next: usize,
}

/// The counter value after `c`, wrapping around after `usize::MAX`.
pub open spec fn wrapping_succ(c: usize) -> usize {
    if c == usize::MAX {
        0
    } else {
        (c + 1) as usize
    }
}

/// The counter value after `i` tags were taken from a counter at `start`.
pub open spec fn counter_after(start: usize, i: nat) -> usize
    decreases i,
{
    if i == 0 {
        start
    } else {
        wrapping_succ(counter_after(start, (i - 1) as nat))
    }
}

impl TagIdCounter {
    /// The id that the next tag taken from this counter receives.
    pub closed spec fn next_value(&self) -> usize {
        self.next
    }

    /// A fresh counter, whose first tag is 1.
    pub fn new() -> (r: TagIdCounter)
        ensures
            r.next_value() == 1,
    {
        TagIdCounter { next: 1 }
    }
}

impl TagId {
    /// Takes the next tag id from the counter.
    pub fn new(counter: &mut TagIdCounter) -> (r: TagId)
        ensures
            r.0 == old(counter).next_value(),
            final(counter).next_value() == wrapping_succ(old(counter).next_value()),
    {
        let id = counter.next;
        counter.next = counter.next.wrapping_add(1);
        TagId(id as u64)
    }

    /// The debug description of this tag, the same as its text.
    pub fn debug_string(&self) -> (r: String)
        ensures
            r@ == tag_text(self.0),
    {
        self.to_string()
    }

    /// Restarts the counter, so that the next tag is 1 again.
    pub fn reset(counter: &mut TagIdCounter)
        ensures
            final(counter).next_value() == 1,
    {
        counter.next = 1;
    }

    /// The text of this tag: `ScrollTagId(<id>)`.
    pub fn to_string(&self) -> (r: String)
        ensures
            r@ == tag_text(self.0),
    {
        let mut s = owned("ScrollTagId(");
        let n = decimal_string(self.0 as i128);
        s.append(n.as_str());
        s.append(")");
        proof {
            reveal_strlit("ScrollTagId(");
            reveal_strlit(")");
        }
        s
    }
}

/// The text of a tag id, as both `TagId` and `ScrollTagId` print it.
pub open spec fn tag_text(id: u64) -> Seq<char> {
    "ScrollTagId("@ + decimal_text(id as int) + ")"@
}

impl ScrollTagId {
    /// Takes the next tag id from the counter, for a scrollable node.
    pub fn new(counter: &mut TagIdCounter) -> (r: ScrollTagId)
        ensures
            (r.0).0 == old(counter).next_value(),
            final(counter).next_value() == wrapping_succ(old(counter).next_value()),
    {
        ScrollTagId(TagId::new(counter))
    }

    /// The text of this tag: `ScrollTagId(<id>)`.
    pub fn to_string(&self) -> (r: String)
        ensures
            r@ == tag_text((self.0).0),
    {
        self.0.to_string()
    }

    /// The debug description of this tag, the same as its text.
    pub fn debug_string(&self) -> (r: String)
        ensures
            r@ == tag_text((self.0).0),
    {
        self.0.to_string()
    }
}

/// Taking `i` tags from a counter at `start` moves it on by `i`, modulo the size of `usize`.
proof fn lemma_counter_after_mod(start: usize, i: nat)
    ensures
        counter_after(start, i) == (start + i) % (usize::MAX + 1),
    decreases i,
{
    if i == 0 {
        vstd::arithmetic::div_mod::lemma_small_mod(start as nat, (usize::MAX + 1) as nat);
    } else {
        lemma_counter_after_mod(start, (i - 1) as nat);
        let m: int = usize::MAX + 1;
        let prev: int = (start + i - 1) % m;
        vstd::arithmetic::div_mod::lemma_add_mod_noop(start + i - 1, 1, m);
        vstd::arithmetic::div_mod::lemma_small_mod(1, m as nat);
        if prev == usize::MAX {
            vstd::arithmetic::div_mod::lemma_mod_self_0(m);
        } else {
            vstd::arithmetic::div_mod::lemma_small_mod((prev + 1) as nat, m as nat);
        }
    }
}

/// Tags taken one after another from one counter are pairwise distinct, as long as
/// no more than `usize::MAX + 1` of them are taken, wherever the counter started.
pub proof fn lemma_tags_distinct(start: usize, i: nat, j: nat)
    requires
        i < j <= usize::MAX,
    ensures
        counter_after(start, i) != counter_after(start, j),
{
    lemma_counter_after_mod(start, i);
    lemma_counter_after_mod(start, j);
    let m: int = usize::MAX + 1;
    let a: int = start + i;
    let b: int = start + j;
    vstd::arithmetic::div_mod::lemma_fundamental_div_mod(a, m);
    vstd::arithmetic::div_mod::lemma_fundamental_div_mod(b, m);
    let qa: int = a / m;
    let qb: int = b / m;
    assert(a % m != b % m) by (nonlinear_arith)
        requires
            a == m * qa + a % m,
            b == m * qb + b % m,
            0 < b - a < m,
            m > 0,
    {
        if a % m == b % m {
            assert(b - a == m * (qb - qa));
            if qb - qa <= 0 {
                assert(m * (qb - qa) <= 0);
            } else {
                assert(m * (qb - qa) >= m);
            }
        }
    }
}

/// After a reset, the `i`-th tag taken (counting from 0) is `i + 1`, for the first
/// `usize::MAX` tags.
pub proof fn lemma_tags_after_reset(i: nat)
    requires
        i < usize::MAX,
    ensures
        counter_after(1, i) == i + 1,
{
    lemma_counter_after_mod(1, i);
    vstd::arithmetic::div_mod::lemma_small_mod((1 + i) as nat, (usize::MAX + 1) as nat);
}

/// `{:?}` writes the text of the tag, `ScrollTagId(<id>)`.
impl core::fmt::Debug for TagId {
    fn fmt(&self, f: &mut core::fmt::Formatter<'_>) -> core::fmt::Result {
        let s = self.debug_string();
        f.write_str(s.as_str())
    }
}

/// `{:?}` writes the text of the tag, `ScrollTagId(<id>)`.
impl core::fmt::Debug for ScrollTagId {
    fn fmt(&self, f: &mut core::fmt::Formatter<'_>) -> core::fmt::Result {
        let s = self.debug_string();
        f.write_str(s.as_str())
    }
}

/// The text of a tag is `ScrollTagId(`, its id in decimal digits, and `)`: the digits
/// read back as the id, and different ids give different texts.
pub proof fn lemma_tag_text(a: u64, b: u64)
    ensures
        tag_text(a).len() >= 14,
        digits_value(tag_text(a).subrange(12, tag_text(a).len() - 1)) == a,
        (tag_text(a) == tag_text(b)) <==> a == b,
{
    reveal_strlit("ScrollTagId(");
    reveal_strlit(")");
    let ta = tag_text(a);
    let tb = tag_text(b);
    lemma_decimal_digits_value(a as nat);
    crate::text::lemma_decimal_digits_len(a as nat);
    assert(ta.subrange(12, ta.len() - 1) =~= decimal_text(a as int));
    assert(tb.subrange(12, tb.len() - 1) =~= decimal_text(b as int));
    if ta == tb {
        lemma_decimal_digits_injective(a as nat, b as nat);
    }
}

} // verus!
