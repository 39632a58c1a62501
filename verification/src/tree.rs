//! The in-memory model of a syntax tree.
//!
//! The external parsing engine produces an opaque tree; before it is cached
//! or serialized, its structure is read out into [`SyntaxNode`] values, which
//! the library can reason about: a kind tag, a named/anonymous flag, a
//! `[start, end)` range into the source text, and the ordered children.
//!
//! All offsets are indices of UTF-16 code units in the text handed to the
//! engine, the one unit this wire format commits to.

use vstd::prelude::*;

verus! {

/// One node of a syntax tree, in source (pre-order) position.
///
/// `children` is empty exactly for the leaves; leaves are the only nodes
/// whose source text the serializer inlines.
pub struct SyntaxNode {
    /// The grammar's tag for this node, as raw bytes.
    pub kind: Vec<u8>,
    /// Whether the grammar marks this node as named (as opposed to an
    /// anonymous literal token).
    pub named: bool,
    /// Offset of the first UTF-16 code unit covered by this node.
    pub start: u32,
    /// Offset one past the last UTF-16 code unit covered by this node.
    pub end: u32,
    /// The node's children, in source order; empty for a leaf.
    pub children: Vec<SyntaxNode>,
}

/// Well-formedness of every node in `s` against a text of `text_len` units.
pub open spec fn all_wf(s: Seq<SyntaxNode>, text_len: nat) -> bool
    decreases s,
{
    s.len() == 0 || (s[0].wf(text_len) && all_wf(s.drop_first(), text_len))
}

impl SyntaxNode {
    /// Well-formedness against a source text of `text_len` code units: every
    /// range is ordered and stays inside the text, and every kind tag and
    /// child list is small enough for the wire format's 32-bit counters.
    pub open spec fn wf(self, text_len: nat) -> bool
        decreases self,
    {
        &&& self.start <= self.end
        &&& self.end <= text_len
        &&& self.kind@.len() <= u32::MAX
        &&& self.children@.len() <= u32::MAX
        &&& all_wf(self.children@, text_len)
    }

    /// Runtime check of [`SyntaxNode::wf`], for callers that receive a tree
    /// from unverified surroundings.
    pub fn check_wf(&self, text_len: usize) -> (ok: bool)
        ensures
            ok == self.wf(text_len as nat),
        decreases *self,
    {
        if !(self.start <= self.end && self.end as usize <= text_len) {
            return false;
        }
        if !(self.kind.len() as u64 <= u32::MAX as u64) {
            return false;
        }
        if !(self.children.len() as u64 <= u32::MAX as u64) {
            return false;
        }
        let mut i: usize = 0;
        proof {
            assert(self.children@.skip(0) =~= self.children@);
        }
        while i < self.children.len()
            invariant
                i <= self.children@.len(),
                self.start <= self.end,
                self.end <= text_len,
                self.kind@.len() <= u32::MAX,
                self.children@.len() <= u32::MAX,
                all_wf(self.children@, text_len as nat) == all_wf(
                    self.children@.skip(i as int),
                    text_len as nat,
                ),
            decreases self.children@.len() - i,
        {
            let child_ok = self.children[i].check_wf(text_len);
            proof {
                assert(self.children@.skip(i as int)[0] == self.children@[i as int]);
                assert(self.children@.skip(i as int).drop_first() =~= self.children@.skip(
                    i as int + 1,
                ));
            }
            if !child_ok {
                return false;
            }
            i = i + 1;
        }
        proof {
            assert(self.children@.skip(self.children@.len() as int) =~= Seq::<
                SyntaxNode,
            >::empty());
        }
        true
    }
}

/// In a well-formed sibling list every member is well-formed, and conversely.
pub proof fn lemma_all_wf_index(s: Seq<SyntaxNode>, text_len: nat)
    ensures
        all_wf(s, text_len) <==> (forall|i: int|
            0 <= i < s.len() ==> (#[trigger] s[i]).wf(text_len)),
    decreases s,
{
    if s.len() > 0 {
        lemma_all_wf_index(s.drop_first(), text_len);
        if all_wf(s, text_len) {
            assert forall|i: int| 0 <= i < s.len() implies (#[trigger] s[i]).wf(text_len) by {
                if i > 0 {
                    assert(s.drop_first()[i - 1] == s[i]);
                }
            }
        }
        if forall|i: int| 0 <= i < s.len() ==> (#[trigger] s[i]).wf(text_len) {
            assert forall|i: int|
                0 <= i < s.drop_first().len() implies (#[trigger] s.drop_first()[i]).wf(
                text_len,
            ) by {
                assert(s.drop_first()[i] == s[i + 1]);
            }
        }
    }
}

} // verus!
