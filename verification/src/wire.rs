//! The binary wire format for syntax trees.
//!
//! A serialized tree is a single envelope: an 8-byte little-endian length,
//! then the root node.  Each node is, in order: the length of its kind tag
//! (4 bytes little endian) and the tag bytes; one byte for the named flag;
//! start and end offsets (4 bytes little endian each, counted in UTF-16 code
//! units of the parsed text); the child count (4 bytes little endian); then
//! either the node's source text as little-endian code units — only when the
//! node has zero children — or the children, serialized in order.
//!
//! Internal nodes never embed text: it is fully recoverable from their
//! descendant leaves, and inlining it would duplicate it at every ancestor
//! level.  This is a deliberate size optimization of the format.

use vstd::prelude::*;

use crate::tree::all_wf;
use crate::tree::SyntaxNode;

verus! {

/// The little-endian bytes of a 16-bit value.
pub open spec fn le16(v: u16) -> Seq<u8> {
    seq![(v & 0xff) as u8, ((v >> 8) & 0xff) as u8]
}

/// The little-endian bytes of a 32-bit value.
pub open spec fn le32(v: u32) -> Seq<u8> {
    seq![
        (v & 0xff) as u8,
        ((v >> 8) & 0xff) as u8,
        ((v >> 16) & 0xff) as u8,
        ((v >> 24) & 0xff) as u8,
    ]
}

/// The little-endian bytes of a 64-bit value.
pub open spec fn le64(v: u64) -> Seq<u8> {
    seq![
        (v & 0xff) as u8,
        ((v >> 8) & 0xff) as u8,
        ((v >> 16) & 0xff) as u8,
        ((v >> 24) & 0xff) as u8,
        ((v >> 32) & 0xff) as u8,
        ((v >> 40) & 0xff) as u8,
        ((v >> 48) & 0xff) as u8,
        ((v >> 56) & 0xff) as u8,
    ]
}

/// The encoding of a run of UTF-16 code units, unit by unit.
pub open spec fn enc_units(s: Seq<u16>) -> Seq<u8>
    decreases s,
{
    if s.len() == 0 {
        Seq::empty()
    } else {
        le16(s[0]) + enc_units(s.drop_first())
    }
}

/// The encoding of one node (without the envelope).
pub open spec fn enc_node(text: Seq<u16>, n: SyntaxNode) -> Seq<u8>
    decreases n,
{
    le32(n.kind@.len() as u32) + (n.kind@ + (seq![if n.named { 1u8 } else { 0u8 }] + (le32(n.start)
        + (le32(n.end) + (le32(n.children@.len() as u32) + (if n.children@.len() == 0 {
        enc_units(text.subrange(n.start as int, n.end as int))
    } else {
        enc_list(text, n.children@)
    }))))))
}

/// The encoding of a sibling list, in source order.
pub open spec fn enc_list(text: Seq<u16>, s: Seq<SyntaxNode>) -> Seq<u8>
    decreases s,
{
    if s.len() == 0 {
        Seq::empty()
    } else {
        enc_node(text, s[0]) + enc_list(text, s.drop_first())
    }
}

/// The whole wire message: an 8-byte little-endian payload length, then the
/// root node.
pub open spec fn spec_serialize(text: Seq<u16>, n: SyntaxNode) -> Seq<u8> {
    le64(enc_node(text, n).len() as u64) + enc_node(text, n)
}

/// Appends the little-endian bytes of `v` to `out`.
fn push_le16(out: &mut Vec<u8>, v: u16)
    ensures
        final(out)@ == old(out)@ + le16(v),
{
    proof {
        assert(v & 0xff < 256) by (bit_vector);
        assert((v >> 8) & 0xff < 256) by (bit_vector);
    }
    out.push((v & 0xff) as u8);
    out.push(((v >> 8) & 0xff) as u8);
    proof {
        assert(out@ =~= old(out)@ + le16(v));
    }
}

/// Appends the little-endian bytes of `v` to `out`.
fn push_le32(out: &mut Vec<u8>, v: u32)
    ensures
        final(out)@ == old(out)@ + le32(v),
{
    proof {
        assert(v & 0xff < 256) by (bit_vector);
        assert((v >> 8) & 0xff < 256) by (bit_vector);
        assert((v >> 16) & 0xff < 256) by (bit_vector);
        assert((v >> 24) & 0xff < 256) by (bit_vector);
    }
    out.push((v & 0xff) as u8);
    out.push(((v >> 8) & 0xff) as u8);
    out.push(((v >> 16) & 0xff) as u8);
    out.push(((v >> 24) & 0xff) as u8);
    proof {
        assert(out@ =~= old(out)@ + le32(v));
    }
}

/// Appends the little-endian bytes of `v` to `out`.
fn push_le64(out: &mut Vec<u8>, v: u64)
    ensures
        final(out)@ == old(out)@ + le64(v),
{
    proof {
        assert(v & 0xff < 256) by (bit_vector);
        assert((v >> 8) & 0xff < 256) by (bit_vector);
        assert((v >> 16) & 0xff < 256) by (bit_vector);
        assert((v >> 24) & 0xff < 256) by (bit_vector);
        assert((v >> 32) & 0xff < 256) by (bit_vector);
        assert((v >> 40) & 0xff < 256) by (bit_vector);
        assert((v >> 48) & 0xff < 256) by (bit_vector);
        assert((v >> 56) & 0xff < 256) by (bit_vector);
    }
    out.push((v & 0xff) as u8);
    out.push(((v >> 8) & 0xff) as u8);
    out.push(((v >> 16) & 0xff) as u8);
    out.push(((v >> 24) & 0xff) as u8);
    out.push(((v >> 32) & 0xff) as u8);
    out.push(((v >> 40) & 0xff) as u8);
    out.push(((v >> 48) & 0xff) as u8);
    out.push(((v >> 56) & 0xff) as u8);
    proof {
        assert(out@ =~= old(out)@ + le64(v));
    }
}

/// Appends all of `src` to `out`.
fn push_bytes(out: &mut Vec<u8>, src: &Vec<u8>)
    ensures
        final(out)@ == old(out)@ + src@,
{
    let mut i: usize = 0;
    while i < src.len()
        invariant
            i <= src@.len(),
            out@ == old(out)@ + src@.subrange(0, i as int),
        decreases src@.len() - i,
    {
        out.push(src[i]);
        proof {
            assert(old(out)@ + src@.subrange(0, i as int) + seq![src@[i as int]] =~= old(out)@
                + src@.subrange(0, i as int + 1));
        }
        i = i + 1;
    }
    proof {
        assert(src@.subrange(0, src@.len() as int) =~= src@);
    }
}

/// Serializes one node into `out`, depth first.
fn encode_node_into(text: &Vec<u16>, n: &SyntaxNode, out: &mut Vec<u8>)
    requires
        n.wf(text@.len()),
    ensures
        final(out)@ == old(out)@ + enc_node(text@, *n),
    decreases *n,
{
    push_le32(out, n.kind.len() as u32);
    push_bytes(out, &n.kind);
    if n.named {
        out.push(1u8);
    } else {
        out.push(0u8);
    }
    push_le32(out, n.start);
    push_le32(out, n.end);
    push_le32(out, n.children.len() as u32);
    let ghost header: Seq<u8> = out@;
    if n.children.len() == 0 {
        let ghost units: Seq<u16> = text@.subrange(n.start as int, n.end as int);
        let mut j: usize = n.start as usize;
        proof {
            assert(text@.subrange(n.start as int, n.end as int) =~= units);
        }
        while j < n.end as usize
            invariant
                n.start <= j <= n.end,
                n.wf(text@.len()),
                units == text@.subrange(n.start as int, n.end as int),
                header + enc_units(units) == out@ + enc_units(
                    text@.subrange(j as int, n.end as int),
                ),
            decreases n.end as int - j,
        {
            proof {
                let r = text@.subrange(j as int, n.end as int);
                assert(r[0] == text@[j as int]);
                assert(r.drop_first() =~= text@.subrange(j as int + 1, n.end as int));
            }
            push_le16(out, text[j]);
            j = j + 1;
        }
        proof {
            assert(text@.subrange(n.end as int, n.end as int) =~= Seq::<u16>::empty());
            assert(header + enc_units(units) =~= out@);
        }
    } else {
        let mut k: usize = 0;
        proof {
            assert(n.children@.skip(0) =~= n.children@);
        }
        while k < n.children.len()
            invariant
                k <= n.children@.len(),
                n.wf(text@.len()),
                header + enc_list(text@, n.children@) == out@ + enc_list(
                    text@,
                    n.children@.skip(k as int),
                ),
            decreases n.children@.len() - k,
        {
            proof {
                crate::tree::lemma_all_wf_index(n.children@, text@.len());
                let r = n.children@.skip(k as int);
                assert(r[0] == n.children@[k as int]);
                assert(r.drop_first() =~= n.children@.skip(k as int + 1));
            }
            encode_node_into(text, &n.children[k], out);
            proof {
                assert(header + enc_list(text@, n.children@) =~= out@ + enc_list(
                    text@,
                    n.children@.skip(k as int + 1),
                ));
            }
            k = k + 1;
        }
        proof {
            assert(n.children@.skip(n.children@.len() as int) =~= Seq::<SyntaxNode>::empty());
            assert(header + enc_list(text@, n.children@) =~= out@);
        }
    }
    proof {
        assert(out@ =~= old(out)@ + enc_node(text@, *n));
    }
}

/// Serializes a whole tree against the text it was parsed from, wrapping it
/// in the length-prefixed envelope.
///
/// Deterministic and total over any well-formed tree; the output's size is
/// linear in the number of nodes plus the text covered by the leaves.
pub fn serialize(text: &Vec<u16>, tree: &SyntaxNode) -> (out: Vec<u8>)
    requires
        tree.wf(text@.len()),
    ensures
        out@ == spec_serialize(text@, *tree),
{
    let mut payload: Vec<u8> = Vec::new();
    encode_node_into(text, tree, &mut payload);
    let mut out: Vec<u8> = Vec::new();
    push_le64(&mut out, payload.len() as u64);
    push_bytes(&mut out, &payload);
    proof {
        assert(out@ =~= spec_serialize(text@, *tree));
    }
    out
}


/// What one wire message denotes: the node structure a decoder on the other
/// end of the wire reconstructs, text payloads included.
#[verifier::ext_equal]
pub struct WireNode {
    /// The node's kind tag.
    pub kind: Seq<u8>,
    /// The node's named/anonymous flag.
    pub named: bool,
    /// First covered UTF-16 code unit.
    pub start: u32,
    /// One past the last covered UTF-16 code unit.
    pub end: u32,
    /// The inlined source text: present exactly for leaves.
    pub text: Option<Seq<u16>>,
    /// The decoded children, in source order.
    pub children: Seq<WireNode>,
}

/// The 16-bit value stored as two little-endian bytes.
pub open spec fn u16_of(b0: u8, b1: u8) -> u16 {
    (b0 as u16) | ((b1 as u16) << 8)
}

/// The 32-bit value stored as four little-endian bytes.
pub open spec fn u32_of(b0: u8, b1: u8, b2: u8, b3: u8) -> u32 {
    (b0 as u32) | ((b1 as u32) << 8) | ((b2 as u32) << 16) | ((b3 as u32) << 24)
}

/// Decodes a 32-bit little-endian value, returning it and the rest.
pub open spec fn dec_u32(b: Seq<u8>) -> Option<(u32, Seq<u8>)> {
    if b.len() >= 4 {
        Some((u32_of(b[0], b[1], b[2], b[3]), b.skip(4)))
    } else {
        None
    }
}

/// Decodes exactly `k` UTF-16 code units.
pub open spec fn dec_units(k: nat, b: Seq<u8>) -> Option<(Seq<u16>, Seq<u8>)>
    decreases k,
{
    if k == 0 {
        Some((Seq::empty(), b))
    } else if b.len() >= 2 {
        match dec_units((k - 1) as nat, b.skip(2)) {
            Some(r) => Some((seq![u16_of(b[0], b[1])] + r.0, r.1)),
            None => None,
        }
    } else {
        None
    }
}

/// Decodes one node from the head of `b`, returning it and the rest.
///
/// A node whose child count is zero carries exactly `end - start` inlined
/// code units; any other node carries its children instead.
pub open spec fn dec_node(b: Seq<u8>) -> Option<(WireNode, Seq<u8>)>
    decreases b.len(), 0nat,
{
    match dec_u32(b) {
        None => None,
        Some((klen, b1)) => if b1.len() >= klen {
            let kind = b1.take(klen as int);
            let b2 = b1.skip(klen as int);
            if b2.len() >= 1 && (b2[0] == 0 || b2[0] == 1) {
                let named = b2[0] == 1;
                let b3 = b2.skip(1);
                match dec_u32(b3) {
                    None => None,
                    Some((start, b4)) => match dec_u32(b4) {
                        None => None,
                        Some((end, b5)) => match dec_u32(b5) {
                            None => None,
                            Some((count, b6)) => if count == 0 {
                                if start <= end {
                                    match dec_units((end - start) as nat, b6) {
                                        Some((units, rest)) => Some(
                                            (
                                                WireNode {
                                                    kind,
                                                    named,
                                                    start,
                                                    end,
                                                    text: Some(units),
                                                    children: Seq::empty(),
                                                },
                                                rest,
                                            ),
                                        ),
                                        None => None,
                                    }
                                } else {
                                    None
                                }
                            } else {
                                if b6.len() < b.len() {
                                    match dec_children(count as nat, b6) {
                                        Some((children, rest)) => Some(
                                            (
                                                WireNode {
                                                    kind,
                                                    named,
                                                    start,
                                                    end,
                                                    text: None,
                                                    children,
                                                },
                                                rest,
                                            ),
                                        ),
                                        None => None,
                                    }
                                } else {
                                    None
                                }
                            },
                        },
                    },
                }
            } else {
                None
            }
        } else {
            None
        },
    }
}

/// Decodes exactly `k` sibling nodes.
pub open spec fn dec_children(k: nat, b: Seq<u8>) -> Option<(Seq<WireNode>, Seq<u8>)>
    decreases b.len(), k,
{
    if k == 0 {
        Some((Seq::empty(), b))
    } else {
        match dec_node(b) {
            Some((n, rest)) => if rest.len() < b.len() {
                match dec_children((k - 1) as nat, rest) {
                    Some((ns, rest2)) => Some((seq![n] + ns, rest2)),
                    None => None,
                }
            } else {
                None
            },
            None => None,
        }
    }
}

/// Decodes a whole wire message: the envelope, then exactly one tree.
pub open spec fn spec_deserialize(b: Seq<u8>) -> Option<WireNode> {
    if b.len() >= 8 {
        match dec_node(b.skip(8)) {
            Some((n, rest)) => if rest.len() == 0 {
                Some(n)
            } else {
                None
            },
            None => None,
        }
    } else {
        None
    }
}

/// The wire denotation of a tree: same kind, flag, range and child topology,
/// with each leaf's slice of the source text inlined.
pub open spec fn wire_of(text: Seq<u16>, n: SyntaxNode) -> WireNode
    decreases n,
{
    WireNode {
        kind: n.kind@,
        named: n.named,
        start: n.start,
        end: n.end,
        text: if n.children@.len() == 0 {
            Some(text.subrange(n.start as int, n.end as int))
        } else {
            None
        },
        children: wire_list(text, n.children@),
    }
}

/// The wire denotation of a sibling list.
pub open spec fn wire_list(text: Seq<u16>, s: Seq<SyntaxNode>) -> Seq<WireNode>
    decreases s,
{
    if s.len() == 0 {
        Seq::empty()
    } else {
        seq![wire_of(text, s[0])] + wire_list(text, s.drop_first())
    }
}


proof fn lemma_dec_u32_le32(v: u32, t: Seq<u8>)
    ensures
        dec_u32(le32(v) + t) == Some((v, t)),
{
    let b = le32(v) + t;
    assert(b.skip(4) =~= t);
    let x0 = (v & 0xff) as u8;
    let x1 = ((v >> 8) & 0xff) as u8;
    let x2 = ((v >> 16) & 0xff) as u8;
    let x3 = ((v >> 24) & 0xff) as u8;
    assert(v & 0xff < 256 && (v >> 8) & 0xff < 256 && (v >> 16) & 0xff < 256 && (v >> 24) & 0xff
        < 256) by (bit_vector);
    assert(((v & 0xff) as u8 as u32) | (((v >> 8) & 0xff) as u8 as u32) << 8 | (((v >> 16) & 0xff)
        as u8 as u32) << 16 | (((v >> 24) & 0xff) as u8 as u32) << 24 == v) by (bit_vector);
    assert(u32_of(x0, x1, x2, x3) == v);
    assert(b[0] == x0 && b[1] == x1 && b[2] == x2 && b[3] == x3);
}

proof fn lemma_dec_enc_units(s: Seq<u16>, t: Seq<u8>)
    ensures
        dec_units(s.len(), enc_units(s) + t) == Some((s, t)),
    decreases s,
{
    let b = enc_units(s) + t;
    if s.len() == 0 {
        assert(b =~= t);
        assert(s =~= Seq::<u16>::empty());
    } else {
        let u = s[0];
        let rest = s.drop_first();
        assert(b =~= le16(u) + (enc_units(rest) + t));
        let y0 = (u & 0xff) as u8;
        let y1 = ((u >> 8) & 0xff) as u8;
        assert(b[0] == y0 && b[1] == y1);
        assert(u & 0xff < 256 && (u >> 8) & 0xff < 256) by (bit_vector);
        assert(((u & 0xff) as u8 as u16) | (((u >> 8) & 0xff) as u8 as u16) << 8 == u)
            by (bit_vector);
        assert(u16_of(y0, y1) == u);
        assert(b.skip(2) =~= enc_units(rest) + t);
        lemma_dec_enc_units(rest, t);
        assert(seq![u] + rest =~= s);
    }
}

#[verifier::rlimit(100)]
proof fn lemma_dec_enc_node(text: Seq<u16>, n: SyntaxNode, t: Seq<u8>)
    requires
        n.wf(text.len()),
    ensures
        dec_node(enc_node(text, n) + t) == Some((wire_of(text, n), t)),
    decreases n, 1nat,
{
    let kl = n.kind@.len() as u32;
    let cc = n.children@.len() as u32;
    let nb: Seq<u8> = seq![if n.named { 1u8 } else { 0u8 }];
    let payload: Seq<u8> = if n.children@.len() == 0 {
        enc_units(text.subrange(n.start as int, n.end as int))
    } else {
        enc_list(text, n.children@)
    };
    let b = enc_node(text, n) + t;
    let t1 = n.kind@ + (nb + (le32(n.start) + (le32(n.end) + (le32(cc) + (payload + t)))));
    assert(b =~= le32(kl) + t1);
    lemma_dec_u32_le32(kl, t1);
    assert(t1.take(kl as int) =~= n.kind@);
    let t2 = nb + (le32(n.start) + (le32(n.end) + (le32(cc) + (payload + t))));
    assert(t1.skip(kl as int) =~= t2);
    assert(t2[0] == (if n.named { 1u8 } else { 0u8 }));
    let t3 = le32(n.start) + (le32(n.end) + (le32(cc) + (payload + t)));
    assert(t2.skip(1) =~= t3);
    lemma_dec_u32_le32(n.start, le32(n.end) + (le32(cc) + (payload + t)));
    lemma_dec_u32_le32(n.end, le32(cc) + (payload + t));
    lemma_dec_u32_le32(cc, payload + t);
    if n.children@.len() == 0 {
        let units = text.subrange(n.start as int, n.end as int);
        lemma_dec_enc_units(units, t);
        assert(units.len() == n.end - n.start);
        assert(dec_node(b) == Some((wire_of(text, n), t)));
    } else {
        assert((payload + t).len() < b.len());
        lemma_dec_enc_list(text, n.children@, t);
        assert(dec_node(b) == Some((wire_of(text, n), t)));
    }
}

proof fn lemma_dec_enc_list(text: Seq<u16>, s: Seq<SyntaxNode>, t: Seq<u8>)
    requires
        all_wf(s, text.len()),
    ensures
        dec_children(s.len(), enc_list(text, s) + t) == Some((wire_list(text, s), t)),
    decreases s, 0nat,
{
    let b = enc_list(text, s) + t;
    if s.len() == 0 {
        assert(b =~= t);
    } else {
        let rest = s.drop_first();
        assert(b =~= enc_node(text, s[0]) + (enc_list(text, rest) + t));
        lemma_dec_enc_node(text, s[0], enc_list(text, rest) + t);
        assert((enc_list(text, rest) + t).len() < b.len());
        lemma_dec_enc_list(text, rest, t);
        assert(seq![wire_of(text, s[0])] + wire_list(text, rest) =~= wire_list(text, s));
        assert(dec_children(s.len(), b) == Some((wire_list(text, s), t)));
    }
}

/// Round trip: decoding a serialized tree reconstructs exactly its wire
/// denotation — the same kind, range, flag and child topology, and for each
/// leaf the matching slice of the source text.
pub proof fn lemma_serialize_round_trip(text: Seq<u16>, n: SyntaxNode)
    requires
        n.wf(text.len()),
    ensures
        spec_deserialize(spec_serialize(text, n)) == Some(wire_of(text, n)),
{
    let b = spec_serialize(text, n);
    assert(b.skip(8) =~= enc_node(text, n) + Seq::<u8>::empty());
    lemma_dec_enc_node(text, n, Seq::empty());
}


/// The leaf-only text invariant over a decoded tree: a text payload is
/// present exactly on the nodes without children, and its length is exactly
/// `end - start` code units.
pub open spec fn wire_texts_ok(w: WireNode) -> bool
    decreases w,
{
    &&& (w.text is Some <==> w.children.len() == 0)
    &&& (w.text matches Some(units) ==> units.len() == w.end - w.start)
    &&& wire_list_texts_ok(w.children)
}

/// The leaf-only text invariant over a decoded sibling list.
pub open spec fn wire_list_texts_ok(s: Seq<WireNode>) -> bool
    decreases s,
{
    s.len() == 0 || (wire_texts_ok(s[0]) && wire_list_texts_ok(s.drop_first()))
}

/// Leaf-only text: in the wire form of any well-formed tree, no non-leaf
/// node carries a text payload, and every leaf carries one of exactly
/// `end - start` code units.
pub proof fn lemma_leaf_only_text(text: Seq<u16>, n: SyntaxNode)
    requires
        n.wf(text.len()),
    ensures
        wire_texts_ok(wire_of(text, n)),
    decreases n, 1nat,
{
    if n.children@.len() == 0 {
        assert(wire_list_texts_ok(Seq::<WireNode>::empty()));
    } else {
        lemma_leaf_only_list(text, n.children@);
        assert(wire_list(text, n.children@).len() > 0);
    }
}

proof fn lemma_leaf_only_list(text: Seq<u16>, s: Seq<SyntaxNode>)
    requires
        all_wf(s, text.len()),
    ensures
        wire_list_texts_ok(wire_list(text, s)),
        wire_list(text, s).len() == s.len(),
    decreases s, 0nat,
{
    if s.len() > 0 {
        lemma_leaf_only_text(text, s[0]);
        lemma_leaf_only_list(text, s.drop_first());
        assert(wire_list(text, s)[0] == wire_of(text, s[0]));
        assert(wire_list(text, s).drop_first() =~= wire_list(text, s.drop_first()));
    }
}


/// Reassembling the four little-endian bytes of a value gives it back.
pub(crate) proof fn lemma_le32_value(v: u32)
    ensures
        u32_of(le32(v)[0], le32(v)[1], le32(v)[2], le32(v)[3]) == v,
{
    assert(v & 0xff < 256 && (v >> 8) & 0xff < 256 && (v >> 16) & 0xff < 256 && (v >> 24) & 0xff
        < 256) by (bit_vector);
    assert(((v & 0xff) as u8 as u32) | (((v >> 8) & 0xff) as u8 as u32) << 8 | (((v >> 16) & 0xff)
        as u8 as u32) << 16 | (((v >> 24) & 0xff) as u8 as u32) << 24 == v) by (bit_vector);
}

} // verus!
