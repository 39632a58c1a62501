//! Re-encoding source text into UTF-16 code units.
//!
//! The external parsing engine defines its offsets over UTF-16 code units,
//! so every file's text is re-encoded before parsing.  This conversion is
//! load-bearing for position correctness, not cosmetic: all ranges in cached
//! and serialized trees are indices into the sequence produced here.

use vstd::prelude::*;

verus! {

/// The UTF-16 encoding of one Unicode scalar value: one code unit for the
/// basic multilingual plane, a surrogate pair above it.
pub open spec fn utf16_char(c: char) -> Seq<u16> {
    let v = c as u32;
    if v < 0x10000 {
        seq![v as u16]
    } else {
        seq![
            (0xD800 + ((v - 0x10000) / 0x400)) as u16,
            (0xDC00 + ((v - 0x10000) % 0x400)) as u16,
        ]
    }
}

/// The UTF-16 encoding of a whole text, character by character.
pub open spec fn utf16_encode(s: Seq<char>) -> Seq<u16>
    decreases s.len(),
{
    if s.len() == 0 {
        Seq::empty()
    } else {
        utf16_char(s[0]) + utf16_encode(s.drop_first())
    }
}

/// Encodes `text` into the UTF-16 code units the parsing engine expects.
pub fn encode_utf16_units(text: &Vec<char>) -> (units: Vec<u16>)
    ensures
        units@ == utf16_encode(text@),
{
    let mut units: Vec<u16> = Vec::new();
    let mut i: usize = 0;
    proof {
        assert(text@.skip(0) =~= text@);
    }
    while i < text.len()
        invariant
            i <= text@.len(),
            utf16_encode(text@) == units@ + utf16_encode(text@.skip(i as int)),
        decreases text@.len() - i,
    {
        let c = text[i];
        let v = c as u32;
        proof {
            vstd::utf8::char_is_scalar(c);
            assert(text@.skip(i as int)[0] == text@[i as int]);
            assert(text@.skip(i as int).drop_first() =~= text@.skip(i as int + 1));
        }
        if v < 0x10000 {
            units.push(v as u16);
        } else {
            units.push((0xD800 + ((v - 0x10000) / 0x400)) as u16);
            units.push((0xDC00 + ((v - 0x10000) % 0x400)) as u16);
        }
        i = i + 1;
    }
    proof {
        assert(text@.skip(text@.len() as int) =~= Seq::<char>::empty());
    }
    units
}

} // verus!
