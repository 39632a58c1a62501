//! Tests of the tree serializer's wire format: exact bytes, the decode
//! round trip, and the leaf-only text rule.

use asted::{serialize, SyntaxNode};

/// A decoded node, as a wire reader on the other end reconstructs it.
#[derive(Debug, PartialEq)]
struct Decoded {
    kind: Vec<u8>,
    named: bool,
    start: u32,
    end: u32,
    text: Option<Vec<u16>>,
    children: Vec<Decoded>,
}

fn read_u32(b: &[u8], pos: &mut usize) -> u32 {
    let v = u32::from_le_bytes([b[*pos], b[*pos + 1], b[*pos + 2], b[*pos + 3]]);
    *pos += 4;
    v
}

fn read_node(b: &[u8], pos: &mut usize) -> Decoded {
    let klen = read_u32(b, pos) as usize;
    let kind = b[*pos..*pos + klen].to_vec();
    *pos += klen;
    let named = match b[*pos] {
        0 => false,
        1 => true,
        other => panic!("bad named byte: {}", other),
    };
    *pos += 1;
    let start = read_u32(b, pos);
    let end = read_u32(b, pos);
    let count = read_u32(b, pos);
    if count == 0 {
        let n = (end - start) as usize;
        let mut units = Vec::with_capacity(n);
        for _ in 0..n {
            units.push(u16::from_le_bytes([b[*pos], b[*pos + 1]]));
            *pos += 2;
        }
        Decoded { kind, named, start, end, text: Some(units), children: Vec::new() }
    } else {
        let mut children = Vec::with_capacity(count as usize);
        for _ in 0..count {
            children.push(read_node(b, pos));
        }
        Decoded { kind, named, start, end, text: None, children }
    }
}

fn read_message(b: &[u8]) -> Decoded {
    let len = u64::from_le_bytes(b[0..8].try_into().unwrap()) as usize;
    assert_eq!(len, b.len() - 8, "length prefix must frame the payload");
    let mut pos = 8usize;
    let node = read_node(b, &mut pos);
    assert_eq!(pos, b.len(), "decoder must consume the whole message");
    node
}

fn units(s: &str) -> Vec<u16> {
    s.encode_utf16().collect()
}

fn leaf(kind: &str, named: bool, start: u32, end: u32) -> SyntaxNode {
    SyntaxNode {
        kind: kind.as_bytes().to_vec(),
        named,
        start,
        end,
        children: Vec::new(),
    }
}

#[test]
fn single_leaf_exact_bytes() {
    let text = units("a");
    let tree = leaf("x", true, 0, 1);
    let bytes = serialize(&text, &tree);
    let expected: Vec<u8> = vec![
        20, 0, 0, 0, 0, 0, 0, 0, // payload length: 20
        1, 0, 0, 0, // kind length 1
        b'x', // kind
        1,    // named
        0, 0, 0, 0, // start 0
        1, 0, 0, 0, // end 1
        0, 0, 0, 0, // zero children
        b'a', 0, // the one code unit, little endian
    ];
    assert_eq!(bytes, expected);
}

#[test]
fn round_trip_reconstructs_topology_and_leaf_text() {
    let text = units("let x = 1;");
    let tree = SyntaxNode {
        kind: b"program".to_vec(),
        named: true,
        start: 0,
        end: 10,
        children: vec![SyntaxNode {
            kind: b"statement".to_vec(),
            named: true,
            start: 0,
            end: 10,
            children: vec![
                leaf("let", false, 0, 3),
                leaf("identifier", true, 4, 5),
                leaf("=", false, 6, 7),
                leaf("number", true, 8, 9),
                leaf(";", false, 9, 10),
            ],
        }],
    };
    let bytes = serialize(&text, &tree);
    let d = read_message(&bytes);
    assert_eq!(d.kind, b"program".to_vec());
    assert!(d.named);
    assert_eq!((d.start, d.end), (0, 10));
    assert_eq!(d.children.len(), 1);
    let stmt = &d.children[0];
    assert_eq!(stmt.kind, b"statement".to_vec());
    assert_eq!(stmt.children.len(), 5);
    assert_eq!(stmt.children[0].text, Some(units("let")));
    assert_eq!(stmt.children[1].text, Some(units("x")));
    assert_eq!(stmt.children[3].text, Some(units("1")));
    assert_eq!(stmt.children[4].text, Some(units(";")));
}

#[test]
fn leaf_only_text_invariant() {
    let text = units("ab");
    let tree = SyntaxNode {
        kind: b"pair".to_vec(),
        named: true,
        start: 0,
        end: 2,
        children: vec![leaf("a", false, 0, 1), leaf("b", false, 1, 2)],
    };
    let bytes = serialize(&text, &tree);
    let d = read_message(&bytes);
    fn check(d: &Decoded) {
        if d.children.is_empty() {
            let t = d.text.as_ref().expect("leaf must carry text");
            assert_eq!(t.len() as u32, d.end - d.start);
        } else {
            assert!(d.text.is_none(), "non-leaf must not carry text");
            for c in &d.children {
                check(c);
            }
        }
    }
    check(&d);
}

#[test]
fn non_ascii_text_round_trips_in_utf16_units() {
    let source: Vec<char> = "é€".chars().collect();
    let text = asted::encode_utf16_units(&source);
    assert_eq!(text, units("é€"));
    let tree = leaf("string", true, 0, 2);
    let bytes = serialize(&text, &tree);
    let d = read_message(&bytes);
    assert_eq!(d.text, Some(units("é€")));
}

#[test]
fn utf16_encoding_matches_std_for_surrogates() {
    let source: Vec<char> = "a𝄞b".chars().collect();
    let got = asted::encode_utf16_units(&source);
    let want: Vec<u16> = "a𝄞b".encode_utf16().collect();
    assert_eq!(got, want);
    assert_eq!(got.len(), 4, "the supplementary character takes two units");
}
