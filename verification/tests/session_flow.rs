//! End-to-end tests of the dispatcher and session cache, with the real
//! parsing engine linked in.

use asted::{
    encode_file_request, encode_init_request, finish_file, handle_request, provide_file,
    serialize, FileProbe, FileStep, ProtoError, Session, Step, SyntaxNode,
};

fn bytes(s: &str) -> Vec<u8> {
    s.as_bytes().to_vec()
}

/// Reads the engine's opaque tree out into the library's model.  Offsets
/// are halved: the engine counts bytes of the UTF-16 stream, the library
/// counts code units.
fn model_of(node: tree_sitter::Node) -> SyntaxNode {
    let mut children = Vec::new();
    for i in 0..node.child_count() {
        children.push(model_of(node.child(i).unwrap()));
    }
    SyntaxNode {
        kind: node.kind().as_bytes().to_vec(),
        named: node.is_named(),
        start: (node.start_byte() / 2) as u32,
        end: (node.end_byte() / 2) as u32,
        children,
    }
}

/// Runs one full FileRequest cycle: dispatch, probe, parse, convert, finish.
fn run_file_request(s: &mut Session, location: &str, content: &str) -> Result<Vec<u8>, ProtoError> {
    let body = encode_file_request(&bytes(location));
    let path = match handle_request(s, &body) {
        Step::ReadFile(p) => p,
        Step::Reject(e) => return Err(e),
        Step::Reply(_) => panic!("a FileRequest cannot be answered before the file is read"),
    };
    let probe = FileProbe::Text(content.chars().collect());
    match provide_file(s, &path, probe) {
        FileStep::Parsed(tree, units) => {
            let model = model_of(tree.root_node());
            finish_file(s, &path, &units, model, tree)
        }
        FileStep::Reject(e) => Err(e),
    }
}

#[test]
fn file_request_before_init_is_engine_not_configured() {
    let mut s = Session::new();
    let body = encode_file_request(&bytes("/tmp/a.ts"));
    match handle_request(&mut s, &body) {
        Step::Reject(ProtoError::EngineNotConfigured) => {}
        _ => panic!("expected EngineNotConfigured"),
    }
    assert!(s.get_previous_tree(&bytes("/tmp/a.ts")).is_none(), "no cache entry may appear");
}

#[test]
fn init_with_supported_language_replies_empty() {
    let mut s = Session::new();
    match handle_request(&mut s, &encode_init_request(&bytes("typescript"))) {
        Step::Reply(v) => assert!(v.is_empty()),
        _ => panic!("expected an empty success reply"),
    }
}

#[test]
fn init_twice_is_idempotent() {
    let mut s = Session::new();
    assert!(s.configure_language(&bytes("typescript")).is_ok());
    let lang_once = s.lang;
    let files_once = s.files.len();
    assert!(s.configure_language(&bytes("typescript")).is_ok());
    assert_eq!(s.lang, lang_once);
    assert_eq!(s.files.len(), files_once);
}

#[test]
fn unknown_language_rejected_without_mutation() {
    let mut s = Session::new();
    assert!(s.configure_language(&bytes("typescript")).is_ok());
    let first = run_file_request(&mut s, "/tmp/a.ts", "let x = 1;").expect("parse must succeed");
    match handle_request(&mut s, &encode_init_request(&bytes("python"))) {
        Step::Reject(ProtoError::UnknownLanguage(name)) => assert_eq!(name, bytes("python")),
        _ => panic!("expected UnknownLanguage"),
    }
    let again = run_file_request(&mut s, "/tmp/a.ts", "let x = 1;")
        .expect("the previously configured language must still work");
    assert_eq!(first, again);
}

#[test]
fn typescript_scenario_with_reparse() {
    let mut s = Session::new();
    match handle_request(&mut s, &encode_init_request(&bytes("typescript"))) {
        Step::Reply(v) => assert!(v.is_empty()),
        _ => panic!("init must succeed"),
    }

    let reply1 = run_file_request(&mut s, "/tmp/a.ts", "let x = 1;").expect("first parse");
    let root1 = read_root(&reply1);
    assert_eq!(root1.kind, bytes("program"));
    assert_eq!((root1.start, root1.end), (0, 10), "the root spans the whole text");
    assert_eq!(root1.children.len(), 1, "exactly one statement child");

    let reply2 = run_file_request(&mut s, "/tmp/a.ts", "let x = 2;").expect("reparse");
    assert_ne!(reply1, reply2, "the leaf text of the number literal differs");

    let prev = s.get_previous_tree(&bytes("/tmp/a.ts")).expect("cache entry");
    let units2: Vec<u16> = "let x = 2;".encode_utf16().collect();
    assert_eq!(
        serialize(&units2, prev),
        reply2,
        "the cached tree is the updated one, not the first"
    );
}

#[test]
fn cache_overwrite_keeps_only_the_second_tree() {
    let mut s = Session::new();
    assert!(s.configure_language(&bytes("typescript")).is_ok());
    let reply1 = run_file_request(&mut s, "/tmp/f.ts", "let a = 1;").expect("first");
    let reply2 = run_file_request(&mut s, "/tmp/f.ts", "let a = 9;").expect("second");
    assert_ne!(reply1, reply2, "the second parse carries the new leaf text");
    let prev = s.get_previous_tree(&bytes("/tmp/f.ts")).expect("cache entry");
    let units2: Vec<u16> = "let a = 9;".encode_utf16().collect();
    assert_eq!(
        serialize(&units2, prev),
        reply2,
        "the lookup reflects only the second result"
    );
}

#[test]
fn directory_target_is_not_a_file() {
    let mut s = Session::new();
    assert!(s.configure_language(&bytes("typescript")).is_ok());
    let body = encode_file_request(&bytes("file:///etc"));
    let path = match handle_request(&mut s, &body) {
        Step::ReadFile(p) => p,
        _ => panic!("the location must resolve"),
    };
    assert_eq!(path, bytes("/etc"));
    match provide_file(&mut s, &path, FileProbe::Directory) {
        FileStep::Reject(ProtoError::NotAFile(p)) => assert_eq!(p, bytes("/etc")),
        _ => panic!("expected NotAFile"),
    }
    assert!(s.get_previous_tree(&path).is_none());
}

#[test]
fn missing_and_unreadable_probes_map_to_their_errors() {
    let mut s = Session::new();
    assert!(s.configure_language(&bytes("typescript")).is_ok());
    let path = bytes("/tmp/gone.ts");
    assert!(matches!(
        provide_file(&mut s, &path, FileProbe::Missing),
        FileStep::Reject(ProtoError::FileNotFound(_))
    ));
    assert!(matches!(
        provide_file(&mut s, &path, FileProbe::Unreadable),
        FileStep::Reject(ProtoError::IoError(_))
    ));
}

/// A decoded root node: enough of the wire reader for these tests.
struct Root {
    kind: Vec<u8>,
    start: u32,
    end: u32,
    children: Vec<()>,
}

fn read_root(b: &[u8]) -> Root {
    let mut pos = 8usize;
    let mut u32_at = |pos: &mut usize| {
        let v = u32::from_le_bytes([b[*pos], b[*pos + 1], b[*pos + 2], b[*pos + 3]]);
        *pos += 4;
        v
    };
    let klen = u32_at(&mut pos) as usize;
    let kind = b[pos..pos + klen].to_vec();
    pos += klen;
    pos += 1; // named flag
    let start = u32_at(&mut pos);
    let end = u32_at(&mut pos);
    let count = u32_at(&mut pos);
    Root { kind, start, end, children: vec![(); count as usize] }
}
