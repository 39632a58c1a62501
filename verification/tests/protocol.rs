//! Tests of the request envelope codec and the location resolution rules.

use asted::{decode_request, encode_file_request, encode_init_request, ProtoError, Request};

fn bytes(s: &str) -> Vec<u8> {
    s.as_bytes().to_vec()
}

#[test]
fn init_request_round_trips() {
    let body = encode_init_request(&bytes("typescript"));
    match decode_request(&body) {
        Ok(Request::Init { lang }) => assert_eq!(lang, bytes("typescript")),
        other => panic!("expected InitRequest, got {:?}", other.is_ok()),
    }
}

#[test]
fn file_request_round_trips() {
    let body = encode_file_request(&bytes("file:///tmp/a.ts"));
    match decode_request(&body) {
        Ok(Request::File { location }) => assert_eq!(location, bytes("file:///tmp/a.ts")),
        other => panic!("expected FileRequest, got {:?}", other.is_ok()),
    }
}

#[test]
fn unknown_tag_is_rejected_as_unknown_command() {
    let mut body = encode_init_request(&bytes("x"));
    body[0] = 9;
    let err = decode_request(&body).unwrap_err();
    assert!(matches!(err, ProtoError::UnknownCommand(9)));
    assert_eq!(err.status_code(), 400);
}

#[test]
fn truncated_envelope_is_a_decode_error() {
    let err = decode_request(&vec![1, 2, 0]).unwrap_err();
    assert!(matches!(err, ProtoError::DecodeError));
    assert_eq!(err.status_code(), 500);
}

#[test]
fn wrong_length_field_is_a_decode_error() {
    let mut body = encode_file_request(&bytes("/tmp/a.ts"));
    body[1] = body[1].wrapping_add(1);
    assert!(matches!(decode_request(&body), Err(ProtoError::DecodeError)));
}

#[test]
fn bare_absolute_path_resolves_to_itself() {
    assert_eq!(asted::resolve_location(&bytes("/tmp/a.ts")).unwrap(), bytes("/tmp/a.ts"));
}

#[test]
fn relative_path_is_invalid() {
    let err = asted::resolve_location(&bytes("tmp/a.ts")).unwrap_err();
    assert!(matches!(err, ProtoError::InvalidFilePath(_)));
}

#[test]
fn file_uri_resolves_to_path() {
    assert_eq!(asted::resolve_location(&bytes("file:///etc")).unwrap(), bytes("/etc"));
    assert_eq!(asted::resolve_location(&bytes("file:/direct")).unwrap(), bytes("/direct"));
    assert_eq!(
        asted::resolve_location(&bytes("file://localhost/tmp/z")).unwrap(),
        bytes("/tmp/z")
    );
}

#[test]
fn file_uri_scheme_is_case_insensitive_and_decoded() {
    assert_eq!(
        asted::resolve_location(&bytes("File:///a%20b?q=1#frag")).unwrap(),
        bytes("/a b")
    );
}

#[test]
fn foreign_scheme_is_rejected_with_the_scheme() {
    let err = asted::resolve_location(&bytes("https://example.com/x")).unwrap_err();
    match err {
        ProtoError::UnsupportedScheme(s) => assert_eq!(s, bytes("https")),
        other => panic!("expected UnsupportedScheme, got {:?}", other),
    }
}

#[test]
fn remote_file_host_is_invalid() {
    let err = asted::resolve_location(&bytes("file://evil/x")).unwrap_err();
    assert!(matches!(err, ProtoError::InvalidFilePath(_)));
}
