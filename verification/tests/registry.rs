//! Tests of the session registry.

use asted::{handle_request, encode_init_request, ProtoError, Registry, Step};

fn bytes(s: &str) -> Vec<u8> {
    s.as_bytes().to_vec()
}

#[test]
fn get_or_create_is_idempotent() {
    let mut r = Registry::new();
    let a = r.get_or_create_session(&bytes("global"));
    let b = r.get_or_create_session(&bytes("global"));
    assert_eq!(a, b);
    assert_eq!(r.sessions.len(), 1);
}

#[test]
fn sessions_are_isolated_by_key() {
    let mut r = Registry::new();
    let a = r.get_or_create_session(&bytes("alpha"));
    let b = r.get_or_create_session(&bytes("beta"));
    assert_ne!(a, b);
    assert_eq!(r.sessions.len(), 2);

    match handle_request(r.session_at_mut(a), &encode_init_request(&bytes("typescript"))) {
        Step::Reply(v) => assert!(v.is_empty()),
        _ => panic!("init must succeed"),
    }
    assert!(r.session_at(a).lang.is_some(), "the configured session changed");
    assert!(r.session_at(b).lang.is_none(), "the other session is untouched");
}

#[test]
fn fresh_session_rejects_file_requests() {
    let mut r = Registry::new();
    let i = r.get_or_create_session(&bytes("global"));
    let body = asted::encode_file_request(&bytes("/tmp/a.ts"));
    match handle_request(r.session_at_mut(i), &body) {
        Step::Reject(ProtoError::EngineNotConfigured) => {}
        _ => panic!("expected EngineNotConfigured"),
    }
}
