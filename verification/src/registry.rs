//! The session registry: session state keyed by an opaque session key.
//!
//! One well-known key suffices for a single-tenant deployment, but the
//! registry supports any number of concurrent sessions.  It is constructed
//! explicitly and passed by reference — owned by the server's top-level
//! context, not an ambient global — so tests can build a fresh one.  A
//! server that handles requests concurrently wraps it (or each session) in
//! its own synchronization; the registry itself is plain state.

use vstd::prelude::*;

use crate::session::bytes_eq;
use crate::session::Session;

verus! {

/// One registered session and its key.
pub struct RegEntry {
    /// The opaque session key.
    pub key: Vec<u8>,
    /// The session's state.
    pub session: Session,
}

/// All sessions, in registration order; keys are unique.
pub struct Registry {
    /// The registered sessions.
    pub sessions: Vec<RegEntry>,
}

/// The first index carrying `key`, if any.
pub open spec fn spec_key_index(s: Seq<RegEntry>, key: Seq<u8>) -> Option<int>
    decreases s,
{
    if s.len() == 0 {
        None
    } else if s[0].key@ == key {
        Some(0)
    } else {
        match spec_key_index(s.drop_first(), key) {
            Some(i) => Some(i + 1),
            None => None,
        }
    }
}

impl Registry {
    /// An empty registry with no sessions.
    pub fn new() -> (r: Registry)
        ensures
            r.sessions@.len() == 0,
    {
        Registry { sessions: Vec::new() }
    }

    /// The index of the session for `key`, creating a fresh session for it
    /// first if none exists yet.  Idempotent: when the key is already
    /// registered, nothing changes and the same index comes back.
    pub fn get_or_create_session(&mut self, key: &Vec<u8>) -> (i: usize)
        ensures
            i < final(self).sessions@.len(),
            final(self).sessions@[i as int].key@ == key@,
            spec_key_index(final(self).sessions@, key@) == Some(i as int),
            spec_key_index(old(self).sessions@, key@) matches Some(j) ==> (j == i as int
                && *final(self) == *old(self)),
            spec_key_index(old(self).sessions@, key@) is None ==> {
                let before = old(self).sessions@;
                let after = final(self).sessions@;
                &&& after.len() == before.len() + 1
                &&& i == before.len()
                &&& after[i as int].session.lang is None
                &&& after[i as int].session.files@.len() == 0
                &&& forall|k: int| 0 <= k < before.len() ==> after[k] == before[k]
            },
    {
        let mut i: usize = 0;
        while i < self.sessions.len()
            invariant
                i <= self.sessions@.len(),
                self.sessions == old(self).sessions,
                forall|k: int| 0 <= k < i ==> #[trigger] self.sessions@[k].key@ != key@,
            decreases self.sessions@.len() - i,
        {
            if bytes_eq(&self.sessions[i].key, key) {
                proof {
                    lemma_key_index_first(self.sessions@, key@, i as int);
                }
                return i;
            }
            i = i + 1;
        }
        let entry = RegEntry { key: crate::session::clone_bytes(key), session: Session::new() };
        let n = self.sessions.len();
        self.sessions.push(entry);
        proof {
            lemma_key_index_first(self.sessions@, key@, n as int);
            lemma_key_index_none(old(self).sessions@, key@);
        }
        n
    }

    /// A read-only borrow of the session at a registry index.
    pub fn session_at(&self, i: usize) -> (s: &Session)
        requires
            i < self.sessions@.len(),
        ensures
            *s == self.sessions@[i as int].session,
    {
        &self.sessions[i].session
    }

    /// An exclusive borrow of the session at a registry index, for running
    /// requests against it.
    pub fn session_at_mut(&mut self, i: usize) -> (s: &mut Session)
        requires
            i < old(self).sessions@.len(),
        ensures
            *s == old(self).sessions@[i as int].session,
            final(self).sessions@ == old(self).sessions@.update(
                i as int,
                RegEntry { key: old(self).sessions@[i as int].key, session: *final(s) },
            ),
    {
        &mut self.sessions[i].session
    }
}

/// When everything before `i` misses the key and `i` hits it, `i` is the
/// first index for the key.
proof fn lemma_key_index_first(s: Seq<RegEntry>, key: Seq<u8>, i: int)
    requires
        0 <= i < s.len(),
        s[i].key@ == key,
        forall|k: int| 0 <= k < i ==> #[trigger] s[k].key@ != key,
    ensures
        spec_key_index(s, key) == Some(i),
    decreases s,
{
    if i > 0 {
        assert(s.drop_first()[i - 1] == s[i]);
        assert forall|k: int| 0 <= k < i - 1 implies #[trigger] s.drop_first()[k].key@ != key by {
            assert(s.drop_first()[k] == s[k + 1]);
        }
        lemma_key_index_first(s.drop_first(), key, i - 1);
    }
}

/// When every index misses the key, there is no index for it.
proof fn lemma_key_index_none(s: Seq<RegEntry>, key: Seq<u8>)
    requires
        forall|k: int| 0 <= k < s.len() ==> #[trigger] s[k].key@ != key,
    ensures
        spec_key_index(s, key) is None,
    decreases s,
{
    if s.len() > 0 {
        assert forall|k: int| 0 <= k < s.drop_first().len() implies #[trigger] s.drop_first()[k].key@
            != key by {
            assert(s.drop_first()[k] == s[k + 1]);
        }
        lemma_key_index_none(s.drop_first(), key);
    }
}

} // verus!
