//! Session state: one parser-engine handle and one per-file tree cache.
//!
//! A session owns the exclusive engine handle for its language and a file
//! table mapping canonical file identities to the most recent successfully
//! parsed tree.  The engine is not safe for concurrent use, so a server
//! wraps each session in a mutual-exclusion lock; within the library a
//! session is plain, single-writer state.  That one engine handle per
//! session is the architectural bottleneck: all parses and configuration
//! changes of a session serialize on it, in arrival order, while requests
//! to different sessions stay fully independent.
//!
//! The cache entry for a file also keeps the engine's own opaque tree, so a
//! later reparse of the same file can hand it back as the incremental seed.

use vstd::prelude::*;

use crate::errors::ProtoError;
use crate::tree::SyntaxNode;

verus! {

/// The compiled-in grammars a session can be configured for.
#[derive(Clone, Copy, Debug, PartialEq, Eq, Structural)]
pub enum LangTag {
    /// The TypeScript grammar.
    Typescript,
}

/// One file's cache entry: its canonical identity, the readable model of its
/// latest tree, and the engine's opaque tree kept as the incremental seed.
pub struct FileEntry {
    /// The canonical file identity (an absolute path).
    pub path: Vec<u8>,
    /// The model of the most recent successfully parsed tree.
    pub model: SyntaxNode,
    /// The engine's own tree, reused to seed the next incremental parse.
    pub seed: tree_sitter::Tree,
}

/// One session: the exclusive engine handle, its configured language, and
/// the file table.  Entries are only ever replaced whole, never updated in
/// part, and are discarded only with the session itself.
pub struct Session {
    /// The engine handle; configured by `configure_language`.
    pub parser: tree_sitter::Parser,
    /// The language the engine is configured for, if any yet.
    pub lang: Option<LangTag>,
    /// The file table; later entries win, and `store_tree` keeps identities
    /// unique by replacing in place.
    pub files: Vec<FileEntry>,
}

/// The cache lookup: the model stored by the latest `store_tree` for this
/// identity, if any.
pub open spec fn spec_find(s: Seq<FileEntry>, path: Seq<u8>) -> Option<SyntaxNode>
    decreases s,
{
    if s.len() == 0 {
        None
    } else if s.last().path@ == path {
        Some(s.last().model)
    } else {
        spec_find(s.drop_last(), path)
    }
}

/// What one `store_tree` call does to the cache, observed through lookups:
/// the stored identity now maps to the new model and every other identity is
/// untouched.
pub open spec fn store_post(
    before: Seq<FileEntry>,
    after: Seq<FileEntry>,
    path: Seq<u8>,
    model: SyntaxNode,
) -> bool {
    forall|q: Seq<u8>|
        #[trigger] spec_find(after, q) == if q == path {
            Some(model)
        } else {
            spec_find(before, q)
        }
}

/// The language names `configure_language` accepts.
pub open spec fn spec_supported(lang: Seq<u8>) -> bool {
    lang == spec_typescript_name()
}

/// The bytes of the one supported language name.
pub open spec fn spec_typescript_name() -> Seq<u8> {
    seq![116u8, 121u8, 112u8, 101u8, 115u8, 99u8, 114u8, 105u8, 112u8, 116u8]
}

/// What a configuration request does to the configured language: a
/// supported name selects its grammar, an unsupported one changes nothing.
pub open spec fn spec_configure_lang(before: Option<LangTag>, req: Seq<u8>) -> Option<LangTag> {
    if spec_supported(req) {
        Some(LangTag::Typescript)
    } else {
        before
    }
}

/// Byte-for-byte equality of two buffers.
pub fn bytes_eq(a: &Vec<u8>, b: &Vec<u8>) -> (r: bool)
    ensures
        r == (a@ == b@),
{
    if a.len() != b.len() {
        return false;
    }
    let mut i: usize = 0;
    while i < a.len()
        invariant
            i <= a@.len(),
            a@.len() == b@.len(),
            forall|j: int| 0 <= j < i ==> a@[j] == b@[j],
        decreases a@.len() - i,
    {
        if a[i] != b[i] {
            return false;
        }
        i = i + 1;
    }
    proof {
        assert(a@ =~= b@);
    }
    true
}

/// The name of the one supported language, `"typescript"`, as bytes.
pub fn typescript_name() -> (v: Vec<u8>)
    ensures
        v@ == spec_typescript_name(),
{
    let mut v: Vec<u8> = Vec::new();
    v.push(116u8);
    v.push(121u8);
    v.push(112u8);
    v.push(101u8);
    v.push(115u8);
    v.push(99u8);
    v.push(114u8);
    v.push(105u8);
    v.push(112u8);
    v.push(116u8);
    proof {
        assert(v@ =~= spec_typescript_name());
    }
    v
}

impl Session {
    /// A fresh session: engine handle allocated, no language configured, no
    /// cached trees.
    pub fn new() -> (s: Session)
        ensures
            s.lang is None,
            s.files@.len() == 0,
    {
        Session { parser: crate::engine::engine_new_parser(), lang: None, files: Vec::new() }
    }

    /// Configures the engine for `lang`.
    ///
    /// An unsupported name is rejected with `UnknownLanguage` (carrying the
    /// name) and leaves the whole session — engine included — untouched.  A
    /// supported name either succeeds, leaving the cache untouched, or is
    /// rejected by the engine itself with `EngineFailure`, again with
    /// nothing changed.
    pub fn configure_language(&mut self, lang: &Vec<u8>) -> (r: Result<(), ProtoError>)
        ensures
            (r matches Err(ProtoError::UnknownLanguage(l)) && l@ == lang@) <==> !spec_supported(
                lang@,
            ),
            !spec_supported(lang@) ==> *final(self) == *old(self),
            r is Ok ==> final(self).lang == spec_configure_lang(old(self).lang, lang@)
                && final(self).files == old(self).files,
            spec_supported(lang@) && r is Err ==> r matches Err(ProtoError::EngineFailure),
            r is Err ==> *final(self) == *old(self),
    {
        let name = typescript_name();
        if bytes_eq(lang, &name) {
            let language = crate::engine::typescript_language();
            if crate::engine::engine_set_language(&mut self.parser, language) {
                self.lang = Some(LangTag::Typescript);
                Ok(())
            } else {
                Err(ProtoError::EngineFailure)
            }
        } else {
            Err(ProtoError::UnknownLanguage(clone_bytes(lang)))
        }
    }

    /// The model of the most recent tree stored for this identity, if any: a
    /// read-only snapshot of the cache entry.
    pub fn get_previous_tree(&self, path: &Vec<u8>) -> (r: Option<&SyntaxNode>)
        ensures
            match r {
                Some(m) => spec_find(self.files@, path@) == Some(*m),
                None => spec_find(self.files@, path@) is None,
            },
    {
        let mut i: usize = self.files.len();
        proof {
            assert(self.files@.subrange(0, i as int) =~= self.files@);
        }
        while i > 0
            invariant
                i <= self.files@.len(),
                spec_find(self.files@, path@) == spec_find(
                    self.files@.subrange(0, i as int),
                    path@,
                ),
            decreases i,
        {
            proof {
                let pre = self.files@.subrange(0, i as int);
                assert(pre.last() == self.files@[i - 1]);
                assert(pre.drop_last() =~= self.files@.subrange(0, i - 1));
            }
            if bytes_eq(&self.files[i - 1].path, path) {
                return Some(&self.files[i - 1].model);
            }
            i = i - 1;
        }
        None
    }

    /// Installs `model` (and the engine's `seed` tree) as the cache entry
    /// for `path`, replacing any previous entry for the same identity whole.
    /// The configured language is untouched.
    pub fn store_tree(&mut self, path: &Vec<u8>, model: SyntaxNode, seed: tree_sitter::Tree)
        ensures
            final(self).lang == old(self).lang,
            final(self).parser == old(self).parser,
            store_post(old(self).files@, final(self).files@, path@, model),
    {
        let entry = FileEntry { path: clone_bytes(path), model, seed };
        let ghost entry_g = entry;
        let mut i: usize = self.files.len();
        while i > 0
            invariant
                i <= self.files@.len(),
                entry == entry_g,
                entry_g.path@ == path@,
                entry_g.model == model,
                self.files == old(self).files,
                self.lang == old(self).lang,
                self.parser == old(self).parser,
                forall|j: int| i <= j < self.files@.len() ==> self.files@[j].path@ != path@,
            decreases i,
        {
            if bytes_eq(&self.files[i - 1].path, path) {
                let ghost before = self.files@;
                self.files.set(i - 1, entry);
                proof {
                    let after = self.files@;
                    assert(after == before.update(i - 1, entry_g));
                    assert forall|q: Seq<u8>|
                        #[trigger] spec_find(after, q) == if q == path@ {
                            Some(model)
                        } else {
                            spec_find(before, q)
                        } by {
                        lemma_find_update_one(before, i - 1, entry_g, path@, q);
                    }
                }
                return ;
            }
            i = i - 1;
        }
        let ghost before = self.files@;
        self.files.push(entry);
        proof {
            let after = self.files@;
            assert forall|q: Seq<u8>|
                #[trigger] spec_find(after, q) == if q == path@ {
                    Some(model)
                } else {
                    spec_find(before, q)
                } by {
                assert(after.last() == entry_g);
                assert(after.drop_last() =~= before);
            }
        }
    }
}

/// A copy of a byte buffer.
pub(crate) fn clone_bytes(src: &Vec<u8>) -> (r: Vec<u8>)
    ensures
        r@ == src@,
{
    let mut r: Vec<u8> = Vec::new();
    let mut i: usize = 0;
    while i < src.len()
        invariant
            i <= src@.len(),
            r@ == src@.subrange(0, i as int),
        decreases src@.len() - i,
    {
        r.push(src[i]);
        proof {
            assert(src@.subrange(0, i as int) + seq![src@[i as int]] =~= src@.subrange(
                0,
                i as int + 1,
            ));
        }
        i = i + 1;
    }
    proof {
        assert(src@.subrange(0, src@.len() as int) =~= src@);
    }
    r
}

/// Replacing the last entry that carries an identity rewrites what lookups
/// see for that identity and nothing else.
proof fn lemma_find_update_one(s: Seq<FileEntry>, i: int, e: FileEntry, p: Seq<u8>, q: Seq<u8>)
    requires
        0 <= i < s.len(),
        s[i].path@ == p,
        e.path@ == p,
        forall|j: int| i < j < s.len() ==> s[j].path@ != p,
    ensures
        spec_find(s.update(i, e), q) == if q == p {
            Some(e.model)
        } else {
            spec_find(s, q)
        },
    decreases s,
{
    let u = s.update(i, e);
    if i == s.len() - 1 {
        assert(u.last() == e);
        assert(u.drop_last() =~= s.drop_last());
        if q != p {
            assert(s.last() == s[i]);
        }
    } else {
        assert(u.last() == s.last());
        assert(u.drop_last() =~= s.drop_last().update(i, e));
        assert(s.last().path@ != p);
        lemma_find_update_one(s.drop_last(), i, e, p, q);
    }
}

/// Idempotent reconfiguration: configuring a supported language twice (or a
/// request that changes nothing, twice) leaves the same configured language
/// as configuring it once.
pub proof fn lemma_configure_idempotent(before: Option<LangTag>, req: Seq<u8>)
    ensures
        spec_configure_lang(spec_configure_lang(before, req), req) == spec_configure_lang(
            before,
            req,
        ),
{
}

/// Cache overwrite: after two sequential stores for the same identity, a
/// lookup sees only the second tree — the first is unreachable.
pub proof fn lemma_cache_overwrite(
    s0: Seq<FileEntry>,
    s1: Seq<FileEntry>,
    s2: Seq<FileEntry>,
    p: Seq<u8>,
    t1: SyntaxNode,
    t2: SyntaxNode,
)
    requires
        store_post(s0, s1, p, t1),
        store_post(s1, s2, p, t2),
    ensures
        spec_find(s2, p) == Some(t2),
        forall|q: Seq<u8>| q != p ==> #[trigger] spec_find(s2, q) == spec_find(s0, q),
{
}


impl Session {
    /// A copy of the engine's cached tree for this identity, if any, for
    /// use as the seed of an incremental reparse.
    pub(crate) fn clone_seed(&self, path: &Vec<u8>) -> (r: Option<tree_sitter::Tree>) {
        let mut i: usize = self.files.len();
        while i > 0
            invariant
                i <= self.files@.len(),
            decreases i,
        {
            if bytes_eq(&self.files[i - 1].path, path) {
                return Some(crate::engine::engine_tree_clone(&self.files[i - 1].seed));
            }
            i = i - 1;
        }
        None
    }
}

} // verus!
