//! The request protocol dispatcher.
//!
//! A request envelope is one tag byte — 1 for `InitRequest`, 2 for
//! `FileRequest` — followed by the payload's length (4 bytes little endian)
//! and the payload itself: the language name for an `InitRequest`, the file
//! location for a `FileRequest`.
//!
//! Reading a file and walking the engine's opaque tree are work the library
//! cannot do itself, so a request is processed in steps, each a total
//! function over session state: [`handle_request`] decodes, validates and
//! either answers outright or asks for the file's text; [`provide_file`]
//! re-encodes the text and runs the engine over it; [`finish_file`] installs
//! the new tree in the cache and serializes the reply.  Every rejection is
//! terminal and leaves all session state exactly as it was.

use vstd::prelude::*;

use crate::errors::ProtoError;
use crate::resolve::resolve_location;
use crate::resolve::spec_resolve;
use crate::resolve::Resolved;
use crate::session::spec_supported;
use crate::session::store_post;
use crate::session::LangTag;
use crate::session::Session;
use crate::tree::SyntaxNode;
use crate::utf16::encode_utf16_units;
use crate::utf16::utf16_encode;
use crate::wire::le32;
use crate::wire::serialize;
use crate::wire::spec_serialize;
use crate::wire::u32_of;

verus! {

/// A decoded request.
#[derive(Debug)]
pub enum Request {
    /// Configure the session's parser for a language.
    Init {
        /// The language name, as raw bytes.
        lang: Vec<u8>,
    },
    /// (Re)parse one file and answer with its serialized tree.
    File {
        /// The file's location: a bare absolute path or a `file:` URI.
        location: Vec<u8>,
    },
}

/// What a request envelope denotes.
pub enum ReqModel {
    /// A well-formed `InitRequest` and its language name.
    Init(Seq<u8>),
    /// A well-formed `FileRequest` and its location.
    File(Seq<u8>),
    /// A well-framed envelope with an unrecognized tag.
    UnknownTag(u8),
    /// Too short, or a length field that does not match the body.
    Malformed,
}

/// The envelope grammar: tag, payload length, payload, nothing after.
pub open spec fn spec_decode_request(b: Seq<u8>) -> ReqModel {
    if b.len() < 5 {
        ReqModel::Malformed
    } else if b.len() - 5 != u32_of(b[1], b[2], b[3], b[4]) {
        ReqModel::Malformed
    } else if b[0] == 1 {
        ReqModel::Init(b.skip(5))
    } else if b[0] == 2 {
        ReqModel::File(b.skip(5))
    } else {
        ReqModel::UnknownTag(b[0])
    }
}

/// Decodes a request envelope, checking the tag before interpreting the
/// payload.  A malformed envelope is rejected with `DecodeError`, a
/// well-framed envelope with an unknown tag with `UnknownCommand`.
pub fn decode_request(body: &Vec<u8>) -> (r: Result<Request, ProtoError>)
    ensures
        match spec_decode_request(body@) {
            ReqModel::Init(l) => r matches Ok(Request::Init { lang }) && lang@ == l,
            ReqModel::File(p) => r matches Ok(Request::File { location }) && location@ == p,
            ReqModel::UnknownTag(t) => r matches Err(ProtoError::UnknownCommand(u)) && u == t,
            ReqModel::Malformed => r matches Err(ProtoError::DecodeError),
        },
{
    if body.len() < 5 {
        return Err(ProtoError::DecodeError);
    }
    let plen = u32_from_bytes(body[1], body[2], body[3], body[4]);
    if body.len() - 5 != plen as usize {
        return Err(ProtoError::DecodeError);
    }
    let tag = body[0];
    if tag == 1 {
        let lang = crate::resolve::sub_bytes(body, 5, body.len());
        proof {
            assert(body@.subrange(5, body@.len() as int) =~= body@.skip(5));
        }
        Ok(Request::Init { lang })
    } else if tag == 2 {
        let location = crate::resolve::sub_bytes(body, 5, body.len());
        proof {
            assert(body@.subrange(5, body@.len() as int) =~= body@.skip(5));
        }
        Ok(Request::File { location })
    } else {
        Err(ProtoError::UnknownCommand(tag))
    }
}

/// The 32-bit value stored as four little-endian bytes.
fn u32_from_bytes(b0: u8, b1: u8, b2: u8, b3: u8) -> (v: u32)
    ensures
        v == u32_of(b0, b1, b2, b3),
{
    (b0 as u32) | ((b1 as u32) << 8) | ((b2 as u32) << 16) | ((b3 as u32) << 24)
}

/// Builds the envelope around one tag and payload.
fn encode_envelope(tag: u8, payload: &Vec<u8>) -> (r: Vec<u8>)
    requires
        payload@.len() <= u32::MAX,
    ensures
        r@.len() == 5 + payload@.len(),
        r@[0] == tag,
        u32_of(r@[1], r@[2], r@[3], r@[4]) == payload@.len(),
        r@.skip(5) == payload@,
{
    let mut r: Vec<u8> = Vec::new();
    r.push(tag);
    let len = payload.len() as u32;
    proof {
        crate::wire::lemma_le32_value(len);
    }
    r.push((len & 0xff) as u8);
    r.push(((len >> 8) & 0xff) as u8);
    r.push(((len >> 16) & 0xff) as u8);
    r.push(((len >> 24) & 0xff) as u8);
    let mut i: usize = 0;
    while i < payload.len()
        invariant
            i <= payload@.len(),
            r@.len() == 5 + i,
            r@[0] == tag,
            r@[1] == le32(len)[0] && r@[2] == le32(len)[1] && r@[3] == le32(len)[2] && r@[4]
                == le32(len)[3],
            len == payload@.len(),
            r@.skip(5) == payload@.subrange(0, i as int),
        decreases payload@.len() - i,
    {
        r.push(payload[i]);
        proof {
            assert(r@.skip(5) =~= payload@.subrange(0, i as int + 1));
        }
        i = i + 1;
    }
    proof {
        assert(payload@.subrange(0, payload@.len() as int) =~= payload@);
        crate::wire::lemma_le32_value(len);
    }
    r
}

/// Builds an `InitRequest` envelope for a language name.
pub fn encode_init_request(lang: &Vec<u8>) -> (r: Vec<u8>)
    requires
        lang@.len() <= u32::MAX,
    ensures
        spec_decode_request(r@) == ReqModel::Init(lang@),
{
    encode_envelope(1, lang)
}

/// Builds a `FileRequest` envelope for a location.
pub fn encode_file_request(location: &Vec<u8>) -> (r: Vec<u8>)
    requires
        location@.len() <= u32::MAX,
    ensures
        spec_decode_request(r@) == ReqModel::File(location@),
{
    encode_envelope(2, location)
}

/// The dispatcher's answer to one raw request.
pub enum Step {
    /// The request is fully answered with these response bytes.
    Reply(Vec<u8>),
    /// The request is rejected; no session state changed.
    Reject(ProtoError),
    /// A valid `FileRequest`: the caller must read this canonical path and
    /// hand its text (or its failure to read) to [`provide_file`].
    ReadFile(Vec<u8>),
}

/// What the caller found when reading the requested file.
pub enum FileProbe {
    /// The path names a directory.
    Directory,
    /// The path does not exist.
    Missing,
    /// The path exists but reading it failed.
    Unreadable,
    /// The file's full text.
    Text(Vec<char>),
}

/// The outcome of running the engine over a file's text.
pub enum FileStep {
    /// The request is rejected; the cache is untouched.
    Reject(ProtoError),
    /// The engine produced a tree over exactly these UTF-16 code units.
    /// The caller reads the tree's structure out and passes both to
    /// [`finish_file`].
    Parsed(tree_sitter::Tree, Vec<u16>),
}

/// Decodes and validates one request envelope against the session.
///
/// `InitRequest` is handled outright.  A valid `FileRequest` on a
/// configured session resolves the location and asks the caller for the
/// file's text; every other case is answered here, with the session left
/// exactly as it was.
pub fn handle_request(s: &mut Session, body: &Vec<u8>) -> (r: Step)
    ensures
        spec_decode_request(body@) matches ReqModel::Malformed ==> (r matches Step::Reject(
            ProtoError::DecodeError,
        ) && *final(s) == *old(s)),
        spec_decode_request(body@) matches ReqModel::UnknownTag(t) ==> (r matches Step::Reject(
            ProtoError::UnknownCommand(u),
        ) && u == t && *final(s) == *old(s)),
        spec_decode_request(body@) matches ReqModel::Init(l) ==> {
            &&& !spec_supported(l) ==> (r matches Step::Reject(ProtoError::UnknownLanguage(n))
                && n@ == l && *final(s) == *old(s))
            &&& spec_supported(l) ==> ((r matches Step::Reply(v) && v@.len() == 0 && final(s).lang
                == Some(LangTag::Typescript) && final(s).files == old(s).files) || (
            r matches Step::Reject(ProtoError::EngineFailure) && *final(s) == *old(s)))
        },
        spec_decode_request(body@) matches ReqModel::File(p) ==> {
            &&& old(s).lang is None ==> (r matches Step::Reject(ProtoError::EngineNotConfigured)
                && *final(s) == *old(s))
            &&& old(s).lang is Some ==> *final(s) == *old(s) && (match spec_resolve(p) {
                Resolved::Path(cp) => r matches Step::ReadFile(v) && v@ == cp,
                Resolved::ForeignScheme(sch) => r matches Step::Reject(
                    ProtoError::UnsupportedScheme(b),
                ) && b@ == sch,
                Resolved::Invalid => r matches Step::Reject(ProtoError::InvalidFilePath(b)) && b@
                    == p,
            })
        },
{
    match decode_request(body) {
        Err(e) => Step::Reject(e),
        Ok(Request::Init { lang }) => match s.configure_language(&lang) {
            Ok(()) => Step::Reply(Vec::new()),
            Err(e) => Step::Reject(e),
        },
        Ok(Request::File { location }) => {
            if s.lang.is_none() {
                return Step::Reject(ProtoError::EngineNotConfigured);
            }
            match resolve_location(&location) {
                Ok(path) => Step::ReadFile(path),
                Err(e) => Step::Reject(e),
            }
        },
    }
}

/// Turns the caller's probe of the requested file into either the engine's
/// parse of its text, seeded with the cached tree for this identity, or the
/// resource error the probe showed.  The cache itself is never touched here.
pub fn provide_file(s: &mut Session, path: &Vec<u8>, probe: FileProbe) -> (r: FileStep)
    ensures
        final(s).lang == old(s).lang,
        final(s).files == old(s).files,
        probe matches FileProbe::Directory ==> (r matches FileStep::Reject(ProtoError::NotAFile(
            b,
        )) && b@ == path@ && *final(s) == *old(s)),
        probe matches FileProbe::Missing ==> (r matches FileStep::Reject(ProtoError::FileNotFound(
            b,
        )) && b@ == path@ && *final(s) == *old(s)),
        probe matches FileProbe::Unreadable ==> (r matches FileStep::Reject(ProtoError::IoError(
            b,
        )) && b@ == path@ && *final(s) == *old(s)),
        probe matches FileProbe::Text(chars) ==> ((r matches FileStep::Parsed(t, units) && units@
            == utf16_encode(chars@)) || (r matches FileStep::Reject(ProtoError::EngineFailure))),
{
    match probe {
        FileProbe::Directory => FileStep::Reject(
            ProtoError::NotAFile(crate::resolve::sub_bytes(path, 0, path.len())),
        ),
        FileProbe::Missing => FileStep::Reject(
            ProtoError::FileNotFound(crate::resolve::sub_bytes(path, 0, path.len())),
        ),
        FileProbe::Unreadable => FileStep::Reject(
            ProtoError::IoError(crate::resolve::sub_bytes(path, 0, path.len())),
        ),
        FileProbe::Text(chars) => {
            let units = encode_utf16_units(&chars);
            let seed = s.clone_seed(path);
            let parsed = crate::engine::engine_parse_utf16(
                &mut s.parser,
                &units,
                match seed {
                    Some(ref t) => Some(t),
                    None => None,
                },
            );
            match parsed {
                Some(tree) => FileStep::Parsed(tree, units),
                None => FileStep::Reject(ProtoError::EngineFailure),
            }
        },
    }
}

/// Installs the freshly parsed tree as the file's cache entry — replacing
/// any previous entry whole — and serializes it as the success response.
///
/// `model` is the structure of the engine's tree as the caller read it out,
/// and `seed` the engine's own tree, kept for the next incremental parse.
/// A model that does not fit the text it claims to span is refused as an
/// engine failure, with nothing changed.
pub fn finish_file(
    s: &mut Session,
    path: &Vec<u8>,
    text: &Vec<u16>,
    model: SyntaxNode,
    seed: tree_sitter::Tree,
) -> (r: Result<Vec<u8>, ProtoError>)
    ensures
        model.wf(text@.len()) ==> (r matches Ok(v) && v@ == spec_serialize(text@, model)
            && final(s).lang == old(s).lang
            && store_post(old(s).files@, final(s).files@, path@, model)),
        !model.wf(text@.len()) ==> (r matches Err(ProtoError::EngineFailure)
            && *final(s) == *old(s)),
{
    if model.check_wf(text.len()) {
        let bytes = serialize(text, &model);
        s.store_tree(path, model, seed);
        Ok(bytes)
    } else {
        Err(ProtoError::EngineFailure)
    }
}

} // verus!
