//! A session/cache manager, request dispatcher and tree serializer for a
//! file-oriented incremental parsing service.
//!
//! A client first selects a source language (`InitRequest`), then repeatedly
//! asks for a file to be (re)parsed (`FileRequest`).  The service keeps a
//! per-file cache of the most recent parse tree so each reparse can seed the
//! external incremental parsing engine, and answers with the resulting syntax
//! tree in a compact binary wire format.

pub mod dispatch;
mod engine;
pub mod errors;
pub mod registry;
pub mod resolve;
pub mod session;
pub mod tree;
pub mod utf16;
pub mod wire;

pub use dispatch::decode_request;
pub use dispatch::encode_file_request;
pub use dispatch::encode_init_request;
pub use dispatch::finish_file;
pub use dispatch::handle_request;
pub use dispatch::provide_file;
pub use dispatch::FileProbe;
pub use dispatch::FileStep;
pub use dispatch::Request;
pub use dispatch::Step;
pub use errors::ProtoError;
pub use registry::Registry;
pub use resolve::resolve_location;
pub use session::LangTag;
pub use session::Session;
pub use tree::SyntaxNode;
pub use utf16::encode_utf16_units;
pub use wire::serialize;
