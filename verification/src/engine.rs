//! The trusted boundary to the external incremental parsing engine.
//!
//! The engine (tree-sitter, with its compiled-in TypeScript grammar) is a
//! pre-existing library: the library only requires the capability to
//! configure a parser for a language and to parse UTF-16 text, optionally
//! seeded with a previous tree of the same file.  Its trees are opaque here;
//! their structure is read out into [`crate::tree::SyntaxNode`] values by the
//! unverified surroundings before the library reasons about them.

use vstd::prelude::*;

verus! {

/// Declares tree_sitter::Parser for use in signatures and fields.
#[verifier::external_type_specification]
#[verifier::external_body]
pub struct ExParser(tree_sitter::Parser);

/// Declares tree_sitter::Tree for use in signatures and fields.
#[verifier::external_type_specification]
#[verifier::external_body]
pub struct ExTree(tree_sitter::Tree);

/// Declares tree_sitter::Language for use in signatures and fields.
#[verifier::external_type_specification]
#[verifier::external_body]
pub struct ExLanguage(tree_sitter::Language);

/// Relies on tree_sitter::Parser::new: a fresh parser with no language set.
#[verifier::external_body]
pub fn engine_new_parser() -> tree_sitter::Parser {
    tree_sitter::Parser::new()
}

/// Relies on tree_sitter_typescript::language_typescript: the compiled-in
/// TypeScript grammar.
#[verifier::external_body]
pub fn typescript_language() -> tree_sitter::Language {
    tree_sitter_typescript::language_typescript()
}

/// Relies on tree_sitter::Parser::set_language: it checks the grammar's ABI
/// version first and returns an error, leaving the parser untouched, on a
/// mismatch.
#[verifier::external_body]
pub fn engine_set_language(parser: &mut tree_sitter::Parser, language: tree_sitter::Language) -> (
    ok: bool)
    ensures
        !ok ==> *final(parser) == *old(parser),
{
    match parser.set_language(language) {
        Ok(()) => true,
        Err(_) => false,
    }
}

/// Relies on tree_sitter::Parser::parse_utf16: parses the given UTF-16 code
/// units, reusing unchanged subtrees of `old_tree` when one is supplied, and
/// returns no tree when no language has been set (or parsing is cancelled).
#[verifier::external_body]
pub fn engine_parse_utf16(
    parser: &mut tree_sitter::Parser,
    text: &Vec<u16>,
    old_tree: Option<&tree_sitter::Tree>,
) -> Option<tree_sitter::Tree> {
    parser.parse_utf16(text.as_slice(), old_tree)
}

/// Relies on tree_sitter::Tree::clone: a cheap copy of the same tree.
#[verifier::external_body]
pub fn engine_tree_clone(tree: &tree_sitter::Tree) -> tree_sitter::Tree {
    tree.clone()
}

} // verus!
