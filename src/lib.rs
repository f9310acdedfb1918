//! Parsing of fully parenthesised linear-logic propositions.
//!
//! Text is split into tokens by [`lexer::tokenize`], and a token sequence is
//! turned into a [`syntax::Proposition`] tree by [`parser::parse`]. A tree
//! renders back to text with [`syntax::Proposition::render`], and
//! [`round_trip::lemma_render_parse_round_trip`] proves that parsing the
//! rendering gives the tree back.
pub mod lexer;
pub mod parser;
pub mod round_trip;
pub mod syntax;
