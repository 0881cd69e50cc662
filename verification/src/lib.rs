//! A parser and a generator for the markdown dialect of Discord messages.
//!
//! [`parse`] turns a message into a syntax tree of [`ast`]. It accepts every
//! text: what is not code or a styled span is plain text. The tree is rendered
//! back into text by [`generate`], and can be built by hand with [`builder`].
//!
//! # Parser limitations
//!
//! The parser tries to mimic the behavior of the official Discord client's
//! markdown parser, but it's not perfect.
//!
//! - Block quotes are not parsed. `> ` will be treated as plain text.
//! - Nested emphasis, like `*italics **bold italics** italics*`, may not be
//!   parsed properly.
//! - Intraword emphasis may not be handled properly. The parser treats
//!   `foo_bar_baz` as emphasis, while Discord's parser does not.
//! - Escaping sequence will be treated as plain text.

pub mod ast;
pub mod builder;
pub mod generate;
pub mod parser;
pub mod round_trip;

use ast::MarkdownDocument;
use generate::{default_option, render_all};
use parser::grammar::parse_collection;
use parser::nesting::{depth_all, lemma_depth_bounded};
use round_trip::{canonical, lemma_parse_then_render, lemma_parsed_is_canonical};
use vstd::pervasive::unreached;
use vstd::prelude::*;

verus! {

/// Parses a markdown document and returns its syntax tree.
///
/// Every text is a markdown document, so parsing never fails, and all of the
/// text is consumed: the tree renders back to the text it was parsed from. The
/// tree is never deeper than six levels, whatever the text holds.
pub fn parse(msg: &str) -> (doc: MarkdownDocument)
    ensures
        doc@ == parse_collection(msg@),
        render_all(doc@, default_option()) == msg@,
        canonical(doc@),
        depth_all(doc@) <= 6,
{
    proof {
        lemma_parse_then_render(msg@);
        lemma_parsed_is_canonical(msg@);
        lemma_depth_bounded(msg@);
    }
    match parser::markdown_document(msg) {
        Ok((_, doc)) => doc,
        Err(_) => unreached(),
    }
}

} // verus!
