//! Helper functions to build a syntax tree in less lines of code.
//!
//! Each function makes one element. Content is taken as anything that converts
//! into a collection (an element, a vector of elements, a string) or into a
//! string.

use crate::ast::{
    BlockQuote, Bold, ItalicsStar, ItalicsUnderscore, MarkdownElement, MarkdownElementCollection,
    MultiLineCode, Node, OneLineCode, Plain, Spoiler, Strikethrough, Style, Underline,
    option_text,
};
use vstd::prelude::*;

verus! {

/// Build plain text element.
pub fn plain<T: Into<String>>(content: T) -> (r: MarkdownElement)
    ensures
        exists|s: String| #[trigger] call_ensures(T::into, (content,), s) && r@ == Node::Plain(s@),
{
    MarkdownElement::Plain(Box::new(Plain::new(content)))
}

/// Build italics text element wrapped in `*`.
pub fn italics_star<T: Into<MarkdownElementCollection>>(content: T) -> (r: MarkdownElement)
    ensures
        exists|c: MarkdownElementCollection| #[trigger]
            call_ensures(T::into, (content,), c) && r@ == Node::Styled(Style::ItalicsStar, c@),
{
    MarkdownElement::ItalicsStar(Box::new(ItalicsStar::new(content)))
}

/// Build italics text element wrapped in `_`.
pub fn italics_underscore<T: Into<MarkdownElementCollection>>(content: T) -> (r: MarkdownElement)
    ensures
        exists|c: MarkdownElementCollection| #[trigger]
            call_ensures(T::into, (content,), c) && r@ == Node::Styled(Style::ItalicsUnderscore, c@),
{
    MarkdownElement::ItalicsUnderscore(Box::new(ItalicsUnderscore::new(content)))
}

/// Build bold text element.
pub fn bold<T: Into<MarkdownElementCollection>>(content: T) -> (r: MarkdownElement)
    ensures
        exists|c: MarkdownElementCollection| #[trigger]
            call_ensures(T::into, (content,), c) && r@ == Node::Styled(Style::Bold, c@),
{
    MarkdownElement::Bold(Box::new(Bold::new(content)))
}

/// Build underline text element.
pub fn underline<T: Into<MarkdownElementCollection>>(content: T) -> (r: MarkdownElement)
    ensures
        exists|c: MarkdownElementCollection| #[trigger]
            call_ensures(T::into, (content,), c) && r@ == Node::Styled(Style::Underline, c@),
{
    MarkdownElement::Underline(Box::new(Underline::new(content)))
}

/// Build strikethrough text element.
pub fn strikethrough<T: Into<MarkdownElementCollection>>(content: T) -> (r: MarkdownElement)
    ensures
        exists|c: MarkdownElementCollection| #[trigger]
            call_ensures(T::into, (content,), c) && r@ == Node::Styled(Style::Strikethrough, c@),
{
    MarkdownElement::Strikethrough(Box::new(Strikethrough::new(content)))
}

/// Build spoiler text element.
pub fn spoiler<T: Into<MarkdownElementCollection>>(content: T) -> (r: MarkdownElement)
    ensures
        exists|c: MarkdownElementCollection| #[trigger]
            call_ensures(T::into, (content,), c) && r@ == Node::Styled(Style::Spoiler, c@),
{
    MarkdownElement::Spoiler(Box::new(Spoiler::new(content)))
}

/// Build a inline code element.
pub fn one_line_code<T: Into<String>>(content: T) -> (r: MarkdownElement)
    ensures
        exists|s: String| #[trigger]
            call_ensures(T::into, (content,), s) && r@ == Node::OneLineCode(s@),
{
    MarkdownElement::OneLineCode(Box::new(OneLineCode::new(content)))
}

/// Build a multiline code block element.
pub fn multi_line_code<T: Into<String>>(content: T, language: Option<String>) -> (r:
    MarkdownElement)
    ensures
        exists|s: String| #[trigger]
            call_ensures(T::into, (content,), s) && r@ == Node::MultiLineCode(
                s@,
                option_text(language),
            ),
{
    MarkdownElement::MultiLineCode(Box::new(MultiLineCode::new(content, language)))
}

/// Build block quote text element.
pub fn block_quote<T: Into<MarkdownElementCollection>>(content: T) -> (r: MarkdownElement)
    ensures
        exists|c: MarkdownElementCollection| #[trigger]
            call_ensures(T::into, (content,), c) && r@ == Node::BlockQuote(c@),
{
    MarkdownElement::BlockQuote(Box::new(BlockQuote::new(content)))
}

} // verus!
