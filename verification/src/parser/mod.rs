//! Markdown parser functions.
//!
//! Each function takes the input that is left and returns the rest behind what
//! it matched together with the part of the tree that it built, or reports that
//! it did not match. What a function returns on each input is stated by a
//! function of [`grammar`] on the characters of the input.

pub mod grammar;
pub mod nesting;
pub mod util;

use crate::ast::{
    nodes_of, Bold, ItalicsStar, ItalicsUnderscore, MarkdownDocument, MarkdownElement,
    MarkdownElementCollection, MultiLineCode, Node, OneLineCode, Plain, Spoiler, Strikethrough,
    Style, Underline,
};
use crate::generate::{block_fence, code_fence};
use grammar::{
    code_block, lemma_delimited_parts, lemma_token_advances, lemma_token_total,
    markdown_element_not_plain_spec, markdown_element_spec, multi_line_code_spec,
    one_line_code_spec, parse_collection, plain_spec, starts_styled, styled_spec, styled_token,
};
use util::{
    alphanumeric1, anychar, delimited, first_match, lemma_alphanumeric_run_bounds,
    lemma_first_match_absent, lemma_first_match_is, newline, parsed, rest1, ErrorKind, Failure,
    ParseError,
};
use vstd::prelude::*;

verus! {

/// The fence of inline code as text.
fn code_fence_str() -> (r: &'static str)
    ensures
        r@ == code_fence(),
{
    proof {
        reveal_strlit("`");
        assert("`"@ =~= code_fence());
    }
    "`"
}

/// The fence of a code block as text.
fn block_fence_str() -> (r: &'static str)
    ensures
        r@ == block_fence(),
{
    proof {
        reveal_strlit("```");
        assert("```"@ =~= block_fence());
    }
    "```"
}

/// Parses a markdown document.
pub fn markdown_document<'a>(i: &'a str) -> (r: Result<(&'a str, MarkdownDocument), ParseError<'a>>)
    ensures
        parsed(r) == Ok::<_, Failure>((Seq::<char>::empty(), parse_collection(i@))),
{
    match markdown_element_collection(i) {
        Ok((rest, content)) => Ok((rest, MarkdownDocument::new(content))),
        Err(e) => Err(e),
    }
}

/// Parses a collection of markdown element. All of the input is consumed.
pub fn markdown_element_collection<'a>(i: &'a str) -> (r: Result<
    (&'a str, MarkdownElementCollection),
    ParseError<'a>,
>)
    ensures
        parsed(r) == Ok::<_, Failure>((Seq::<char>::empty(), parse_collection(i@))),
    decreases i@.len(), 4int,
{
    let mut elements: Vec<MarkdownElement> = Vec::new();
    let mut rest = i;
    assert(nodes_of(elements@) + parse_collection(rest@) =~= parse_collection(i@));
    loop
        invariant
            rest@.len() <= i@.len(),
            nodes_of(elements@) + parse_collection(rest@) == parse_collection(i@),
        decreases rest@.len(),
    {
        proof {
            lemma_token_total(rest@);
        }
        match markdown_element(rest) {
            Ok((next, element)) => {
                proof {
                    lemma_token_advances(rest@);
                    assert(nodes_of(elements@.push(element)) + parse_collection(next@) =~= nodes_of(
                        elements@,
                    ) + parse_collection(rest@));
                }
                elements.push(element);
                rest = next;
            },
            Err(_) => {
                assert(nodes_of(elements@) =~= parse_collection(i@));
                assert(rest@ =~= Seq::<char>::empty());
                return Ok((rest, MarkdownElementCollection::from(elements)));
            },
        }
    }
}

/// Parses a markdown element.
pub fn markdown_element<'a>(i: &'a str) -> (r: Result<(&'a str, MarkdownElement), ParseError<'a>>)
    ensures
        parsed(r) == markdown_element_spec(i@),
    decreases i@.len(), 3int,
{
    match markdown_element_not_plain(i) {
        Ok(found) => Ok(found),
        Err(_) => markdown_element_plain(i),
    }
}

/// Parses a plain markdown element.
pub fn markdown_element_plain<'a>(i: &'a str) -> (r: Result<
    (&'a str, MarkdownElement),
    ParseError<'a>,
>)
    ensures
        parsed(r) == plain_spec(i@),
{
    match plain(i) {
        Ok((rest, text)) => Ok((rest, MarkdownElement::from(text))),
        Err(e) => Err(e),
    }
}

/// Parses a styled markdown element.
pub fn markdown_element_not_plain<'a>(i: &'a str) -> (r: Result<
    (&'a str, MarkdownElement),
    ParseError<'a>,
>)
    ensures
        parsed(r) == markdown_element_not_plain_spec(i@),
    decreases i@.len(), 2int,
{
    proof {
        reveal(styled_token);
    }
    match multi_line_code(i) {
        Ok((rest, code)) => {
            return Ok((rest, MarkdownElement::from(code)));
        },
        Err(_) => {},
    }
    match one_line_code(i) {
        Ok((rest, code)) => {
            return Ok((rest, MarkdownElement::from(code)));
        },
        Err(_) => {},
    }
    match bold(i) {
        Ok((rest, span)) => {
            return Ok((rest, MarkdownElement::from(span)));
        },
        Err(_) => {},
    }
    match underline(i) {
        Ok((rest, span)) => {
            return Ok((rest, MarkdownElement::from(span)));
        },
        Err(_) => {},
    }
    match italics_star(i) {
        Ok((rest, span)) => {
            return Ok((rest, MarkdownElement::from(span)));
        },
        Err(_) => {},
    }
    match italics_underscore(i) {
        Ok((rest, span)) => {
            return Ok((rest, MarkdownElement::from(span)));
        },
        Err(_) => {},
    }
    match strikethrough(i) {
        Ok((rest, span)) => {
            return Ok((rest, MarkdownElement::from(span)));
        },
        Err(_) => {},
    }
    match spoiler(i) {
        Ok((rest, span)) => Ok((rest, MarkdownElement::from(span))),
        Err(e) => Err(e),
    }
}

/// Whether code or a styled span is matched at the start of `i`.
fn is_styled(i: &str) -> (b: bool)
    ensures
        b == starts_styled()(i@),
{
    proof {
        reveal(styled_token);
    }
    delimited(block_fence_str(), i).is_ok() || delimited(code_fence_str(), i).is_ok() || delimited(
        Style::Bold.as_str(),
        i,
    ).is_ok() || delimited(Style::Underline.as_str(), i).is_ok() || delimited(
        Style::ItalicsStar.as_str(),
        i,
    ).is_ok() || delimited(Style::ItalicsUnderscore.as_str(), i).is_ok() || delimited(
        Style::Strikethrough.as_str(),
        i,
    ).is_ok() || delimited(Style::Spoiler.as_str(), i).is_ok()
}

/// Returns the *shortest* input slice until code or a styled span is matched.
fn take_before_styled<'a>(i: &'a str) -> (r: Result<(&'a str, &'a str), ParseError<'a>>)
    ensures
        match first_match(i@, starts_styled()) {
            Some(k) => parsed(r) == Ok::<_, Failure>((i@.skip(k), i@.take(k))),
            None => r is Err,
        },
{
    let total = i.unicode_len();
    let mut rest = i;
    let mut taken: usize = 0;
    assert(i@.skip(0) =~= i@);
    loop
        invariant
            total == i@.len(),
            taken <= total,
            rest@ == i@.skip(taken as int),
            forall|j: int| 0 <= j < taken ==> !starts_styled()(#[trigger] i@.skip(j)),
        decreases total - taken,
    {
        if is_styled(rest) {
            proof {
                lemma_first_match_is(i@, starts_styled(), taken as int);
            }
            let before = i.substring_char(0, taken);
            assert(before@ =~= i@.take(taken as int));
            return Ok((rest, before));
        }
        match anychar(rest) {
            Some((next, _)) => {
                assert(next@ =~= i@.skip(taken + 1));
                rest = next;
                taken = taken + 1;
            },
            None => {
                proof {
                    assert(rest@ =~= Seq::<char>::empty());
                    lemma_first_match_absent(i@, starts_styled());
                }
                return Err(ParseError { input: rest, code: ErrorKind::Eof });
            },
        }
    }
}

/// Parses plain text.
pub fn plain<'a>(i: &'a str) -> (r: Result<(&'a str, Plain), ParseError<'a>>)
    ensures
        parsed(r) == plain_spec(i@),
{
    match take_before_styled(i) {
        Ok((rest, text)) => Ok((rest, Plain::new(text))),
        Err(_) => match rest1(i) {
            Ok((rest, text)) => Ok((rest, Plain::new(text))),
            Err(e) => Err(e),
        },
    }
}

/// Parses the content of a span of `style`.
fn styled_content<'a>(style: Style, i: &'a str) -> (r: Result<
    (&'a str, MarkdownElementCollection),
    ParseError<'a>,
>)
    ensures
        match styled_spec(style, i@) {
            Ok((rest, node)) => parsed(r) == Ok::<_, Failure>((rest, node->Styled_1)),
            Err(e) => parsed(r) == Err::<(Seq<char>, Seq<Node>), _>(e),
        },
    decreases i@.len(), 0int,
{
    match delimited(style.as_str(), i) {
        Ok((rest, span)) => {
            proof {
                lemma_delimited_parts(style.delimiter(), i@);
            }
            match markdown_element_collection(span) {
                Ok((_, content)) => Ok((rest, content)),
                Err(e) => Err(e),
            }
        },
        Err(e) => Err(e),
    }
}

/// Parses italics text wrapped in `*`.
pub fn italics_star<'a>(i: &'a str) -> (r: Result<(&'a str, ItalicsStar), ParseError<'a>>)
    ensures
        parsed(r) == styled_spec(Style::ItalicsStar, i@),
    decreases i@.len(), 1int,
{
    match styled_content(Style::ItalicsStar, i) {
        Ok((rest, content)) => Ok((rest, ItalicsStar::new(content))),
        Err(e) => Err(e),
    }
}

/// Parses italics text wrapped in `_`.
pub fn italics_underscore<'a>(i: &'a str) -> (r: Result<(&'a str, ItalicsUnderscore), ParseError<'a>>)
    ensures
        parsed(r) == styled_spec(Style::ItalicsUnderscore, i@),
    decreases i@.len(), 1int,
{
    match styled_content(Style::ItalicsUnderscore, i) {
        Ok((rest, content)) => Ok((rest, ItalicsUnderscore::new(content))),
        Err(e) => Err(e),
    }
}

/// Parses bold text.
pub fn bold<'a>(i: &'a str) -> (r: Result<(&'a str, Bold), ParseError<'a>>)
    ensures
        parsed(r) == styled_spec(Style::Bold, i@),
    decreases i@.len(), 1int,
{
    match styled_content(Style::Bold, i) {
        Ok((rest, content)) => Ok((rest, Bold::new(content))),
        Err(e) => Err(e),
    }
}

/// Parses underline text.
pub fn underline<'a>(i: &'a str) -> (r: Result<(&'a str, Underline), ParseError<'a>>)
    ensures
        parsed(r) == styled_spec(Style::Underline, i@),
    decreases i@.len(), 1int,
{
    match styled_content(Style::Underline, i) {
        Ok((rest, content)) => Ok((rest, Underline::new(content))),
        Err(e) => Err(e),
    }
}

/// Parses strikethrough text.
pub fn strikethrough<'a>(i: &'a str) -> (r: Result<(&'a str, Strikethrough), ParseError<'a>>)
    ensures
        parsed(r) == styled_spec(Style::Strikethrough, i@),
    decreases i@.len(), 1int,
{
    match styled_content(Style::Strikethrough, i) {
        Ok((rest, content)) => Ok((rest, Strikethrough::new(content))),
        Err(e) => Err(e),
    }
}

/// Parses spoiler text.
pub fn spoiler<'a>(i: &'a str) -> (r: Result<(&'a str, Spoiler), ParseError<'a>>)
    ensures
        parsed(r) == styled_spec(Style::Spoiler, i@),
    decreases i@.len(), 1int,
{
    match styled_content(Style::Spoiler, i) {
        Ok((rest, content)) => Ok((rest, Spoiler::new(content))),
        Err(e) => Err(e),
    }
}

/// Parses an inline code block.
pub fn one_line_code<'a>(i: &'a str) -> (r: Result<(&'a str, OneLineCode), ParseError<'a>>)
    ensures
        parsed(r) == one_line_code_spec(i@),
{
    match delimited(code_fence_str(), i) {
        Ok((rest, span)) => Ok((rest, OneLineCode::new(span))),
        Err(e) => Err(e),
    }
}

/// Parses a multiline code block.
pub fn multi_line_code<'a>(i: &'a str) -> (r: Result<(&'a str, MultiLineCode), ParseError<'a>>)
    ensures
        parsed(r) == multi_line_code_spec(i@),
{
    match delimited(block_fence_str(), i) {
        Ok((rest, span)) => {
            proof {
                lemma_alphanumeric_run_bounds(span@);
            }
            let tagged = match alphanumeric1(span) {
                Some((content, language)) => match newline(content) {
                    Some(_) => Some((content, language)),
                    None => None,
                },
                None => None,
            };
            let code = match tagged {
                Some((content, language)) => MultiLineCode::new(content, Some(language.to_owned())),
                None => MultiLineCode::new(span, None),
            };
            assert(code@ == code_block(span@));
            Ok((rest, code))
        },
        Err(e) => Err(e),
    }
}

} // verus!
