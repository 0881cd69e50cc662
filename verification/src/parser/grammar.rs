//! The grammar of a message, as functions on sequences of characters.
//!
//! A message is cut into tokens from left to right. At each position the
//! matchers for code and for the six styles are tried in a fixed order; where
//! none of them matches, the text up to the next position at which one does is
//! plain. The text inside a styled token is a message again, the text inside
//! code is kept as it is.

use crate::ast::{Node, Style};
use crate::generate::{block_fence, code_fence};
use crate::parser::util::{
    alphanumeric_run, delimited_spec, first_match, lemma_first_match_some, rest1_spec,
    starts_with, Failure,
};
use vstd::prelude::*;

verus! {

/// A piece of a message before its content is looked into.
pub enum Token {
    /// A run of plain text.
    Plain(Seq<char>),
    /// A styled span: the style and the text between the delimiters.
    Styled(Style, Seq<char>),
    /// Inline code: the text between the fences.
    OneLineCode(Seq<char>),
    /// A code block: the text between the fences.
    MultiLineCode(Seq<char>),
}

/// The result of a matcher on sequences: the rest of the input and what was
/// matched, or the failure.
pub type Matched<T> = Result<(Seq<char>, T), Failure>;

/// The first of two results that is a success, and the second where neither is.
pub open spec fn or<T>(first: Matched<T>, second: Matched<T>) -> Matched<T> {
    if first is Ok {
        first
    } else {
        second
    }
}

/// The token of a span of `style` at the start of `s`.
pub open spec fn style_token(style: Style, s: Seq<char>) -> Matched<Token> {
    match delimited_spec(style.delimiter(), s) {
        Ok((rest, span)) => Ok((rest, Token::Styled(style, span))),
        Err(e) => Err(e),
    }
}

/// The token of inline code at the start of `s`.
pub open spec fn one_line_code_token(s: Seq<char>) -> Matched<Token> {
    match delimited_spec(code_fence(), s) {
        Ok((rest, span)) => Ok((rest, Token::OneLineCode(span))),
        Err(e) => Err(e),
    }
}

/// The token of a code block at the start of `s`.
pub open spec fn multi_line_code_token(s: Seq<char>) -> Matched<Token> {
    match delimited_spec(block_fence(), s) {
        Ok((rest, span)) => Ok((rest, Token::MultiLineCode(span))),
        Err(e) => Err(e),
    }
}

/// The token of code or of a styled span at the start of `s`: the first match
/// in the order code block, inline code, bold, underline, italics with `*`,
/// italics with `_`, strikethrough, spoiler.
#[verifier::opaque]
pub open spec fn styled_token(s: Seq<char>) -> Matched<Token> {
    or(
        multi_line_code_token(s),
        or(
            one_line_code_token(s),
            or(
                style_token(Style::Bold, s),
                or(
                    style_token(Style::Underline, s),
                    or(
                        style_token(Style::ItalicsStar, s),
                        or(
                            style_token(Style::ItalicsUnderscore, s),
                            or(
                                style_token(Style::Strikethrough, s),
                                style_token(Style::Spoiler, s),
                            ),
                        ),
                    ),
                ),
            ),
        ),
    )
}

/// The texts at whose start code or a styled span is matched.
pub open spec fn starts_styled() -> spec_fn(Seq<char>) -> bool {
    |t: Seq<char>| styled_token(t) is Ok
}

/// The plain text at the start of `s`: the text up to the first position at
/// which code or a styled span is matched, or all of `s` where there is no such
/// position and `s` is not empty.
pub open spec fn plain_token(s: Seq<char>) -> Matched<Seq<char>> {
    match first_match(s, starts_styled()) {
        Some(k) => Ok((s.skip(k), s.take(k))),
        None => rest1_spec(s),
    }
}

/// The token at the start of `s`: code or a styled span where one is matched,
/// and plain text where none is.
pub open spec fn token(s: Seq<char>) -> Matched<Token> {
    or(
        styled_token(s),
        match plain_token(s) {
            Ok((rest, text)) => Ok((rest, Token::Plain(text))),
            Err(e) => Err(e),
        },
    )
}

/// The language tag of a code block: a non-empty run of alphanumeric characters
/// at the start of the text between the fences, where a line break follows it.
pub open spec fn language_tag(span: Seq<char>) -> Option<Seq<char>> {
    let n = alphanumeric_run(span);
    if 0 < n < span.len() && span[n] == '\n' {
        Some(span.take(n))
    } else {
        None
    }
}

/// The content of a code block: the text between the fences without the
/// language tag. The line break behind the tag belongs to the content.
pub open spec fn code_content(span: Seq<char>) -> Seq<char> {
    match language_tag(span) {
        Some(tag) => span.skip(tag.len() as int),
        None => span,
    }
}

/// The node of a code block with the text `span` between its fences.
pub open spec fn code_block(span: Seq<char>) -> Node {
    Node::MultiLineCode(code_content(span), language_tag(span))
}

impl Token {
    /// The delimiter on both sides of the token. Plain text has none.
    pub open spec fn delimiter(self) -> Seq<char> {
        match self {
            Token::Plain(_) => Seq::empty(),
            Token::Styled(style, _) => style.delimiter(),
            Token::OneLineCode(_) => code_fence(),
            Token::MultiLineCode(_) => block_fence(),
        }
    }

    /// The text of the token between its delimiters.
    pub open spec fn span(self) -> Seq<char> {
        match self {
            Token::Plain(text) => text,
            Token::Styled(_, span) => span,
            Token::OneLineCode(span) => span,
            Token::MultiLineCode(span) => span,
        }
    }

    /// The text of the input that the token was cut from.
    pub open spec fn text(self) -> Seq<char> {
        self.delimiter() + self.span() + self.delimiter()
    }

    /// A bound on the length of the text that is parsed again inside the token.
    pub open spec fn weight(self) -> nat {
        match self {
            Token::Styled(_, span) => span.len() + 1,
            _ => 0,
        }
    }
}

/// A successful match of delimited text consumes both delimiters and the text.
pub proof fn lemma_delimited_parts(delimiter: Seq<char>, s: Seq<char>)
    requires
        delimited_spec(delimiter, s) is Ok,
    ensures
        ({
            let (rest, span) = delimited_spec(delimiter, s)->Ok_0;
            &&& span.len() > 0
            &&& s == delimiter + span + delimiter + rest
            &&& forall|j: int| 0 <= j < span.len() ==> !delimiter.is_prefix_of(
                #[trigger] (span + delimiter + rest).skip(j),
            )
        }),
{
    let body = s.skip(delimiter.len() as int);
    lemma_first_match_some(body, starts_with(delimiter));
    let k = first_match(body, starts_with(delimiter))->0;
    let (rest, span) = delimited_spec(delimiter, s)->Ok_0;
    assert(span == body.take(k));
    assert(rest == body.skip(k).skip(delimiter.len() as int));
    assert(delimiter.is_prefix_of(body.skip(k)));
    assert(body.skip(k) =~= delimiter + rest);
    assert(body =~= span + delimiter + rest);
    assert(s =~= delimiter + span + delimiter + rest);
    assert forall|j: int| 0 <= j < span.len() implies !delimiter.is_prefix_of(
        #[trigger] (span + delimiter + rest).skip(j),
    ) by {
        assert(!starts_with(delimiter)(body.skip(j)));
    }
}

/// A token of code or of a styled span is what is delimited at the start of the
/// input; a token of plain text is matched only where no code and no styled span
/// is.
pub proof fn lemma_token_cases(s: Seq<char>)
    requires
        token(s) is Ok,
    ensures
        ({
            let (rest, t) = token(s)->Ok_0;
            if t is Plain {
                &&& styled_token(s) is Err
                &&& plain_token(s) == Ok::<_, Failure>((rest, t.span()))
            } else {
                &&& styled_token(s) == Ok::<_, Failure>((rest, t))
                &&& delimited_spec(t.delimiter(), s) == Ok::<_, Failure>((rest, t.span()))
            }
        }),
{
    reveal(styled_token);
}

/// A token and the rest behind it make up the input. A token takes at least one
/// character of the input, and the text inside a styled token is shorter than
/// the input.
pub proof fn lemma_token_advances(s: Seq<char>)
    requires
        token(s) is Ok,
    ensures
        ({
            let (rest, t) = token(s)->Ok_0;
            &&& s == t.text() + rest
            &&& rest.len() < s.len()
            &&& t.weight() <= s.len()
        }),
{
    lemma_token_cases(s);
    let (rest, t) = token(s)->Ok_0;
    if t is Plain {
        if first_match(s, starts_styled()) is Some {
            lemma_first_match_some(s, starts_styled());
            let k = first_match(s, starts_styled())->0;
            assert(s.skip(0) =~= s);
            assert(s =~= Seq::<char>::empty() + s.take(k) + Seq::<char>::empty() + s.skip(k));
        } else {
            assert(s =~= Seq::<char>::empty() + s + Seq::<char>::empty() + Seq::<char>::empty());
        }
    } else {
        lemma_delimited_parts(t.delimiter(), s);
    }
}

/// The nodes of the message `s`: the node of its first token, then the nodes
/// of what follows that token.
pub open spec fn parse_collection(s: Seq<char>) -> Seq<Node>
    decreases s.len(), 1int,
{
    if s.len() == 0 {
        Seq::empty()
    } else {
        match token(s) {
            Ok((rest, t)) => {
                proof {
                    lemma_token_advances(s);
                }
                seq![parse_token(t)] + parse_collection(rest)
            },
            Err(_) => Seq::empty(),
        }
    }
}

/// The node of a token. The text inside a styled token is parsed as a message,
/// the text inside code is not.
pub open spec fn parse_token(t: Token) -> Node
    decreases t.weight(), 0int,
{
    match t {
        Token::Plain(text) => Node::Plain(text),
        Token::Styled(style, span) => Node::Styled(style, parse_collection(span)),
        Token::OneLineCode(span) => Node::OneLineCode(span),
        Token::MultiLineCode(span) => code_block(span),
    }
}

/// What the matcher of a `style` returns: the node of the styled span at the
/// start of `s`.
pub open spec fn styled_spec(style: Style, s: Seq<char>) -> Matched<Node> {
    match delimited_spec(style.delimiter(), s) {
        Ok((rest, span)) => Ok((rest, Node::Styled(style, parse_collection(span)))),
        Err(e) => Err(e),
    }
}

/// What the matcher of inline code returns.
pub open spec fn one_line_code_spec(s: Seq<char>) -> Matched<Node> {
    match delimited_spec(code_fence(), s) {
        Ok((rest, span)) => Ok((rest, Node::OneLineCode(span))),
        Err(e) => Err(e),
    }
}

/// What the matcher of a code block returns.
pub open spec fn multi_line_code_spec(s: Seq<char>) -> Matched<Node> {
    match delimited_spec(block_fence(), s) {
        Ok((rest, span)) => Ok((rest, code_block(span))),
        Err(e) => Err(e),
    }
}

/// The node of the token of a successful match.
pub open spec fn parse_matched(m: Matched<Token>) -> Matched<Node> {
    match m {
        Ok((rest, t)) => Ok((rest, parse_token(t))),
        Err(e) => Err(e),
    }
}

/// What the matcher of plain text returns.
pub open spec fn plain_spec(s: Seq<char>) -> Matched<Node> {
    match plain_token(s) {
        Ok((rest, text)) => Ok((rest, Node::Plain(text))),
        Err(e) => Err(e),
    }
}

/// What the matcher of code and styled spans returns.
pub open spec fn markdown_element_not_plain_spec(s: Seq<char>) -> Matched<Node> {
    parse_matched(styled_token(s))
}

/// What the matcher of an element returns.
pub open spec fn markdown_element_spec(s: Seq<char>) -> Matched<Node> {
    parse_matched(token(s))
}

/// An element is matched at the start of every text but the empty one.
pub proof fn lemma_token_total(s: Seq<char>)
    ensures
        token(s) is Ok <==> s.len() > 0,
{
    reveal(styled_token);
    if s.len() == 0 {
        assert(!block_fence().is_prefix_of(s));
        assert(!code_fence().is_prefix_of(s));
        assert(!Style::Bold.delimiter().is_prefix_of(s));
        assert(!Style::Underline.delimiter().is_prefix_of(s));
        assert(!Style::ItalicsStar.delimiter().is_prefix_of(s));
        assert(!Style::ItalicsUnderscore.delimiter().is_prefix_of(s));
        assert(!Style::Strikethrough.delimiter().is_prefix_of(s));
        assert(!Style::Spoiler.delimiter().is_prefix_of(s));
        assert(styled_token(s) is Err);
        assert(!starts_styled()(s));
    }
}

} // verus!
