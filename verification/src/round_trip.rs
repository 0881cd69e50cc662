//! How parsing and rendering undo each other.
//!
//! Rendering what was parsed gives back the text, for every text. Parsing what
//! was rendered gives back the tree for exactly the trees that the parser can
//! produce, which [`canonical`] describes by their shape alone.

use crate::ast::{Node, Style};
use crate::generate::{
    block_fence, code_fence, default_option, language_text, lemma_render_all_concat,
    lemma_render_all_single, render, render_all,
};
use crate::parser::grammar::{
    code_content, language_tag, lemma_delimited_parts, lemma_token_advances, lemma_token_cases,
    lemma_token_total, parse_collection, parse_token, starts_styled, styled_token, token, Token,
};
use crate::parser::util::{
    delimited_spec, find, first_match, lemma_alphanumeric_run_bounds, lemma_first_match_absent,
    lemma_first_match_is, lemma_first_match_none, lemma_first_match_some, starts_with, Failure,
};
use vstd::prelude::*;

verus! {

/// The language tag and the content of a code block make up the text between
/// its fences.
pub proof fn lemma_code_block_text(span: Seq<char>)
    ensures
        language_text(language_tag(span)) + code_content(span) == span,
{
    lemma_alphanumeric_run_bounds(span);
    match language_tag(span) {
        Some(tag) => {
            assert(tag + span.skip(tag.len() as int) =~= span);
        },
        None => {
            assert(Seq::<char>::empty() + span =~= span);
        },
    }
}

/// Rendering a parsed token with the default options gives the text of the
/// token, provided that this holds of every shorter text.
proof fn lemma_render_token(t: Token, bound: nat)
    requires
        t.weight() <= bound,
        forall|inner: Seq<char>| inner.len() < bound ==> #[trigger] render_all(
            parse_collection(inner),
            default_option(),
        ) == inner,
    ensures
        render(parse_token(t), default_option()) == t.text(),
{
    match t {
        Token::Plain(text) => {
            assert(t.text() =~= text);
        },
        Token::Styled(style, span) => {
            assert(render_all(parse_collection(span), default_option()) == span);
        },
        Token::OneLineCode(span) => {},
        Token::MultiLineCode(span) => {
            lemma_code_block_text(span);
            let tag = language_text(language_tag(span));
            let content = code_content(span);
            assert(render(parse_token(t), default_option()) == block_fence() + tag + content
                + block_fence());
            assert(block_fence() + tag + content =~= block_fence() + (tag + content));
        },
    }
}

/// Rendering the tree of a text with the default options gives back the text.
pub proof fn lemma_parse_then_render(s: Seq<char>)
    ensures
        render_all(parse_collection(s), default_option()) == s,
    decreases s.len(),
{
    if s.len() == 0 {
        assert(s =~= Seq::<char>::empty());
    } else {
        lemma_token_total(s);
        lemma_token_advances(s);
        let (rest, t) = token(s)->Ok_0;
        assert forall|inner: Seq<char>| inner.len() < s.len() implies #[trigger] render_all(
            parse_collection(inner),
            default_option(),
        ) == inner by {
            lemma_parse_then_render(inner);
        }
        lemma_render_token(t, s.len());
        lemma_parse_then_render(rest);
        lemma_render_all_concat(seq![parse_token(t)], parse_collection(rest), default_option());
        lemma_render_all_single(parse_token(t), default_option());
    }
}

/// Whether `span` is not empty and, with `delimiter` behind it, holds the
/// delimiter nowhere before its end.
pub open spec fn closes_at_end(span: Seq<char>, delimiter: Seq<char>) -> bool {
    span.len() > 0 && find(span + delimiter, delimiter) == Some(span.len() as int)
}

/// Whether `node`, rendered in front of the text `following`, is read back as
/// itself.
///
/// Plain text is not empty, holds no position at which code or a styled span
/// would be matched, and is followed by nothing or by code or a styled span. A
/// styled span and code are not empty and do not hold their own delimiter before
/// their end; the content of a styled span is canonical in turn. The language of
/// a code block is what would be read as its language tag. A block quote is never
/// read back.
pub open spec fn canonical_node(node: Node, following: Seq<char>) -> bool
    decreases node,
{
    match node {
        Node::Plain(text) => {
            &&& text.len() > 0
            &&& following.len() == 0 || starts_styled()(following)
            &&& forall|j: int|
                0 <= j < text.len() ==> !starts_styled()(#[trigger] (text + following).skip(j))
        },
        Node::Styled(style, children) => {
            &&& closes_at_end(render_all(children, default_option()), style.delimiter())
            &&& canonical(children)
        },
        Node::OneLineCode(text) => closes_at_end(text, code_fence()),
        Node::MultiLineCode(text, language) => {
            &&& closes_at_end(language_text(language) + text, block_fence())
            &&& language_tag(language_text(language) + text) == language
        },
        Node::BlockQuote(_) => false,
    }
}

/// Whether a sequence of nodes is read back as itself from its rendered text:
/// each node is canonical in front of the text of the nodes behind it.
pub open spec fn canonical(nodes: Seq<Node>) -> bool
    decreases nodes,
{
    nodes.len() == 0 || {
        &&& canonical_node(nodes.first(), render_all(nodes.drop_first(), default_option()))
        &&& canonical(nodes.drop_first())
    }
}

/// Whether a sequence of nodes holds no block quote and no styled span without
/// content, at any depth.
pub open spec fn well_formed(nodes: Seq<Node>) -> bool
    decreases nodes,
{
    forall|i: int| 0 <= i < nodes.len() ==> well_formed_node(#[trigger] nodes[i])
}

/// Whether a node is no block quote and no styled span without content, and
/// holds none at any depth.
pub open spec fn well_formed_node(node: Node) -> bool
    decreases node,
{
    match node {
        Node::Styled(_, children) => children.len() > 0 && well_formed(children),
        Node::BlockQuote(_) => false,
        _ => true,
    }
}

/// A canonical tree holds no block quote and no styled span without content.
pub proof fn lemma_canonical_well_formed(nodes: Seq<Node>)
    requires
        canonical(nodes),
    ensures
        well_formed(nodes),
    decreases nodes,
{
    if nodes.len() > 0 {
        let node = nodes.first();
        let others = nodes.drop_first();
        lemma_canonical_well_formed(others);
        assert(canonical_node(node, render_all(others, default_option())));
        match node {
            Node::Styled(_, children) => {
                lemma_canonical_well_formed(children);
                assert(render_all(children, default_option()).len() > 0);
            },
            _ => {},
        }
        assert(well_formed_node(node));
        assert forall|i: int| 0 <= i < nodes.len() implies well_formed_node(
            #[trigger] nodes[i],
        ) by {
            if i > 0 {
                assert(nodes[i] == others[i - 1]);
            }
        }
    }
}

/// The token that a node is rendered as.
pub open spec fn token_of(node: Node) -> Token {
    match node {
        Node::Plain(text) => Token::Plain(text),
        Node::Styled(style, children) => Token::Styled(
            style,
            render_all(children, default_option()),
        ),
        Node::OneLineCode(text) => Token::OneLineCode(text),
        Node::MultiLineCode(text, language) => Token::MultiLineCode(language_text(language) + text),
        Node::BlockQuote(children) => Token::Plain(render(node, default_option())),
    }
}

/// A pattern that starts a text starts every text that continues it.
proof fn lemma_prefix_extends(pattern: Seq<char>, a: Seq<char>, b: Seq<char>)
    requires
        pattern.is_prefix_of(a),
    ensures
        pattern.is_prefix_of(a + b),
{
    assert(pattern =~= (a + b).subrange(0, pattern.len() as int));
}

/// A pattern that starts a continued text starts the text itself, where it is
/// no longer than the text.
proof fn lemma_prefix_restricts(pattern: Seq<char>, a: Seq<char>, b: Seq<char>)
    requires
        pattern.is_prefix_of(a + b),
        pattern.len() <= a.len(),
    ensures
        pattern.is_prefix_of(a),
{
    assert(pattern =~= a.subrange(0, pattern.len() as int));
}

/// A text whose first character differs from that of a pattern does not start
/// with the pattern.
proof fn lemma_first_differs(pattern: Seq<char>, s: Seq<char>)
    requires
        pattern.len() > 0,
        s.len() == 0 || s[0] != pattern[0],
    ensures
        !pattern.is_prefix_of(s),
{
    if pattern.is_prefix_of(s) {
        assert(s.subrange(0, pattern.len() as int)[0] == pattern[0]);
    }
}

/// A text whose second character differs from that of a pattern does not start
/// with the pattern.
proof fn lemma_second_differs(pattern: Seq<char>, s: Seq<char>)
    requires
        pattern.len() > 1,
        s.len() <= 1 || s[1] != pattern[1],
    ensures
        !pattern.is_prefix_of(s),
{
    if pattern.is_prefix_of(s) {
        assert(s.subrange(0, pattern.len() as int)[1] == pattern[1]);
    }
}

/// Every text starts with itself.
proof fn lemma_prefix_of_itself(pattern: Seq<char>)
    ensures
        pattern.is_prefix_of(pattern),
{
    assert(pattern =~= pattern.subrange(0, pattern.len() as int));
}

/// Text that closes at its end holds the first delimiter at its end, whatever
/// follows the delimiter.
proof fn lemma_find_rendered(delimiter: Seq<char>, span: Seq<char>, following: Seq<char>)
    requires
        closes_at_end(span, delimiter),
    ensures
        find(span + delimiter + following, delimiter) == Some(span.len() as int),
{
    let closed = span + delimiter;
    let body = closed + following;
    lemma_first_match_some(closed, starts_with(delimiter));
    assert forall|j: int| 0 <= j < span.len() implies !starts_with(delimiter)(
        #[trigger] body.skip(j),
    ) by {
        let tail = closed.skip(j);
        assert(!starts_with(delimiter)(tail));
        assert(body.skip(j) =~= tail + following);
        if delimiter.is_prefix_of(tail + following) {
            lemma_prefix_restricts(delimiter, tail, following);
        }
    }
    assert(body.skip(span.len() as int) =~= delimiter + following);
    lemma_prefix_of_itself(delimiter);
    lemma_prefix_extends(delimiter, delimiter, following);
    lemma_first_match_is(body, starts_with(delimiter), span.len() as int);
}

/// Text that closes at its end is delimited as a whole, whatever follows the
/// closing delimiter.
proof fn lemma_delimited_rendered(delimiter: Seq<char>, span: Seq<char>, following: Seq<char>)
    requires
        closes_at_end(span, delimiter),
    ensures
        delimited_spec(delimiter, delimiter + span + delimiter + following) == Ok::<_, Failure>(
            (following, span),
        ),
{
    let body = span + delimiter + following;
    let s = delimiter + span + delimiter + following;
    lemma_find_rendered(delimiter, span, following);
    assert(s =~= delimiter + body);
    lemma_prefix_of_itself(delimiter);
    lemma_prefix_extends(delimiter, delimiter, body);
    assert(s.skip(delimiter.len() as int) =~= body);
    assert(body.take(span.len() as int) =~= span);
    assert(body.skip(span.len() as int).skip(delimiter.len() as int) =~= following);
}

/// Text that closes at its end in front of a delimiter of one character does not
/// start with that character.
proof fn lemma_span_start(delimiter: Seq<char>, span: Seq<char>)
    requires
        closes_at_end(span, delimiter),
        delimiter.len() == 1,
    ensures
        span[0] != delimiter[0],
{
    lemma_first_match_some(span + delimiter, starts_with(delimiter));
    assert((span + delimiter).skip(0) =~= span + delimiter);
    if span[0] == delimiter[0] {
        assert(delimiter =~= (span + delimiter).subrange(0, 1));
    }
}

/// The place of a style in the order in which the styles are tried.
pub open spec fn rank(style: Style) -> nat {
    match style {
        Style::Bold => 0,
        Style::Underline => 1,
        Style::ItalicsStar => 2,
        Style::ItalicsUnderscore => 3,
        Style::Strikethrough => 4,
        Style::Spoiler => 5,
    }
}

/// Whether `s` starts with the delimiter of none of the kinds that are tried
/// before the kind of `t`.
pub open spec fn earlier_absent(t: Token, s: Seq<char>) -> bool {
    &&& !(t is MultiLineCode) ==> !block_fence().is_prefix_of(s)
    &&& t matches Token::Styled(style, _) ==> {
        &&& !code_fence().is_prefix_of(s)
        &&& rank(style) > 0 ==> !Style::Bold.delimiter().is_prefix_of(s)
        &&& rank(style) > 1 ==> !Style::Underline.delimiter().is_prefix_of(s)
        &&& rank(style) > 2 ==> !Style::ItalicsStar.delimiter().is_prefix_of(s)
        &&& rank(style) > 3 ==> !Style::ItalicsUnderscore.delimiter().is_prefix_of(s)
        &&& rank(style) > 4 ==> !Style::Strikethrough.delimiter().is_prefix_of(s)
    }
}

/// Where the text of a token is delimited at the start of `s` and no kind that is
/// tried earlier starts there, the token is the one that is matched.
proof fn lemma_styled_choice(t: Token, s: Seq<char>, rest: Seq<char>)
    requires
        t !is Plain,
        delimited_spec(t.delimiter(), s) == Ok::<_, Failure>((rest, t.span())),
        earlier_absent(t, s),
    ensures
        styled_token(s) == Ok::<_, Failure>((rest, t)),
{
    reveal(styled_token);
}

/// The rendered text of code or of a styled span that closes at its end is cut
/// off as one token of its own kind, whatever follows it.
proof fn lemma_styled_rendered(t: Token, following: Seq<char>)
    requires
        t !is Plain,
        closes_at_end(t.span(), t.delimiter()),
    ensures
        styled_token(t.text() + following) == Ok::<_, Failure>((following, t)),
{
    let d = t.delimiter();
    let span = t.span();
    let s = t.text() + following;
    lemma_delimited_rendered(d, span, following);
    assert(s =~= d + span + d + following);
    lemma_earlier_absent(t, following);
    lemma_styled_choice(t, s, following);
}

/// The rendered text of code or of a styled span that closes at its end starts
/// with the delimiter of no kind that is tried earlier.
proof fn lemma_earlier_absent(t: Token, following: Seq<char>)
    requires
        t !is Plain,
        closes_at_end(t.span(), t.delimiter()),
    ensures
        earlier_absent(t, t.text() + following),
{
    let d = t.delimiter();
    let span = t.span();
    let s = t.text() + following;
    assert(s =~= d + span + d + following);
    assert(s[0] == d[0]);
    if d.len() == 1 {
        lemma_span_start(d, span);
        assert(s[1] == span[0]);
    } else {
        assert(s[1] == d[1]);
    }
    match t {
        Token::OneLineCode(_) => {
            lemma_second_differs(block_fence(), s);
        },
        Token::Styled(style, _) => {
            lemma_first_differs(block_fence(), s);
            lemma_first_differs(code_fence(), s);
            if rank(style) > 0 {
                if style is ItalicsStar {
                    lemma_second_differs(Style::Bold.delimiter(), s);
                } else {
                    lemma_first_differs(Style::Bold.delimiter(), s);
                }
            }
            if rank(style) > 1 {
                if style is ItalicsUnderscore {
                    lemma_second_differs(Style::Underline.delimiter(), s);
                } else {
                    lemma_first_differs(Style::Underline.delimiter(), s);
                }
            }
            if rank(style) > 2 {
                lemma_first_differs(Style::ItalicsStar.delimiter(), s);
            }
            if rank(style) > 3 {
                lemma_first_differs(Style::ItalicsUnderscore.delimiter(), s);
            }
            if rank(style) > 4 {
                lemma_first_differs(Style::Strikethrough.delimiter(), s);
            }
        },
        _ => {},
    }
}

/// The rendered text of a canonical node is cut off as the token of that node.
proof fn lemma_canonical_token(node: Node, following: Seq<char>)
    requires
        canonical_node(node, following),
    ensures
        token(render(node, default_option()) + following) == Ok::<_, Failure>(
            (following, token_of(node)),
        ),
{
    let s = render(node, default_option()) + following;
    match node {
        Node::Plain(text) => {
            assert(s.skip(0) =~= s);
            assert(styled_token(s) is Err);
            assert(s.skip(text.len() as int) =~= following);
            assert(s.take(text.len() as int) =~= text);
            if following.len() == 0 {
                lemma_token_total(following);
                assert(styled_token(following) is Err);
                assert forall|j: int| 0 <= j <= s.len() implies !starts_styled()(
                    #[trigger] s.skip(j),
                ) by {
                    if j == s.len() {
                        assert(s.skip(j) =~= following);
                    }
                }
                lemma_first_match_absent(s, starts_styled());
                assert(s =~= text);
                assert(following =~= Seq::<char>::empty());
            } else {
                lemma_first_match_is(s, starts_styled(), text.len() as int);
            }
        },
        Node::BlockQuote(_) => {},
        _ => {
            lemma_styled_rendered(token_of(node), following);
            assert(render(node, default_option()) =~= token_of(node).text());
        },
    }
}

/// Parsing what a canonical tree is rendered as, with the default options, gives
/// back the tree.
pub proof fn lemma_render_then_parse(nodes: Seq<Node>)
    requires
        canonical(nodes),
    ensures
        parse_collection(render_all(nodes, default_option())) == nodes,
    decreases nodes,
{
    if nodes.len() == 0 {
        assert(nodes =~= Seq::<Node>::empty());
    } else {
        let node = nodes.first();
        let others = nodes.drop_first();
        let following = render_all(others, default_option());
        let s = render_all(nodes, default_option());
        assert(canonical_node(node, following));
        assert(s == render(node, default_option()) + following);
        lemma_canonical_token(node, following);
        lemma_token_advances(s);
        lemma_render_then_parse(others);
        match node {
            Node::Styled(_, children) => {
                lemma_render_then_parse(children);
            },
            Node::MultiLineCode(text, language) => {
                let span = language_text(language) + text;
                assert(span.skip(language_text(language).len() as int) =~= text);
                assert(span =~= text || language is Some);
            },
            _ => {},
        }
        assert(parse_token(token_of(node)) == node);
        assert(seq![node] + others =~= nodes);
    }
}

/// The tree of every text is canonical.
pub proof fn lemma_parsed_is_canonical(s: Seq<char>)
    ensures
        canonical(parse_collection(s)),
    decreases s.len(),
{
    if s.len() > 0 {
        lemma_token_total(s);
        lemma_token_advances(s);
        lemma_token_cases(s);
        let (rest, t) = token(s)->Ok_0;
        let nodes = parse_collection(s);
        let node = parse_token(t);
        assert(nodes == seq![node] + parse_collection(rest));
        assert(nodes.first() == node);
        assert(nodes.drop_first() =~= parse_collection(rest));
        lemma_parse_then_render(rest);
        lemma_parsed_is_canonical(rest);
        match t {
            Token::Plain(text) => {
                assert(s =~= text + rest);
                if first_match(s, starts_styled()) is Some {
                    lemma_first_match_some(s, starts_styled());
                    assert(starts_styled()(rest));
                } else {
                    lemma_first_match_none(s, starts_styled());
                    assert(rest =~= Seq::<char>::empty());
                }
                assert(canonical_node(node, rest));
            },
            Token::Styled(style, span) => {
                lemma_parse_then_render(span);
                lemma_parsed_is_canonical(span);
                lemma_closes_at_end(t.delimiter(), s);
                assert(canonical_node(node, rest));
            },
            Token::OneLineCode(span) => {
                lemma_closes_at_end(t.delimiter(), s);
                assert(canonical_node(node, rest));
            },
            Token::MultiLineCode(span) => {
                lemma_closes_at_end(t.delimiter(), s);
                lemma_code_block_text(span);
                assert(canonical_node(node, rest));
            },
        }
        assert(canonical(nodes));
    }
}

/// The canonical trees are exactly those that are read back from their rendered
/// text, and exactly those that are the tree of some text.
pub proof fn lemma_canonical_iff_read_back(nodes: Seq<Node>)
    ensures
        canonical(nodes) <==> parse_collection(render_all(nodes, default_option())) == nodes,
        canonical(nodes) <==> exists|s: Seq<char>| parse_collection(s) == nodes,
{
    let text = render_all(nodes, default_option());
    if canonical(nodes) {
        lemma_render_then_parse(nodes);
        assert(parse_collection(text) == nodes);
    }
    if exists|s: Seq<char>| parse_collection(s) == nodes {
        let s = choose|s: Seq<char>| parse_collection(s) == nodes;
        lemma_parsed_is_canonical(s);
    }
}

/// The text that is delimited at the start of an input closes at its end.
proof fn lemma_closes_at_end(delimiter: Seq<char>, s: Seq<char>)
    requires
        delimited_spec(delimiter, s) is Ok,
    ensures
        closes_at_end(delimited_spec(delimiter, s)->Ok_0.1, delimiter),
{
    lemma_delimited_parts(delimiter, s);
    let (rest, span) = delimited_spec(delimiter, s)->Ok_0;
    let closed = span + delimiter;
    assert forall|j: int| 0 <= j < span.len() implies !starts_with(delimiter)(
        #[trigger] closed.skip(j),
    ) by {
        assert((span + delimiter + rest).skip(j) =~= closed.skip(j) + rest);
        if delimiter.is_prefix_of(closed.skip(j)) {
            lemma_prefix_extends(delimiter, closed.skip(j), rest);
        }
    }
    assert(closed.skip(span.len() as int) =~= delimiter);
    lemma_prefix_of_itself(delimiter);
    lemma_first_match_is(closed, starts_with(delimiter), span.len() as int);
}

} // verus!
