//! How deep the tree of a message can be.
//!
//! The text inside a styled span never holds the delimiter of that span, so no
//! style occurs twice on a path from the root of a parsed tree to a leaf. With
//! six styles, no parsed tree is deeper than six levels, however long the
//! message is.

use crate::ast::{Node, Style};
use crate::parser::grammar::{
    lemma_delimited_parts, lemma_token_advances, lemma_token_cases, lemma_token_total,
    parse_collection, parse_token, token, Token,
};
use crate::parser::util::{
    find, lemma_first_match_absent, lemma_first_match_is, lemma_first_match_none,
    lemma_first_match_some, starts_with,
};
use vstd::prelude::*;

verus! {

/// The number of styled spans and block quotes that lie around the innermost
/// leaf of `node`.
pub open spec fn depth(node: Node) -> nat
    decreases node,
{
    match node {
        Node::Styled(_, children) => 1 + depth_all(children),
        Node::BlockQuote(children) => 1 + depth_all(children),
        _ => 0,
    }
}

/// The largest depth of a node of `nodes`.
pub open spec fn depth_all(nodes: Seq<Node>) -> nat
    decreases nodes,
{
    if nodes.len() == 0 {
        0
    } else {
        let first = depth(nodes.first());
        let others = depth_all(nodes.drop_first());
        if first >= others {
            first
        } else {
            others
        }
    }
}

/// Whether the delimiter of `style` occurs in `s`.
pub open spec fn occurs(style: Style, s: Seq<char>) -> bool {
    find(s, style.delimiter()) is Some
}

/// One where the delimiter of `style` occurs in `s`, zero where it does not.
pub open spec fn occurrence(style: Style, s: Seq<char>) -> nat {
    if occurs(style, s) {
        1
    } else {
        0
    }
}

/// The number of styles whose delimiter occurs in `s`.
pub open spec fn styles_in(s: Seq<char>) -> nat {
    occurrence(Style::ItalicsStar, s) + occurrence(Style::ItalicsUnderscore, s) + occurrence(
        Style::Bold,
        s,
    ) + occurrence(Style::Underline, s) + occurrence(Style::Strikethrough, s) + occurrence(
        Style::Spoiler,
        s,
    )
}

/// A delimiter that occurs in a part of a text occurs in the text.
proof fn lemma_occurs_in_part(style: Style, before: Seq<char>, part: Seq<char>, after: Seq<char>)
    requires
        occurs(style, part),
    ensures
        occurs(style, before + part + after),
{
    let d = style.delimiter();
    let s = before + part + after;
    lemma_first_match_some(part, starts_with(d));
    let k = find(part, d)->0;
    assert(s.skip(before.len() + k) =~= part.skip(k) + after);
    assert(d =~= (part.skip(k) + after).subrange(0, d.len() as int));
    if find(s, d) is None {
        lemma_first_match_none(s, starts_with(d));
        assert(!starts_with(d)(s.skip(before.len() + k)));
    }
}

/// A part of a text holds no more styles than the text.
proof fn lemma_styles_in_part(before: Seq<char>, part: Seq<char>, after: Seq<char>)
    ensures
        styles_in(part) <= styles_in(before + part + after),
{
    lemma_part_at_most(Style::ItalicsStar, before, part, after);
    lemma_part_at_most(Style::ItalicsUnderscore, before, part, after);
    lemma_part_at_most(Style::Bold, before, part, after);
    lemma_part_at_most(Style::Underline, before, part, after);
    lemma_part_at_most(Style::Strikethrough, before, part, after);
    lemma_part_at_most(Style::Spoiler, before, part, after);
}

/// A part of a text holds a delimiter only where the text does.
proof fn lemma_part_at_most(style: Style, before: Seq<char>, part: Seq<char>, after: Seq<char>)
    ensures
        occurrence(style, part) <= occurrence(style, before + part + after),
{
    if occurs(style, part) {
        lemma_occurs_in_part(style, before, part, after);
    }
}

/// The text inside a styled span holds fewer styles than the text that the span
/// was cut from: the style of the span is missing in it.
proof fn lemma_styles_in_span(style: Style, span: Seq<char>, rest: Seq<char>)
    requires
        span.len() > 0,
        forall|j: int|
            0 <= j < span.len() ==> !style.delimiter().is_prefix_of(
                #[trigger] (span + style.delimiter() + rest).skip(j),
            ),
    ensures
        styles_in(span) < styles_in(style.delimiter() + span + style.delimiter() + rest),
{
    let d = style.delimiter();
    let after = d + rest;
    let s = d + span + d + rest;
    assert(s =~= d + span + after);
    lemma_styles_in_part(d, span, after);
    assert(!occurs(style, span)) by {
        assert forall|j: int| 0 <= j <= span.len() implies !starts_with(d)(
            #[trigger] span.skip(j),
        ) by {
            if j < span.len() && d.is_prefix_of(span.skip(j)) {
                assert((span + d + rest).skip(j) =~= span.skip(j) + after);
                assert(d =~= (span.skip(j) + after).subrange(0, d.len() as int));
            }
        }
        lemma_first_match_absent(span, starts_with(d));
    }
    assert(occurs(style, s)) by {
        assert(s.skip(0) =~= s);
        assert(d =~= s.subrange(0, d.len() as int));
        lemma_first_match_is(s, starts_with(d), 0);
    }
    lemma_part_at_most(Style::ItalicsStar, d, span, after);
    lemma_part_at_most(Style::ItalicsUnderscore, d, span, after);
    lemma_part_at_most(Style::Bold, d, span, after);
    lemma_part_at_most(Style::Underline, d, span, after);
    lemma_part_at_most(Style::Strikethrough, d, span, after);
    lemma_part_at_most(Style::Spoiler, d, span, after);
}

/// The tree of a text is no deeper than the number of styles whose delimiter
/// occurs in the text.
pub proof fn lemma_depth_by_styles(s: Seq<char>)
    ensures
        depth_all(parse_collection(s)) <= styles_in(s),
    decreases s.len(),
{
    if s.len() > 0 {
        lemma_token_total(s);
        lemma_token_advances(s);
        lemma_token_cases(s);
        let (rest, t) = token(s)->Ok_0;
        let nodes = parse_collection(s);
        assert(nodes.first() == parse_token(t));
        assert(nodes.drop_first() =~= parse_collection(rest));
        lemma_depth_by_styles(rest);
        assert(s =~= t.text() + rest + Seq::<char>::empty());
        lemma_styles_in_part(t.text(), rest, Seq::<char>::empty());
        assert(depth_all(parse_collection(rest)) <= styles_in(s));
        match t {
            Token::Styled(style, span) => {
                lemma_delimited_parts(style.delimiter(), s);
                lemma_depth_by_styles(span);
                lemma_styles_in_span(style, span, rest);
                assert(s =~= style.delimiter() + span + style.delimiter() + rest);
                assert(depth(parse_token(t)) == 1 + depth_all(parse_collection(span)));
            },
            _ => {
                assert(depth(parse_token(t)) == 0);
            },
        }
        assert(depth(nodes.first()) <= styles_in(s));
    } else {
        assert(parse_collection(s).len() == 0);
    }
}

/// The tree of a text is at most six levels deep.
pub proof fn lemma_depth_bounded(s: Seq<char>)
    ensures
        depth_all(parse_collection(s)) <= 6,
{
    lemma_depth_by_styles(s);
}

} // verus!
