use discord_md::ast::{
    Bold, ItalicsStar, ItalicsUnderscore, MarkdownDocument, MarkdownElementCollection,
    MultiLineCode, OneLineCode, Plain, Spoiler, Strikethrough, Underline,
};
use discord_md::parser::util::{ErrorKind, ParseError};
use discord_md::parser::{
    bold, italics_star, italics_underscore, markdown_document, markdown_element,
    markdown_element_collection, multi_line_code, one_line_code, plain, spoiler, strikethrough,
    underline,
};

fn parse_error(input: &str, code: ErrorKind) -> ParseError<'_> {
    ParseError { input, code }
}

#[test]
fn test_markdown_document() {
    assert_eq!(
        markdown_document("`hello`"),
        Ok((
            "",
            MarkdownDocument::new(vec![OneLineCode::new("hello").into()])
        ))
    );
    assert_eq!(
        markdown_document("**hello _world_**"),
        Ok((
            "",
            MarkdownDocument::new(vec![Bold::new(vec![
                Plain::new("hello ").into(),
                ItalicsUnderscore::new(vec![Plain::new("world").into()]).into()
            ])
            .into()])
        ))
    );
    // Note: `***italics* in bold**` works, but `***bold** in italics*` doesn't work.
    // This is a known limitation.
    assert_eq!(
        markdown_document("***italics* in bold**"),
        Ok((
            "",
            MarkdownDocument::new(vec![Bold::new(vec![
                ItalicsStar::new(vec![Plain::new("italics").into()]).into(),
                Plain::new(" in bold").into(),
            ])
            .into()])
        ))
    );
    // Note: `___italics_ in underline__` works, but `___underline__ in italics_` doesn't work.
    // This is a known limitation.
    assert_eq!(
        markdown_document("___italics_ in underline__"),
        Ok((
            "",
            MarkdownDocument::new(vec![Underline::new(vec![
                ItalicsUnderscore::new(vec![Plain::new("italics").into()]).into(),
                Plain::new(" in underline").into(),
            ])
            .into()])
        ))
    );
    assert_eq!(
        markdown_document(""),
        Ok(("", MarkdownDocument::new(vec![])))
    );
}

#[test]
fn test_markdown_element_collection() {
    assert_eq!(
        markdown_element_collection("~~hello~~"),
        Ok((
            "",
            MarkdownElementCollection::new(vec![Strikethrough::new(vec![
                Plain::new("hello").into()
            ])
            .into()])
        ))
    );
    assert_eq!(
        markdown_element_collection("**hello** _world_"),
        Ok((
            "",
            MarkdownElementCollection::new(vec![
                Bold::new(vec![Plain::new("hello").into()]).into(),
                Plain::new(" ").into(),
                ItalicsUnderscore::new(vec![Plain::new("world").into()]).into()
            ])
        ))
    );
    assert_eq!(
        markdown_element_collection("`__hello__` ||world||"),
        Ok((
            "",
            MarkdownElementCollection::new(vec![
                OneLineCode::new("__hello__").into(),
                Plain::new(" ").into(),
                Spoiler::new(vec![Plain::new("world").into()]).into()
            ])
        ))
    );
    assert_eq!(
        markdown_element_collection(""),
        Ok(("", MarkdownElementCollection::new(vec![])))
    );
}

#[test]
fn test_markdown_element_ok() {
    assert_eq!(
        markdown_element("text"),
        Ok(("", Plain::new("text").into()))
    );
    assert_eq!(
        markdown_element("**text"),
        Ok(("", Plain::new("**text").into()))
    );
    assert_eq!(
        markdown_element("text__"),
        Ok(("", Plain::new("text__").into()))
    );

    let content = || vec![Plain::new("text").into()];
    assert_eq!(
        markdown_element("*text*"),
        Ok(("", ItalicsStar::new(content()).into()))
    );
    assert_eq!(
        markdown_element("_text_"),
        Ok(("", ItalicsUnderscore::new(content()).into()))
    );
    assert_eq!(
        markdown_element("**text**"),
        Ok(("", Bold::new(content()).into()))
    );
    assert_eq!(
        markdown_element("__text__"),
        Ok(("", Underline::new(content()).into()))
    );
    assert_eq!(
        markdown_element("~~text~~"),
        Ok(("", Strikethrough::new(content()).into()))
    );
    assert_eq!(
        markdown_element("||text||"),
        Ok(("", Spoiler::new(content()).into()))
    );

    assert_eq!(
        markdown_element("`text`"),
        Ok(("", OneLineCode::new("text").into()))
    );
    assert_eq!(
        markdown_element("```\ntext```"),
        Ok(("", MultiLineCode::new("\ntext", None).into()))
    );
    assert_eq!(
        markdown_element("```html\ntext```"),
        Ok((
            "",
            MultiLineCode::new("\ntext", Some("html".to_string())).into()
        ))
    );

    assert_eq!(
        markdown_element("hello**world**"),
        Ok(("**world**", Plain::new("hello").into()))
    );
    assert_eq!(
        markdown_element("`hello`**world**"),
        Ok(("**world**", OneLineCode::new("hello").into()))
    );
}

#[test]
fn test_markdown_element_err() {
    assert_eq!(
        markdown_element(""),
        Err(parse_error("", ErrorKind::Verify))
    );
}

#[test]
fn test_markdown_element_combined() {
    assert_eq!(
        markdown_element("__*text*__"),
        Ok((
            "",
            Underline::new(vec![
                ItalicsStar::new(vec![Plain::new("text").into()]).into()
            ])
            .into()
        ))
    );
}

#[test]
fn test_plain_ok() {
    assert_eq!(plain("text"), Ok(("", Plain::new("text"))));
    assert_eq!(
        plain("text *italics*"),
        Ok(("*italics*", Plain::new("text ")))
    );
    assert_eq!(plain("*italics*"), Ok(("*italics*", Plain::new(""))));
}

#[test]
fn test_plain_err() {
    assert_eq!(plain(""), Err(parse_error("", ErrorKind::Verify)));
}

#[test]
fn test_italics_star_ok() {
    assert_eq!(
        italics_star("*text*"),
        Ok(("", ItalicsStar::new(vec![Plain::new("text").into()])))
    );
}

#[test]
fn test_italics_star_err() {
    assert_eq!(italics_star("*text"), Err(parse_error("", ErrorKind::Eof)));
    assert_eq!(
        italics_star("text*"),
        Err(parse_error("text*", ErrorKind::Tag))
    );
    assert_eq!(
        italics_star("text"),
        Err(parse_error("text", ErrorKind::Tag))
    );
    assert_eq!(italics_star("**"), Err(parse_error("*", ErrorKind::Verify)));
}

#[test]
fn test_italics_underscore_ok() {
    assert_eq!(
        italics_underscore("_text_"),
        Ok((
            "",
            ItalicsUnderscore::new(vec![Plain::new("text".to_string()).into()])
        ))
    );
}

#[test]
fn test_italics_underscore_err() {
    assert_eq!(
        italics_underscore("_text"),
        Err(parse_error("", ErrorKind::Eof))
    );
    assert_eq!(
        italics_underscore("text_"),
        Err(parse_error("text_", ErrorKind::Tag))
    );
    assert_eq!(
        italics_underscore("text"),
        Err(parse_error("text", ErrorKind::Tag))
    );
    assert_eq!(
        italics_underscore("__"),
        Err(parse_error("_", ErrorKind::Verify))
    );
}

#[test]
fn test_bold_ok() {
    assert_eq!(
        bold("**text**"),
        Ok(("", Bold::new(vec![Plain::new("text").into()])))
    );
}

#[test]
fn test_bold_err() {
    assert_eq!(bold("**text"), Err(parse_error("", ErrorKind::Eof)));
    assert_eq!(bold("text**"), Err(parse_error("text**", ErrorKind::Tag)));
    assert_eq!(bold("*text*"), Err(parse_error("*text*", ErrorKind::Tag)));
    assert_eq!(bold("text"), Err(parse_error("text", ErrorKind::Tag)));
    assert_eq!(bold("****"), Err(parse_error("**", ErrorKind::Verify)));
}

#[test]
fn test_underline_ok() {
    assert_eq!(
        underline("__text__"),
        Ok(("", Underline::new(vec![Plain::new("text").into()])))
    );
}

#[test]
fn test_underline_err() {
    assert_eq!(underline("__text"), Err(parse_error("", ErrorKind::Eof)));
    assert_eq!(
        underline("text__"),
        Err(parse_error("text__", ErrorKind::Tag))
    );
    assert_eq!(
        underline("_text_"),
        Err(parse_error("_text_", ErrorKind::Tag))
    );
    assert_eq!(underline("text"), Err(parse_error("text", ErrorKind::Tag)));
    assert_eq!(underline("____"), Err(parse_error("__", ErrorKind::Verify)));
}

#[test]
fn test_strikethrough_ok() {
    assert_eq!(
        strikethrough("~~text~~"),
        Ok(("", Strikethrough::new(vec![Plain::new("text").into()])))
    );
}

#[test]
fn test_strikethrough_err() {
    assert_eq!(
        strikethrough("~~text"),
        Err(parse_error("", ErrorKind::Eof))
    );
    assert_eq!(
        strikethrough("text~~"),
        Err(parse_error("text~~", ErrorKind::Tag))
    );
    assert_eq!(
        strikethrough("~text~"),
        Err(parse_error("~text~", ErrorKind::Tag))
    );
    assert_eq!(
        strikethrough("text"),
        Err(parse_error("text", ErrorKind::Tag))
    );
    assert_eq!(
        strikethrough("~~~~"),
        Err(parse_error("~~", ErrorKind::Verify))
    );
}

#[test]
fn test_spoiler_ok() {
    assert_eq!(
        spoiler("||text||"),
        Ok(("", Spoiler::new(vec![Plain::new("text").into()])))
    );
}

#[test]
fn test_spoiler_err() {
    assert_eq!(spoiler("||text"), Err(parse_error("", ErrorKind::Eof)));
    assert_eq!(
        spoiler("text||"),
        Err(parse_error("text||", ErrorKind::Tag))
    );
    assert_eq!(
        spoiler("|text|"),
        Err(parse_error("|text|", ErrorKind::Tag))
    );
    assert_eq!(spoiler("text"), Err(parse_error("text", ErrorKind::Tag)));
    assert_eq!(spoiler("||||"), Err(parse_error("||", ErrorKind::Verify)));
}

#[test]
fn test_one_line_code_ok() {
    assert_eq!(
        one_line_code("`*text*`"),
        Ok(("", OneLineCode::new("*text*")))
    );
}

#[test]
fn test_one_line_code_err() {
    assert_eq!(
        one_line_code("`*text*"),
        Err(parse_error("", ErrorKind::Eof))
    );
    assert_eq!(
        one_line_code("*text*`"),
        Err(parse_error("*text*`", ErrorKind::Tag))
    );
    assert_eq!(
        one_line_code("*text*"),
        Err(parse_error("*text*", ErrorKind::Tag))
    );
    assert_eq!(
        one_line_code("``"),
        Err(parse_error("`", ErrorKind::Verify))
    );
}

#[test]
fn test_multi_line_code_ok() {
    assert_eq!(
        multi_line_code("```\nhello\nworld\n```"),
        Ok(("", MultiLineCode::new("\nhello\nworld\n", None)))
    );
    assert_eq!(
        multi_line_code("```hello world```"),
        Ok(("", MultiLineCode::new("hello world", None)))
    );
    assert_eq!(
        multi_line_code("``` hello\nworld```"),
        Ok(("", MultiLineCode::new(" hello\nworld", None)))
    );
    assert_eq!(
        multi_line_code("```\nhello\n```world"),
        Ok(("world", MultiLineCode::new("\nhello\n", None)))
    );
}

#[test]
fn test_multi_line_code_err() {
    assert_eq!(
        multi_line_code("```hello"),
        Err(parse_error("", ErrorKind::Eof))
    );
    assert_eq!(
        multi_line_code("hello```"),
        Err(parse_error("hello```", ErrorKind::Tag))
    );
    assert_eq!(
        multi_line_code("hello"),
        Err(parse_error("hello", ErrorKind::Tag))
    );
    assert_eq!(
        multi_line_code("``````"),
        Err(parse_error("```", ErrorKind::Verify))
    );
}

#[test]
fn test_multi_line_code_with_lang_ok() {
    assert_eq!(
        multi_line_code("```js\nhello\nworld\n```"),
        Ok((
            "",
            MultiLineCode::new("\nhello\nworld\n", Some("js".to_string()))
        ))
    );
    assert_eq!(
        multi_line_code("```x86asm\nhello```"),
        Ok((
            "",
            MultiLineCode::new("\nhello", Some("x86asm".to_string()))
        ))
    );
}

#[test]
fn test_multi_line_code_with_lang_err() {
    assert_eq!(
        multi_line_code("```js\nhello"),
        Err(parse_error("", ErrorKind::Eof))
    );
}
