use discord_md::ast::{
    BlockQuote, Bold, ItalicsStar, ItalicsUnderscore, MarkdownDocument, MarkdownElement,
    MarkdownElementCollection, MultiLineCode, OneLineCode, Plain, Spoiler, Strikethrough, Style,
    Underline,
};
use discord_md::builder::{
    block_quote, bold, italics_star, italics_underscore, multi_line_code, one_line_code, plain,
    spoiler, strikethrough, underline,
};
use discord_md::generate::{ToMarkdownString, ToMarkdownStringOption};
use discord_md::parse;
use discord_md::parser::markdown_element_not_plain;
use discord_md::parser::util::{delimited, take_before1, ErrorKind, ParseError};

fn failure(input: &str, code: ErrorKind) -> ParseError<'_> {
    ParseError { input, code }
}

fn samples() -> Vec<&'static str> {
    vec![
        "",
        "text",
        "*",
        "**",
        "***",
        "****",
        "`",
        "``",
        "```",
        "``````",
        "```js\nfoo\n```",
        "```js```",
        "```\n```",
        "*italics*, ||spoilers||, `*inline code*`",
        "__*nested* styles__ supported",
        "***italics* in bold**",
        "***bold** in italics*",
        "___underline__ in italics_",
        "foo_bar_baz",
        "\\*not escaped\\*",
        "> block\n> quote",
        "~~~~",
        "||||",
        "|| ||",
        "**unclosed *nested",
        "a**b**c__d__e*f*g_h_i~~j~~k||l||m`n`o```p```q",
        "h\u{e9}llo **w\u{f6}rld** \u{2713} ~~\u{1f600}~~ _\u{65e5}\u{672c}\u{8a9e}_",
        "```\u{e9}\ncode```",
        "*a**b**",
        "_a__b__",
        "``a``",
        "`a```b```",
    ]
}

#[test]
fn parse_then_render_gives_back_every_text() {
    for text in samples() {
        assert_eq!(parse(text).to_string(), text, "on {:?}", text);
    }
}

#[test]
fn render_then_parse_gives_back_every_parsed_tree() {
    for text in samples() {
        let tree = parse(text);
        assert_eq!(parse(&tree.to_string()), tree, "on {:?}", text);
    }
}

#[test]
fn render_then_parse_gives_back_a_built_tree() {
    let tree = MarkdownDocument::new(vec![
        plain("generating "),
        one_line_code("markdown"),
        plain(" is "),
        underline(vec![bold("easy"), plain(" and "), bold("fun!")]),
    ]);
    assert_eq!(tree.to_string(), "generating `markdown` is __**easy** and **fun!**__");
    assert_eq!(parse(&tree.to_string()), tree);
}

#[test]
fn adjacent_plain_texts_are_not_read_back() {
    let tree = MarkdownDocument::new(vec![plain("a"), plain("b")]);
    assert_eq!(tree.to_string(), "ab");
    assert_eq!(parse("ab"), MarkdownDocument::new(vec![plain("ab")]));
    assert_ne!(parse(&tree.to_string()), tree);
}

#[test]
fn plain_text_with_a_delimiter_is_not_read_back() {
    let tree = MarkdownDocument::new(vec![plain("*x*")]);
    assert_eq!(parse(&tree.to_string()), MarkdownDocument::new(vec![italics_star("x")]));
}

#[test]
fn a_block_quote_is_not_read_back() {
    let tree = MarkdownDocument::new(vec![block_quote("block\nquote")]);
    assert_eq!(tree.to_string(), "> block\n> quote");
    assert_eq!(parse(&tree.to_string()), MarkdownDocument::new(vec![plain("> block\n> quote")]));
}

#[test]
fn plain_extraction_strips_all_styling() {
    let tree = parse("**bold** and _it_");
    assert_eq!(
        tree.to_markdown_string(&ToMarkdownStringOption::new().omit_format(true)),
        "bold and it"
    );
    assert_eq!(tree.to_plain_string(), "bold and it");
    assert_eq!(tree.content().to_plain_string(), "bold and it");
}

#[test]
fn plain_extraction_keeps_code_and_spoilers() {
    let tree = parse("a `b` ```c\nd``` ||e|| ~~f~~");
    assert_eq!(tree.to_plain_string(), "a b \nd e f");
    assert_eq!(bold(vec![spoiler("x"), plain("y")]).to_plain_string(), "xy");
    assert_eq!(block_quote("a\nb").to_plain_string(), "a\nb");
}

#[test]
fn empty_delimiters_are_plain_text() {
    assert_eq!(parse("**"), MarkdownDocument::new(vec![plain("**")]));
    assert_eq!(parse("****"), MarkdownDocument::new(vec![plain("****")]));
    assert_eq!(parse("__"), MarkdownDocument::new(vec![plain("__")]));
    assert_eq!(parse("~~~~"), MarkdownDocument::new(vec![plain("~~~~")]));
    assert_eq!(parse("||||"), MarkdownDocument::new(vec![plain("||||")]));
    assert_eq!(parse("``"), MarkdownDocument::new(vec![plain("``")]));
    assert_eq!(parse("``````"), MarkdownDocument::new(vec![plain("``````")]));
}

#[test]
fn double_delimiters_are_tried_before_single_ones() {
    assert_eq!(
        parse("__*nested* styles__"),
        MarkdownDocument::new(vec![underline(vec![italics_star("nested"), plain(" styles")])])
    );
    assert_eq!(parse("**x**"), MarkdownDocument::new(vec![bold("x")]));
    assert_eq!(parse("__x__"), MarkdownDocument::new(vec![underline("x")]));
}

#[test]
fn code_suppresses_nested_parsing() {
    assert_eq!(
        parse("`*inline code*`"),
        MarkdownDocument::new(vec![one_line_code("*inline code*")])
    );
    assert_eq!(
        parse("```**not bold** `x` ```"),
        MarkdownDocument::new(vec![multi_line_code("**not bold** `x` ", None)])
    );
}

#[test]
fn code_blocks_and_inline_code_are_told_apart() {
    assert_eq!(parse("```a```"), MarkdownDocument::new(vec![multi_line_code("a", None)]));
    assert_eq!(
        parse("`a```b```"),
        MarkdownDocument::new(vec![one_line_code("a"), plain("`"), one_line_code("b"), plain("``")])
    );
    assert_eq!(
        parse("```a`b```"),
        MarkdownDocument::new(vec![multi_line_code("a`b", None)])
    );
}

#[test]
fn language_tag_is_extracted() {
    assert_eq!(
        parse("```js\nfoo\n```"),
        MarkdownDocument::new(vec![multi_line_code("\nfoo\n", Some("js".to_string()))])
    );
    assert_eq!(parse("```foo```"), MarkdownDocument::new(vec![multi_line_code("foo", None)]));
}

#[test]
fn language_tag_needs_a_line_break_behind_it() {
    assert_eq!(parse("```js```"), MarkdownDocument::new(vec![multi_line_code("js", None)]));
    assert_eq!(parse("```js foo```"), MarkdownDocument::new(vec![multi_line_code("js foo", None)]));
    assert_eq!(parse("```\n```"), MarkdownDocument::new(vec![multi_line_code("\n", None)]));
    assert_eq!(
        parse("```js\n```"),
        MarkdownDocument::new(vec![multi_line_code("\n", Some("js".to_string()))])
    );
    assert_eq!(
        parse("```c++\nx```"),
        MarkdownDocument::new(vec![multi_line_code("c++\nx", None)])
    );
    assert_eq!(
        parse("```\u{e9}\nx```"),
        MarkdownDocument::new(vec![multi_line_code("\u{e9}\nx", None)])
    );
    assert_eq!(
        parse("```Rust2021\nx```"),
        MarkdownDocument::new(vec![multi_line_code("\nx", Some("Rust2021".to_string()))])
    );
}

#[test]
fn empty_input_is_an_empty_document() {
    assert_eq!(parse(""), MarkdownDocument::new(Vec::<MarkdownElement>::new()));
    assert_eq!(parse(""), MarkdownDocument::default());
    assert_eq!(parse("").content().get().len(), 0);
    assert_eq!(parse("").to_string(), "");
}

#[test]
fn spoilers_can_be_omitted() {
    let option = ToMarkdownStringOption::new().omit_spoiler(true);
    let element: MarkdownElement = Spoiler::new(vec![plain("x")]).into();
    assert_eq!(element.to_markdown_string(&option), "");
    let both = ToMarkdownStringOption::new().omit_spoiler(true).omit_format(true);
    assert_eq!(element.to_markdown_string(&both), "");
    assert_eq!(bold(vec![plain("a"), spoiler("x"), plain("b")]).to_markdown_string(&option), "**ab**");
}

#[test]
fn nesting_is_asymmetric() {
    assert_eq!(
        parse("***italics* in bold**"),
        MarkdownDocument::new(vec![bold(vec![italics_star("italics"), plain(" in bold")])])
    );
    assert_eq!(
        parse("***bold** in italics*"),
        MarkdownDocument::new(vec![bold("*bold"), plain(" in italics*")])
    );
    assert_eq!(
        parse("___underline__ in italics_"),
        MarkdownDocument::new(vec![underline("_underline"), plain(" in italics_")])
    );
}

#[test]
fn underscores_inside_words_are_emphasis() {
    assert_eq!(
        parse("foo_bar_baz"),
        MarkdownDocument::new(vec![plain("foo"), italics_underscore("bar"), plain("baz")])
    );
}

#[test]
fn backslashes_do_not_escape() {
    assert_eq!(
        parse("\\*a\\*"),
        MarkdownDocument::new(vec![plain("\\"), italics_star("a\\")])
    );
    assert_eq!(parse("\\*"), MarkdownDocument::new(vec![plain("\\*")]));
}

#[test]
fn block_quotes_are_not_parsed() {
    assert_eq!(parse("> quote"), MarkdownDocument::new(vec![plain("> quote")]));
}

#[test]
fn the_shortest_span_is_taken() {
    assert_eq!(
        parse("*a*b*"),
        MarkdownDocument::new(vec![italics_star("a"), plain("b*")])
    );
    assert_eq!(
        parse("**a**b**c**"),
        MarkdownDocument::new(vec![bold("a"), plain("b"), bold("c")])
    );
}

#[test]
fn text_beyond_ascii_is_kept() {
    assert_eq!(
        parse("h\u{e9}llo **w\u{f6}rld** \u{1f600}"),
        MarkdownDocument::new(vec![plain("h\u{e9}llo "), bold("w\u{f6}rld"), plain(" \u{1f600}")])
    );
    assert_eq!(
        parse("~~\u{65e5}\u{672c}~~\u{8a9e}"),
        MarkdownDocument::new(vec![strikethrough("\u{65e5}\u{672c}"), plain("\u{8a9e}")])
    );
}

#[test]
fn the_last_alternative_reports_the_failure() {
    assert_eq!(markdown_element_not_plain("text"), Err(failure("text", ErrorKind::Tag)));
    assert_eq!(markdown_element_not_plain("||text"), Err(failure("", ErrorKind::Eof)));
    assert_eq!(markdown_element_not_plain("||||"), Err(failure("||", ErrorKind::Verify)));
    assert_eq!(markdown_element_not_plain(""), Err(failure("", ErrorKind::Tag)));
}

#[test]
fn delimited_text_runs_to_the_first_closing_delimiter() {
    assert_eq!(delimited("**", "**a**b**"), Ok(("b**", "a")));
    assert_eq!(delimited("**", "**a***"), Ok(("*", "a")));
    assert_eq!(delimited("*", "*\u{e9}*"), Ok(("", "\u{e9}")));
    assert_eq!(delimited("**", "*a**"), Err(failure("*a**", ErrorKind::Tag)));
    assert_eq!(delimited("**", "**a*"), Err(failure("", ErrorKind::Eof)));
    assert_eq!(delimited("**", "****"), Err(failure("**", ErrorKind::Verify)));
}

#[test]
fn take_before1_refuses_an_empty_slice() {
    assert_eq!(take_before1("end", "123end456"), Ok(("end456", "123")));
    assert_eq!(take_before1("end", "end456"), Err(failure("end456", ErrorKind::Verify)));
    assert_eq!(take_before1("end", "123"), Err(failure("", ErrorKind::Eof)));
}

#[test]
fn block_quote_prefixes_every_line() {
    let option = ToMarkdownStringOption::new();
    assert_eq!(block_quote("").to_markdown_string(&option), "> ");
    assert_eq!(block_quote("a").to_markdown_string(&option), "> a");
    assert_eq!(block_quote("a\n").to_markdown_string(&option), "> a\n> ");
    assert_eq!(block_quote("\n\n").to_markdown_string(&option), "> \n> \n> ");
    assert_eq!(
        block_quote(vec![bold("a\nb"), plain("\nc")]).to_markdown_string(&option),
        "> **a\n> b**\n> c"
    );
    assert_eq!(
        BlockQuote::new(vec![bold("a\nb")])
            .to_markdown_string(&ToMarkdownStringOption::new().omit_format(true)),
        "a\nb"
    );
}

#[test]
fn options_start_without_omissions() {
    let option = ToMarkdownStringOption::new();
    assert!(!option.omit_format);
    assert!(!option.omit_spoiler);
    let option = ToMarkdownStringOption::default();
    assert!(!option.omit_format);
    assert!(!option.omit_spoiler);
    let option = ToMarkdownStringOption::new().omit_format(true);
    assert!(option.omit_format);
    assert!(!option.omit_spoiler);
    let option = option.omit_spoiler(true).omit_format(false);
    assert!(!option.omit_format);
    assert!(option.omit_spoiler);
}

#[test]
fn equality_is_structural() {
    assert_eq!(bold("a"), bold(vec![plain("a")]));
    assert_ne!(bold("a"), underline("a"));
    assert_ne!(bold("a"), bold("b"));
    assert_ne!(bold(vec![plain("a"), plain("b")]), bold(vec![plain("b"), plain("a")]));
    assert_ne!(bold(vec![plain("a")]), bold(vec![plain("a"), plain("a")]));
    assert_ne!(plain("a"), one_line_code("a"));
    assert_ne!(multi_line_code("a", None), multi_line_code("a", Some("".to_string())));
    assert_ne!(
        multi_line_code("a", Some("js".to_string())),
        multi_line_code("a", Some("rs".to_string()))
    );
    assert_eq!(
        multi_line_code("a", Some("js".to_string())),
        multi_line_code("a", Some("js".to_string()))
    );
    assert_ne!(block_quote("a"), bold("a"));
    assert_eq!(block_quote(vec![bold("a")]), block_quote(vec![bold("a")]));
    assert_eq!(
        MarkdownDocument::new(vec![italics_star(vec![underline("a")])]),
        MarkdownDocument::new(italics_star(underline("a")))
    );
    assert_ne!(
        MarkdownElementCollection::new(vec![plain("a")]),
        MarkdownElementCollection::new(vec![])
    );
    assert_eq!(Plain::new("a"), Plain::new("a".to_string()));
    assert_ne!(OneLineCode::new("a"), OneLineCode::new("b"));
    assert_ne!(MultiLineCode::new("a", None), MultiLineCode::new("b", None));
    assert_ne!(Bold::new("a"), Bold::new("b"));
    assert_ne!(ItalicsStar::new("a"), ItalicsStar::new("b"));
    assert_ne!(ItalicsUnderscore::new("a"), ItalicsUnderscore::new("b"));
    assert_ne!(Underline::new("a"), Underline::new("b"));
    assert_ne!(Strikethrough::new("a"), Strikethrough::new("b"));
    assert_ne!(Spoiler::new("a"), Spoiler::new("b"));
}

#[test]
fn a_collection_hands_out_its_elements() {
    let collection = MarkdownElementCollection::new(vec![plain("a"), bold("b")]);
    let elements: Vec<MarkdownElement> = collection.into();
    assert_eq!(elements, vec![plain("a"), bold("b")]);
    let collection = MarkdownElementCollection::from(vec![plain("a"), bold("b")]);
    let mut seen = Vec::new();
    for element in collection {
        seen.push(element);
    }
    assert_eq!(seen, vec![plain("a"), bold("b")]);
    assert_eq!(MarkdownElementCollection::default(), MarkdownElementCollection::new(vec![]));
}

#[test]
fn styles_know_their_delimiters() {
    assert_eq!(Style::ItalicsStar.as_str(), "*");
    assert_eq!(Style::ItalicsUnderscore.as_str(), "_");
    assert_eq!(Style::Bold.as_str(), "**");
    assert_eq!(Style::Underline.as_str(), "__");
    assert_eq!(Style::Strikethrough.as_str(), "~~");
    assert_eq!(Style::Spoiler.as_str(), "||");
}
