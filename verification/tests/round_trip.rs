use discord_md::ast::MarkdownDocument;
use discord_md::builder::{
    bold, italics_star, italics_underscore, multi_line_code, one_line_code, plain, spoiler,
    strikethrough, underline,
};
use discord_md::parse;

#[test]
fn test_generate_then_parse() {
    let ast = MarkdownDocument::new(vec![
        italics_star(vec![
            plain("this "),
            italics_underscore("is"),
            plain(" "),
            underline(vec![plain("an "), strikethrough("example")]),
        ]),
        plain("\n"),
        bold(vec![one_line_code("mark\ndown")]),
        plain(" document.\n"),
        spoiler("Lorem ipsum ..."),
        plain("\n"),
        multi_line_code("\nsome\ncode", None),
    ]);

    assert_eq!(parse(&ast.to_string()), ast);
}

#[test]
fn test_parse_then_generate_1() {
    let message = "\
# Example

You can write *italics text*, `*inline code*`, and more!
Of course __*nested* styles__ are supported, ~~strikethrough~~ and ||spoilers|| too.

```sh
echo \"Code block is _available_ too!\"
```

> block quotes stay as they are
";
    assert_eq!(parse(message).to_string(), message);
}

#[test]
fn test_parse_then_generate_2() {
    let message = "\
discord-md
==========

Parser and generator for Discord's markdown, written in Rust.

```rust
let ast = parse(\"this **is** markdown.\");
assert_eq!(ast.to_string(), \"this **is** markdown.\");
```

- Block quotes are not parsed. `> ` will be treated as plain text.
- Nested emphasis, like `*italics **bold italics** italics*`, may not be parsed properly.
- The parser treats `foo_bar_baz` as emphasis, ***bold** in italics* is read differently.
";
    assert_eq!(parse(message).to_string(), message);
}
