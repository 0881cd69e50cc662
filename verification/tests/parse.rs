use discord_md::ast::{
    ItalicsStar, MarkdownDocument, MarkdownElement, MultiLineCode, OneLineCode, Plain, Spoiler,
    Underline,
};
use discord_md::parse;

#[test]
    fn test_parse_1() {
        let message = "*italics*, ||spoilers||, `*inline code*`";
        assert_eq!(
            parse(message),
            MarkdownDocument::new(vec![
                MarkdownElement::ItalicsStar(Box::new(ItalicsStar::new(vec![
                    MarkdownElement::Plain(Box::new(Plain::new("italics")))
                ]))),
                MarkdownElement::Plain(Box::new(Plain::new(", "))),
                MarkdownElement::Spoiler(Box::new(Spoiler::new(vec![MarkdownElement::Plain(
                    Box::new(Plain::new("spoilers"))
                )]))),
                MarkdownElement::Plain(Box::new(Plain::new(", "))),
                MarkdownElement::OneLineCode(Box::new(OneLineCode::new("*inline code*"))),
            ])
        );
    }

    #[test]
    fn test_parse_2() {
        let message = "__*nested* styles__ supported";
        assert_eq!(
            parse(message),
            MarkdownDocument::new(vec![
                MarkdownElement::Underline(Box::new(Underline::new(vec![
                    MarkdownElement::ItalicsStar(Box::new(ItalicsStar::new(vec![
                        MarkdownElement::Plain(Box::new(Plain::new("nested")))
                    ]))),
                    MarkdownElement::Plain(Box::new(Plain::new(" styles")))
                ]))),
                MarkdownElement::Plain(Box::new(Plain::new(" supported"))),
            ])
        );
    }

    #[test]
    fn test_parse_3() {
        let message = r#"
```js
const cond = a > b || c < d || e === f;
```
        "#
        .trim();
        assert_eq!(
            parse(message),
            MarkdownDocument::new(vec![MarkdownElement::MultiLineCode(Box::new(
                MultiLineCode::new(
                    "\nconst cond = a > b || c < d || e === f;\n",
                    Some("js".to_string())
                )
            ))])
        );
    }
