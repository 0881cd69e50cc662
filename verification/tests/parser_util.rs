use discord_md::parser::util::{rest1, take_before0, wrapped, ErrorKind, ParseError};

fn parse_error(input: &str, code: ErrorKind) -> ParseError<'_> {
    ParseError { input, code }
}

#[test]
fn test_rest1() {
    assert_eq!(rest1("hello"), Ok(("", "hello")));
    assert_eq!(rest1(""), Err(parse_error("", ErrorKind::Verify)));
}

#[test]
fn test_wrapped() {
    let parser = |i| wrapped("*", i);

    assert_eq!(parser("*hello*"), Ok(("", "hello")));
    assert_eq!(parser("*hello*world"), Ok(("world", "hello")));
    assert_eq!(parser("*hello"), Err(parse_error("", ErrorKind::Tag)));
    assert_eq!(parser("hello*"), Err(parse_error("hello*", ErrorKind::Tag)));
    assert_eq!(parser(""), Err(parse_error("", ErrorKind::Tag)));
    assert_eq!(parser("**"), Err(parse_error("*", ErrorKind::IsNot)));
}

#[test]
fn test_take_before0() {
    let parser = |i| take_before0("end", i);

    assert_eq!(parser("123end456"), Ok(("end456", "123")));
    assert_eq!(parser("end456"), Ok(("end456", "")));
    assert_eq!(parser("123"), Err(parse_error("", ErrorKind::Eof)));
    assert_eq!(parser(""), Err(parse_error("", ErrorKind::Eof)));
}
