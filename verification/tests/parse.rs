// Tests of the custom parsers, over hand-built token streams.

use kvapi::common::{Expr, Separator, Token};
use kvapi::dict::{Attr, Dict, Entry};
use kvapi::headers::{Header, Headers};

fn lit(s: &str) -> Token {
    Token::LitStr(String::from(s))
}

fn ident(s: &str) -> Token {
    Token::Ident(String::from(s))
}

fn opaque(s: &str) -> Token {
    Token::Opaque(String::from(s))
}

// Separator; parse `:`, `=`, or `->`
#[test]
fn parse_separator() {
    let input = vec![Token::Colon];
    let (parsed, _) = Separator::parse(&input, 0).expect("parse `:`");
    assert_eq!(parsed, Separator::Colon);

    let input = vec![Token::Equals];
    let (parsed, _) = Separator::parse(&input, 0).expect("parse `=`");
    assert_eq!(parsed, Separator::Equals);

    let input = vec![Token::Arrow];
    let (parsed, _) = Separator::parse(&input, 0).expect("parse `->`");
    assert_eq!(parsed, Separator::Arrow);
}

#[test]
fn parse_dict() {
    // 1. no attrs
    let input = vec![
        Token::OpenBrace,
        lit("my_endpoint"),
        Token::Colon,
        opaque("MyType"),
        Token::Comma,
        lit("another_endpoint"),
        Token::Colon,
        opaque("AnotherType"),
        Token::Comma,
        lit("a_third_endpoint"),
        Token::Colon,
        opaque("ThirdType"),
        Token::Comma,
        Token::CloseBrace,
    ];
    Dict::parse(&input, 0).expect("parse Dict [no attrs]");

    // 2. rename attr
    let input = vec![
        Token::OpenBrace,
        Token::Pound,
        Token::OpenBracket,
        ident("rename"),
        Token::Equals,
        lit("it_should_be_called_this"),
        Token::CloseBracket,
        lit("my_endpoint"),
        Token::Equals,
        opaque("MyType"),
        Token::Comma,
        lit("another_endpoint"),
        Token::Colon,
        opaque("AnotherType"),
        Token::Comma,
        Token::Pound,
        Token::OpenBracket,
        ident("rename"),
        Token::Equals,
        lit("call_it_this"),
        Token::CloseBracket,
        lit("a_third_endpoint"),
        Token::Arrow,
        opaque("ThirdType"),
        Token::Comma,
        Token::CloseBrace,
    ];
    Dict::parse(&input, 0).expect("parse Dict [with rename attrs]");

    // 3. query attr, entries not always comma-separated
    let input = vec![
        Token::OpenBrace,
        Token::Pound,
        Token::OpenBracket,
        ident("query"),
        Token::Equals,
        lit("?add_this_on_the_end"),
        Token::CloseBracket,
        lit("my_endpoint"),
        Token::Colon,
        opaque("MyType"),
        Token::Pound,
        Token::OpenBracket,
        ident("query"),
        Token::Equals,
        lit("?add_this_on_the_end"),
        Token::CloseBracket,
        lit("another_endpoint"),
        Token::Colon,
        opaque("AnotherType"),
        Token::Comma,
        Token::Pound,
        Token::OpenBracket,
        ident("query"),
        Token::Equals,
        lit("?add_this_on_the_end"),
        Token::CloseBracket,
        lit("a_third_endpoint"),
        Token::Colon,
        opaque("ThirdType"),
        Token::CloseBrace,
    ];
    Dict::parse(&input, 0).expect("parse Dict [with query attrs]");

    // 4. rename & query attrs, mixed separators, trailing comma in attrs
    let input = vec![
        Token::OpenBrace,
        Token::Pound,
        Token::OpenBracket,
        ident("rename"),
        Token::Equals,
        lit("it_should_be_called_this"),
        Token::Comma,
        ident("query"),
        Token::Equals,
        lit("?add_this_on_the_end"),
        Token::CloseBracket,
        lit("my_endpoint"),
        Token::Colon,
        opaque("MyType"),
        lit("another_endpoint"),
        Token::Equals,
        opaque("AnotherType"),
        Token::Comma,
        Token::Pound,
        Token::OpenBracket,
        ident("query"),
        Token::Colon,
        lit("?add_this"),
        Token::Comma,
        ident("rename"),
        Token::Arrow,
        lit("call_it_this"),
        Token::Comma,
        Token::CloseBracket,
        lit("a_third_endpoint"),
        Token::Arrow,
        opaque("ThirdType"),
        Token::Comma,
        Token::CloseBrace,
    ];
    Dict::parse(&input, 0).expect("parse Dict [with rename & query attrs]");
}

#[test]
fn parse_dict_entry() {
    // 1. no attr
    let input = vec![lit("my_endpoint"), Token::Colon, opaque("MyType")];
    let (parsed, _) = Entry::parse(&input, 0).expect("parse Record; no macro");
    assert_eq!(parsed.endpoint, String::from("my_endpoint"));
    assert_eq!(parsed.de_type, String::from("MyType"));

    // 2. with attr (rename)
    let input = vec![
        Token::Pound,
        Token::OpenBracket,
        ident("rename"),
        Token::Equals,
        lit("rename_to_this"),
        Token::CloseBracket,
        lit("/this/is/an/endpoint.json"),
        Token::Colon,
        opaque("std :: collections :: HashMap < String , i32 >"),
    ];
    let (parsed, _) = Entry::parse(&input, 0).expect("parse Record; with attr (rename)");
    assert_eq!(parsed.endpoint, String::from("/this/is/an/endpoint.json"));
    assert_eq!(
        parsed.de_type,
        String::from("std :: collections :: HashMap < String , i32 >")
    );
    assert_eq!(parsed.rename, Some(String::from("rename_to_this")));

    // 3. with attr (query)
    let input = vec![
        Token::Pound,
        Token::OpenBracket,
        ident("query"),
        Token::Equals,
        lit("?add_this_on_the_end"),
        Token::CloseBracket,
        lit("/some_url"),
        Token::Colon,
        opaque("Map < String , Map < String , f32 > >"),
    ];
    let (parsed, _) = Entry::parse(&input, 0).expect("parse Record; with attr (query)");
    assert_eq!(parsed.endpoint, String::from("/some_url"));
    assert_eq!(
        parsed.de_type,
        String::from("Map < String , Map < String , f32 > >")
    );
    assert_eq!(
        parsed.query,
        Some(Expr::Lit(String::from("?add_this_on_the_end")))
    );

    // 4. with attrs (query & rename)
    let input = vec![
        Token::Pound,
        Token::OpenBracket,
        ident("query"),
        Token::Arrow,
        lit("?add_this_on_the_end"),
        Token::Comma,
        ident("rename"),
        Token::Colon,
        lit("renamed"),
        Token::CloseBracket,
        lit("/some_url"),
        Token::Colon,
        opaque("Map < String , Map < String , f32 > >"),
    ];
    let (parsed, _) = Entry::parse(&input, 0).expect("parse Record; with attrs (query & rename)");
    assert_eq!(parsed.endpoint, String::from("/some_url"));
    assert_eq!(
        parsed.de_type,
        String::from("Map < String , Map < String , f32 > >")
    );
    assert_eq!(parsed.rename, Some(String::from("renamed")));
    assert_eq!(
        parsed.query,
        Some(Expr::Lit(String::from("?add_this_on_the_end")))
    );
}

#[test]
fn parse_dict_attr() {
    // 1. parse `query: "/append/this/string"`
    let input = vec![ident("query"), Token::Colon, lit("/append/this/string")];
    let (parsed, _) = Attr::parse(&input, 0).expect("parse `query(\"append/this/string\")`");
    assert_eq!(parsed.fn_id, String::from("query"));
    assert_eq!(parsed.arg, Expr::Lit(String::from("/append/this/string")));

    // 2. parse `rename="rename_to_this"`
    let input = vec![ident("rename"), Token::Equals, lit("rename_to_this")];
    let (parsed, _) = Attr::parse(&input, 0).expect("parse `rename(\"rename_to_this\")`");
    assert_eq!(parsed.fn_id, String::from("rename"));
    assert_eq!(parsed.arg, Expr::Lit(String::from("rename_to_this")));
}

#[test]
fn parse_headers() {
    let input = vec![
        Token::OpenBrace,
        lit("User-Agent"),
        Token::Equals,
        lit("example@example_domain.com"),
        lit("Useragent"),
        Token::Colon,
        opaque("& source :: var (\"USER_AGENT\")"),
        Token::Comma,
        Token::CloseBrace,
    ];
    let (parsed, _) = Headers::parse(&input, 0).expect("parse Headers");
    assert_eq!(parsed.client.len(), 2);
    assert_eq!(parsed.query.len(), 0);
    assert_eq!(parsed.client[0].key, String::from("User-Agent"));
    assert_eq!(
        parsed.client[0].value,
        String::from("\"example@example_domain.com\"")
    );
    assert_eq!(parsed.client[1].key, String::from("Useragent"));
    assert_eq!(
        parsed.client[1].value,
        String::from("& source :: var (\"USER_AGENT\")")
    );
}

#[test]
fn parse_header() {
    // 1. parse `LitStr: LitStr`
    let input = vec![lit("User-Agent"), Token::Colon, lit("example@domain.com")];
    let (parsed, _) = Header::parse(&input, 0).expect("parse `LitStr: LitStr`");
    assert_eq!(parsed.key, String::from("User-Agent"));
    assert_eq!(parsed.value, String::from("\"example@domain.com\""));
    assert!(!parsed.is_query);

    // 2. parse `LitStr -> Expr`
    let input = vec![
        lit("UserAgent"),
        Token::Arrow,
        opaque("& source :: var (\"USER_AGENT\")"),
    ];
    let (parsed, _) = Header::parse(&input, 0).expect("parse `LitStr -> Expr`");
    assert_eq!(parsed.key, String::from("UserAgent"));
    assert_eq!(parsed.value, String::from("& source :: var (\"USER_AGENT\")"));
}
