// Behavioural tests: separator equivalence, tree building, URL
// composition, header dedup, mandatory fields, and the emitted
// artifacts.

use kvapi::artifact::UrlDef;
use kvapi::builder::ApiBuilder;
use kvapi::common::{file_types, Expr, ParseError, Token};
use kvapi::dict::{split_segments, Dict, Entry};
use kvapi::headers::Headers;
use kvapi::headers::Attr;
use kvapi::input::Input;
use kvapi::node::Node;
use kvapi::tokens::ApiComponents;

fn lit(s: &str) -> Token {
    Token::LitStr(String::from(s))
}

fn ident(s: &str) -> Token {
    Token::Ident(String::from(s))
}

fn opaque(s: &str) -> Token {
    Token::Opaque(String::from(s))
}

fn entry_tokens(sep: Token) -> Vec<Token> {
    vec![lit("my_endpoint"), sep, opaque("MyType")]
}

// For all three separators, an identical field yields an identical
// parsed structure.
#[test]
fn separator_equivalence_entry() {
    let (colon, _) = Entry::parse(&entry_tokens(Token::Colon), 0).unwrap();
    let (equals, _) = Entry::parse(&entry_tokens(Token::Equals), 0).unwrap();
    let (arrow, _) = Entry::parse(&entry_tokens(Token::Arrow), 0).unwrap();
    assert_eq!(colon, equals);
    assert_eq!(colon, arrow);
}

#[test]
fn separator_equivalence_input() {
    let toks = |sep: Token| -> Vec<Token> {
        vec![
            ident("name"),
            sep.clone(),
            ident("MyApi"),
            ident("dict"),
            sep.clone(),
            Token::OpenBrace,
            lit("stats"),
            sep,
            opaque("Stats"),
            Token::CloseBrace,
        ]
    };
    let a = Input::parse(&toks(Token::Colon)).unwrap();
    let b = Input::parse(&toks(Token::Equals)).unwrap();
    let c = Input::parse(&toks(Token::Arrow)).unwrap();
    assert_eq!(a.name, b.name);
    assert_eq!(a.name, c.name);
    assert_eq!(a.dict, b.dict);
    assert_eq!(a.dict, c.dict);
}

// The rename target determines placement; the original path determines
// the URL template.
#[test]
fn rename_places_but_path_composes() {
    let toks = vec![
        Token::OpenBrace,
        Token::Pound,
        Token::OpenBracket,
        ident("rename"),
        Token::Equals,
        lit("short"),
        Token::CloseBracket,
        lit("/very/long/path.json"),
        Token::Colon,
        opaque("T"),
        Token::CloseBrace,
    ];
    let (dict, _) = Dict::parse(&toks, 0).unwrap();
    assert_eq!(dict.len(), 1);
    let node = dict.get(&String::from("short")).expect("placed under rename");
    assert!(node.root);
    let tpl = node.endpoint.as_ref().expect("leaf payload");
    assert_eq!(tpl.path, String::from("/very/long/path.json"));
    assert!(dict.get(&String::from("very")).is_none());
    assert!(dict.get(&String::from("long")).is_none());
    assert!(dict.get(&String::from("path")).is_none());
}

// Splitting "a/b.json" elides both the dot separator and the json
// suffix.
#[test]
fn split_elides_suffix() {
    let segs = split_segments("a/b.json");
    assert_eq!(segs, vec![String::from("a"), String::from("b")]);
}

#[test]
fn split_edge_cases() {
    assert_eq!(split_segments(""), Vec::<String>::new());
    assert_eq!(split_segments("json"), Vec::<String>::new());
    assert_eq!(split_segments("//a..b//"), vec![String::from("a"), String::from("b")]);
    assert_eq!(
        split_segments("/data.csv"),
        vec![String::from("data")]
    );
    let kinds = file_types();
    assert_eq!(kinds, vec!["json", "csv", "xml", "toml", "yaml", "html", "htm"]);
}

// {"x/y": T1, "x/z": T2}: one root x with children {y, z}, two leaves
// with the right payloads.
#[test]
fn shared_prefix_tree() {
    let toks = vec![
        Token::OpenBrace,
        lit("x/y"),
        Token::Colon,
        opaque("T1"),
        Token::Comma,
        lit("x/z"),
        Token::Colon,
        opaque("T2"),
        Token::CloseBrace,
    ];
    let (dict, _) = Dict::parse(&toks, 0).unwrap();
    assert_eq!(dict.len(), 3);
    let x = dict.get(&String::from("x")).unwrap();
    assert!(x.root);
    assert!(x.endpoint.is_none());
    assert_eq!(x.children, vec![String::from("y"), String::from("z")]);
    let y = dict.get(&String::from("y")).unwrap();
    assert!(!y.root);
    assert_eq!(y.de_type, Some(String::from("T1")));
    assert_eq!(y.endpoint.as_ref().unwrap().path, String::from("x/y"));
    let z = dict.get(&String::from("z")).unwrap();
    assert!(!z.root);
    assert_eq!(z.de_type, Some(String::from("T2")));
    assert_eq!(z.endpoint.as_ref().unwrap().path, String::from("x/z"));
}

// {"x/y": T1, "z/y": T2}: the same child segment name under two roots
// is merged into one globally keyed node; the later entry's payload
// stands on the shared leaf.  This is the documented global-merge
// behaviour, not an error.
#[test]
fn same_segment_name_merges_globally() {
    let toks = vec![
        Token::OpenBrace,
        lit("x/y"),
        Token::Colon,
        opaque("T1"),
        Token::Comma,
        lit("z/y"),
        Token::Colon,
        opaque("T2"),
        Token::CloseBrace,
    ];
    let (dict, _) = Dict::parse(&toks, 0).unwrap();
    assert_eq!(dict.len(), 3);
    let x = dict.get(&String::from("x")).unwrap();
    let z = dict.get(&String::from("z")).unwrap();
    assert!(x.root && z.root);
    assert_eq!(x.children, vec![String::from("y")]);
    assert_eq!(z.children, vec![String::from("y")]);
    let y = dict.get(&String::from("y")).unwrap();
    assert!(!y.root);
    assert_eq!(y.de_type, Some(String::from("T2")));
    assert_eq!(y.endpoint.as_ref().unwrap().path, String::from("z/y"));
}

fn compose(base: Option<&str>, q: Option<&str>, g: Option<&str>) -> String {
    let u = UrlDef {
        base: base.map(String::from),
        path: String::from("p"),
        query: q.map(|s| Expr::Lit(String::from(s))),
        global_query: g.map(|s| Expr::Lit(String::from(s))),
    };
    u.compose().expect("all pieces literal")
}

// URL composition order: base + path + entry query + global query, for
// every combination of the optional pieces.
#[test]
fn url_composition_order() {
    assert_eq!(compose(Some("B"), Some("?q"), Some("g")), String::from("Bp?qg"));
    assert_eq!(compose(Some("B"), Some("?q"), None), String::from("Bp?q"));
    assert_eq!(compose(Some("B"), None, Some("g")), String::from("Bpg"));
    assert_eq!(compose(Some("B"), None, None), String::from("Bp"));
    assert_eq!(compose(None, Some("?q"), Some("g")), String::from("p?qg"));
    assert_eq!(compose(None, Some("?q"), None), String::from("p?q"));
    assert_eq!(compose(None, None, Some("g")), String::from("pg"));
    assert_eq!(compose(None, None, None), String::from("p"));
}

#[test]
fn url_opaque_query_not_composable() {
    let u = UrlDef {
        base: None,
        path: String::from("p"),
        query: Some(Expr::Raw(String::from("some_call()"))),
        global_query: None,
    };
    assert!(u.compose().is_none());
}

// Identical (key, value) pairs are collapsed to one; same key with
// different values keeps both.
#[test]
fn header_dedup() {
    let toks = vec![
        Token::OpenBrace,
        lit("K"),
        Token::Colon,
        lit("v1"),
        Token::Comma,
        lit("K"),
        Token::Colon,
        lit("v1"),
        Token::Comma,
        lit("K"),
        Token::Colon,
        lit("v2"),
        Token::CloseBrace,
    ];
    let (hs, _) = Headers::parse(&toks, 0).unwrap();
    assert_eq!(hs.client.len(), 2);
    assert_eq!(hs.client[0].value, String::from("\"v1\""));
    assert_eq!(hs.client[1].value, String::from("\"v2\""));
}

#[test]
fn header_scopes_partition() {
    let toks = vec![
        Token::OpenBrace,
        lit("A"),
        Token::Colon,
        lit("x"),
        Token::Comma,
        Token::Pound,
        Token::OpenBracket,
        ident("query"),
        Token::CloseBracket,
        lit("B"),
        Token::Colon,
        opaque("sign(self.url)"),
        Token::Comma,
        Token::Pound,
        Token::OpenBracket,
        ident("client"),
        Token::CloseBracket,
        lit("C"),
        Token::Colon,
        lit("y"),
        Token::CloseBrace,
    ];
    let (hs, _) = Headers::parse(&toks, 0).unwrap();
    assert_eq!(hs.client.len(), 2);
    assert_eq!(hs.query.len(), 1);
    assert_eq!(hs.client[0].key, String::from("A"));
    assert_eq!(hs.client[1].key, String::from("C"));
    assert_eq!(hs.query[0].key, String::from("B"));
    assert!(hs.query[0].is_query);
}

// Missing mandatory fields are rejected before any artifact exists.
#[test]
fn missing_name_rejected() {
    let toks = vec![
        ident("dict"),
        Token::Colon,
        Token::OpenBrace,
        lit("p"),
        Token::Colon,
        opaque("T"),
        Token::CloseBrace,
    ];
    assert_eq!(Input::parse(&toks).unwrap_err(), ParseError::MissingName);
    assert_eq!(ApiBuilder::parse(&toks).unwrap_err(), ParseError::MissingName);
}

#[test]
fn missing_dict_rejected() {
    let toks = vec![ident("name"), Token::Colon, ident("Api")];
    assert_eq!(Input::parse(&toks).unwrap_err(), ParseError::MissingDict);
    assert_eq!(ApiBuilder::parse(&toks).unwrap_err(), ParseError::MissingDict);
}

#[test]
fn alias_fields_accepted_by_builder_only() {
    let toks = vec![
        ident("N"),
        Token::Colon,
        ident("Api"),
        ident("D"),
        Token::Colon,
        Token::OpenBrace,
        lit("p"),
        Token::Colon,
        opaque("T"),
        Token::CloseBrace,
    ];
    assert!(ApiBuilder::parse(&toks).is_ok());
    assert_eq!(Input::parse(&toks).unwrap_err(), ParseError::UnknownField);
}

fn small_input() -> Input {
    let toks = vec![
        ident("name"),
        Token::Colon,
        ident("Api"),
        ident("dict"),
        Token::Colon,
        Token::OpenBrace,
        lit("a/b"),
        Token::Colon,
        opaque("T"),
        Token::Comma,
        lit("c"),
        Token::Colon,
        opaque("U"),
        Token::CloseBrace,
    ];
    Input::parse(&toks).unwrap()
}

// Every node is emitted; every root appears exactly once as a field of
// the top-level container; the case conversions come from the real
// converter.
#[test]
fn components_cover_every_node() {
    let c = ApiComponents::build(small_input());
    assert_eq!(c.other_nodes.len(), 3);
    assert_eq!(c.root_fields.len(), 2);
    assert_eq!(c.root_fields[0].field_name, String::from("a"));
    assert_eq!(c.root_fields[0].struct_name, String::from("ApiA"));
    assert_eq!(c.root_fields[1].field_name, String::from("c"));
    assert_eq!(c.root_fields[1].struct_name, String::from("ApiC"));
    let a = &c.other_nodes[0];
    assert!(a.is_root);
    assert!(a.http.is_none());
    assert_eq!(a.fields.len(), 1);
    assert_eq!(a.fields[0].field_name, String::from("b"));
    assert_eq!(a.fields[0].struct_name, String::from("ApiB"));
    let b = &c.other_nodes[1];
    assert!(!b.is_root);
    let http = b.http.as_ref().expect("leaf has an HTTP surface");
    assert_eq!(http.de_type, String::from("T"));
    assert_eq!(http.url.path, String::from("a/b"));
}

#[test]
fn casing_is_really_converted() {
    let toks = vec![
        ident("name"),
        Token::Colon,
        ident("Api"),
        ident("dict"),
        Token::Colon,
        Token::OpenBrace,
        lit("my_endpoint"),
        Token::Colon,
        opaque("T"),
        Token::CloseBrace,
    ];
    let c = ApiComponents::build(Input::parse(&toks).unwrap());
    assert_eq!(c.root_fields[0].field_name, String::from("my_endpoint"));
    assert_eq!(c.root_fields[0].struct_name, String::from("ApiMyEndpoint"));
}

// Every emitted container, leaf or intermediate, is constructible: its
// generated constructor initialises exactly its declared fields, and
// the top-level container registers every root once.
#[test]
fn generated_code_round_trip() {
    let toks = vec![
        ident("name"),
        Token::Colon,
        ident("Api"),
        ident("base"),
        Token::Colon,
        lit("https://example.test"),
        ident("dict"),
        Token::Colon,
        Token::OpenBrace,
        Token::Pound,
        Token::OpenBracket,
        ident("query"),
        Token::Equals,
        lit("?lim=5"),
        Token::CloseBracket,
        lit("a/b"),
        Token::Colon,
        opaque("T"),
        Token::Comma,
        lit("c"),
        Token::Colon,
        opaque("U"),
        Token::CloseBrace,
        ident("query"),
        Token::Colon,
        lit("&key=k"),
    ];
    let builder = ApiBuilder::parse(&toks).unwrap();
    let out = builder.build();
    // the top-level container and its constructor
    assert!(out.contains("pub struct Api {\na: ApiA,\nc: ApiC,\n}"));
    assert!(out.contains("a: ApiA::new(),\nc: ApiC::new(),\n"));
    // every node has a struct and a constructor
    assert!(out.contains("pub struct ApiA {\nb: ApiB,\n}"));
    assert!(out.contains("b: ApiB::new(),\n"));
    assert!(out.contains("pub struct ApiB {\nclient: reqwest::Client,\nurl: String,\n}"));
    assert!(out.contains("pub struct ApiC {\nclient: reqwest::Client,\nurl: String,\n}"));
    assert!(out.contains("client: Self::build_client(),\nurl: Self::build_url(),\n"));
    // URL statement order: the base binding, the path with its entry
    // query, the re-basing, and the global query appended last
    let ep = out.find("let url = format!(\"{}{}\", \"a/b\", \"?lim=5\");").unwrap();
    let base = out.find("let base = \"https://example.test\";").unwrap();
    let rebased = out.find("let url = format!(\"{}{}\", base, url);").unwrap();
    let glob = out.find("let url = format!(\"{}{}\", url, \"&key=k\");").unwrap();
    assert!(base < ep && ep < rebased && rebased < glob);
    // leaf operations decode the declared type
    assert!(out.contains("pub async fn get(&self) -> reqwest::Result<T>"));
    assert!(out.contains("pub async fn post(&self, json: serde_json::Value) -> reqwest::Result<T>"));
    assert!(out.contains("reqwest::Result<U>"));
}

#[test]
fn empty_dict_rejected() {
    let toks = vec![Token::OpenBrace, Token::CloseBrace];
    assert_eq!(Dict::parse(&toks, 0).unwrap_err(), ParseError::EmptyDict);
}

#[test]
fn unusable_path_rejected() {
    let toks = vec![Token::OpenBrace, lit("json"), Token::Colon, opaque("T"), Token::CloseBrace];
    assert_eq!(Dict::parse(&toks, 0).unwrap_err(), ParseError::EmptySegments);
}

#[test]
fn grammar_errors() {
    // wrong token where a separator is owed
    let toks = vec![ident("name"), ident("x")];
    assert_eq!(Input::parse(&toks).unwrap_err(), ParseError::ExpectedSeparator);
    // wrong token where an identifier is owed
    let toks = vec![lit("x")];
    assert_eq!(Input::parse(&toks).unwrap_err(), ParseError::ExpectedIdent);
    // an entry must start with a string literal
    let toks = vec![ident("x"), Token::Colon, opaque("T")];
    assert_eq!(Entry::parse(&toks, 0).unwrap_err(), ParseError::ExpectedString);
    // a type must follow the separator
    let toks = vec![lit("p"), Token::Colon];
    assert_eq!(Entry::parse(&toks, 0).unwrap_err(), ParseError::ExpectedType);
    // an attribute argument must follow the separator
    let toks = vec![
        Token::Pound,
        Token::OpenBracket,
        ident("query"),
        Token::Colon,
        Token::CloseBracket,
        lit("p"),
        Token::Colon,
        opaque("T"),
    ];
    assert_eq!(Entry::parse(&toks, 0).unwrap_err(), ParseError::ExpectedExpr);
    // a dict must be braced
    let toks = vec![ident("dict"), Token::Colon, lit("x")];
    assert_eq!(Input::parse(&toks).unwrap_err(), ParseError::ExpectedBrace);
    // an attribute block must be bracketed
    let toks = vec![Token::Pound, lit("p"), Token::Colon, opaque("T")];
    assert_eq!(Entry::parse(&toks, 0).unwrap_err(), ParseError::ExpectedBracket);
    // an attribute list must close
    let toks = vec![
        Token::Pound,
        Token::OpenBracket,
        ident("query"),
        Token::Colon,
        lit("q"),
        lit("p"),
    ];
    assert_eq!(Entry::parse(&toks, 0).unwrap_err(), ParseError::UnclosedBracket);
    // unknown entry attribute
    let toks = vec![
        Token::Pound,
        Token::OpenBracket,
        ident("bogus"),
        Token::Colon,
        lit("q"),
        Token::CloseBracket,
        lit("p"),
        Token::Colon,
        opaque("T"),
    ];
    assert_eq!(Entry::parse(&toks, 0).unwrap_err(), ParseError::UnknownAttr);
    // rename wants a string literal
    let toks = vec![
        Token::Pound,
        Token::OpenBracket,
        ident("rename"),
        Token::Colon,
        opaque("compute()"),
        Token::CloseBracket,
        lit("p"),
        Token::Colon,
        opaque("T"),
    ];
    assert_eq!(Entry::parse(&toks, 0).unwrap_err(), ParseError::RenameNotLiteral);
    // unknown header attribute
    let toks = vec![
        Token::Pound,
        Token::OpenBracket,
        ident("bogus"),
        Token::CloseBracket,
        lit("K"),
        Token::Colon,
        lit("v"),
    ];
    assert_eq!(
        kvapi::headers::Header::parse(&toks, 0).unwrap_err(),
        ParseError::UnknownHeaderAttr
    );
    // unknown top-level fields
    let toks = vec![ident("bogus"), Token::Colon, ident("x")];
    assert_eq!(Input::parse(&toks).unwrap_err(), ParseError::UnknownField);
    assert_eq!(ApiBuilder::parse(&toks).unwrap_err(), ParseError::UnknownInput);
}

#[test]
fn unclosed_blocks_rejected() {
    // a dict that never closes
    let toks = vec![Token::OpenBrace, lit("p"), Token::Colon, opaque("T"), Token::Comma];
    assert_eq!(Dict::parse(&toks, 0).unwrap_err(), ParseError::UnclosedBrace);
    // a headers block that never closes
    let toks = vec![Token::OpenBrace, lit("K"), Token::Colon, lit("v")];
    assert_eq!(Headers::parse(&toks, 0).unwrap_err(), ParseError::UnclosedBrace);
    // an attribute block that never closes
    let toks = vec![Token::Pound, Token::OpenBracket, ident("query"), Token::Colon, lit("q")];
    assert_eq!(Entry::parse(&toks, 0).unwrap_err(), ParseError::UnclosedBracket);
}

#[test]
fn node_queries() {
    let mut n = Node::new();
    assert!(!n.is_root());
    assert!(!n.is_http());
    assert!(n.children.is_empty());
    n.add_child(&String::from("a"));
    n.add_child(&String::from("b"));
    n.add_child(&String::from("a"));
    assert_eq!(n.children, vec![String::from("a"), String::from("b")]);
    n.root = true;
    n.de_type = Some(String::from("T"));
    assert!(n.is_root());
    assert!(n.is_http());
}

#[test]
fn parse_header_attr_marker() {
    let toks = vec![Token::Ident(String::from("query"))];
    let (a, j) = Attr::parse(&toks, 0).unwrap();
    assert_eq!(a.key, String::from("query"));
    assert_eq!(j, 1);
    let toks = vec![Token::Comma];
    assert_eq!(Attr::parse(&toks, 0).unwrap_err(), ParseError::ExpectedIdent);
}

#[test]
fn error_messages() {
    assert_eq!(
        ParseError::ExpectedSeparator.message(),
        "expected one of ':', '=', or '->'"
    );
    assert_eq!(
        ParseError::EmptyDict.message(),
        "Dictionary of `\"endpoints\": DataTypes` is required"
    );
    assert_eq!(
        ParseError::RenameNotLiteral.message(),
        "rename arg must be a string literal"
    );
}
