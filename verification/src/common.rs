//! Grammar primitives shared by every parser of the crate: the token
//! stream the specification arrives as, the separator token, parse errors,
//! and the set of ignorable file-name suffixes.

use vstd::prelude::*;

verus! {

/// Separator token; one of: `:`, `=`, or `->`.
///
/// The three spellings are semantically equivalent wherever the grammar
/// asks for a key/value separator.
#[derive(Debug, Clone, Copy, PartialEq, Eq, Structural)]
pub enum Separator {
    Colon,
    Equals,
    Arrow,
}

/// An uninterpreted caller-supplied expression: either a string literal
/// (whose contents are known) or opaque source text that the compiler
/// passes through verbatim.
#[derive(Debug, Clone, PartialEq, Eq)]
pub enum Expr {
    Lit(String),
    Raw(String),
}

/// Ghost mirror of [`Expr`].
pub enum ExprV {
    Lit(Seq<char>),
    Raw(Seq<char>),
}

impl View for Expr {
    type V = ExprV;

    open spec fn view(&self) -> ExprV {
        match self {
            Expr::Lit(s) => ExprV::Lit(s@),
            Expr::Raw(s) => ExprV::Raw(s@),
        }
    }
}

impl DeepView for Expr {
    type V = ExprV;

    open spec fn deep_view(&self) -> ExprV {
        self.view()
    }
}

/// One token of the already-tokenized specification input.
///
/// Expressions and type references are not interpreted by this compiler;
/// they arrive pre-chunked as single [`Token::Opaque`] tokens carrying
/// their source text.
#[derive(Debug, Clone, PartialEq, Eq)]
pub enum Token {
    /// A bare identifier (a field name, an attribute name, the api name).
    Ident(String),
    /// A string literal; the payload is the unquoted content.
    LitStr(String),
    /// An uninterpreted expression or type reference, as source text.
    Opaque(String),
    Colon,
    Equals,
    Arrow,
    Comma,
    Pound,
    OpenBrace,
    CloseBrace,
    OpenBracket,
    CloseBracket,
}

/// Ghost mirror of [`Token`].
pub enum TokenV {
    Ident(Seq<char>),
    LitStr(Seq<char>),
    Opaque(Seq<char>),
    Colon,
    Equals,
    Arrow,
    Comma,
    Pound,
    OpenBrace,
    CloseBrace,
    OpenBracket,
    CloseBracket,
}

impl View for Token {
    type V = TokenV;

    open spec fn view(&self) -> TokenV {
        match self {
            Token::Ident(s) => TokenV::Ident(s@),
            Token::LitStr(s) => TokenV::LitStr(s@),
            Token::Opaque(s) => TokenV::Opaque(s@),
            Token::Colon => TokenV::Colon,
            Token::Equals => TokenV::Equals,
            Token::Arrow => TokenV::Arrow,
            Token::Comma => TokenV::Comma,
            Token::Pound => TokenV::Pound,
            Token::OpenBrace => TokenV::OpenBrace,
            Token::CloseBrace => TokenV::CloseBrace,
            Token::OpenBracket => TokenV::OpenBracket,
            Token::CloseBracket => TokenV::CloseBracket,
        }
    }
}

impl DeepView for Token {
    type V = TokenV;

    open spec fn deep_view(&self) -> TokenV {
        self.view()
    }
}

impl Expr {
    /// An exact copy.
    pub fn dup(&self) -> (r: Expr)
        ensures
            r@ == self@,
    {
        match self {
            Expr::Lit(s) => Expr::Lit(s.clone()),
            Expr::Raw(s) => Expr::Raw(s.clone()),
        }
    }
}

/// A grammar or configuration error.  Any of these aborts compilation of
/// the whole specification; nothing is ever silently defaulted.
#[derive(Debug, Clone, Copy, PartialEq, Eq, Structural)]
pub enum ParseError {
    /// A key/value separator (`:`, `=` or `->`) was expected.
    ExpectedSeparator,
    /// A string literal was expected.
    ExpectedString,
    /// An identifier was expected.
    ExpectedIdent,
    /// A type reference was expected.
    ExpectedType,
    /// An expression was expected.
    ExpectedExpr,
    /// A `{` was expected.
    ExpectedBrace,
    /// A `[` was expected.
    ExpectedBracket,
    /// The closing `}` of a braced block is missing.
    UnclosedBrace,
    /// The closing `]` of an attribute block is missing.
    UnclosedBracket,
    /// A dict entry attribute other than `query` or `rename`.
    UnknownAttr,
    /// The argument of `rename` must be a string literal.
    RenameNotLiteral,
    /// A header attribute other than `query` or `client`.
    UnknownHeaderAttr,
    /// A top-level field other than `name`, `base`, `dict`, `headers`, `query`.
    UnknownField,
    /// A top-level field that neither the plain names nor their short
    /// aliases recognise.
    UnknownInput,
    /// The mandatory `name` field is absent.
    MissingName,
    /// The mandatory `dict` field is absent.
    MissingDict,
    /// The dictionary holds no entries.
    EmptyDict,
    /// Splitting an entry's naming path left no segments.
    EmptySegments,
}

/// The human-readable message of each error.
pub open spec fn spec_message(e: ParseError) -> Seq<char> {
    match e {
        ParseError::ExpectedSeparator => "expected one of ':', '=', or '->'"@,
        ParseError::ExpectedString => "expected a string literal"@,
        ParseError::ExpectedIdent => "expected an identifier"@,
        ParseError::ExpectedType => "expected a type"@,
        ParseError::ExpectedExpr => "expected an expression"@,
        ParseError::ExpectedBrace => "expected a braced block"@,
        ParseError::ExpectedBracket => "expected a bracketed attribute list"@,
        ParseError::UnclosedBrace => "missing closing brace"@,
        ParseError::UnclosedBracket => "missing closing bracket"@,
        ParseError::UnknownAttr => "dict macro input not recognised"@,
        ParseError::RenameNotLiteral => "rename arg must be a string literal"@,
        ParseError::UnknownHeaderAttr => "unexpected header attribute"@,
        ParseError::UnknownField => "unknown field"@,
        ParseError::UnknownInput => "unknown input to `api!`"@,
        ParseError::MissingName => "`name` is required; the name of the struct identity"@,
        ParseError::MissingDict => "`dict` is required; a list of endpoints and output types"@,
        ParseError::EmptyDict => "Dictionary of `\"endpoints\": DataTypes` is required"@,
        ParseError::EmptySegments => "endpoint path has no usable segments"@,
    }
}

impl ParseError {
    /// The human-readable message carried by this error.
    pub fn message(&self) -> (r: &'static str)
        ensures
            r@ == spec_message(*self),
    {
        match self {
            ParseError::ExpectedSeparator => "expected one of ':', '=', or '->'",
            ParseError::ExpectedString => "expected a string literal",
            ParseError::ExpectedIdent => "expected an identifier",
            ParseError::ExpectedType => "expected a type",
            ParseError::ExpectedExpr => "expected an expression",
            ParseError::ExpectedBrace => "expected a braced block",
            ParseError::ExpectedBracket => "expected a bracketed attribute list",
            ParseError::UnclosedBrace => "missing closing brace",
            ParseError::UnclosedBracket => "missing closing bracket",
            ParseError::UnknownAttr => "dict macro input not recognised",
            ParseError::RenameNotLiteral => "rename arg must be a string literal",
            ParseError::UnknownHeaderAttr => "unexpected header attribute",
            ParseError::UnknownField => "unknown field",
            ParseError::UnknownInput => "unknown input to `api!`",
            ParseError::MissingName => "`name` is required; the name of the struct identity",
            ParseError::MissingDict => "`dict` is required; a list of endpoints and output types",
            ParseError::EmptyDict => "Dictionary of `\"endpoints\": DataTypes` is required",
            ParseError::EmptySegments => "endpoint path has no usable segments",
        }
    }
}

/// Whether a token is one of the three equivalent separators.
pub open spec fn is_sep_token(t: TokenV) -> bool {
    t is Colon || t is Equals || t is Arrow
}

/// Which separator a separator token denotes.
pub open spec fn sep_of(t: TokenV) -> Separator {
    match t {
        TokenV::Colon => Separator::Colon,
        TokenV::Equals => Separator::Equals,
        TokenV::Arrow => Separator::Arrow,
        _ => Separator::Colon,
    }
}

/// What parsing one separator at position `i` yields.
pub open spec fn spec_parse_separator(t: Seq<TokenV>, i: int) -> Result<(Separator, int), ParseError> {
    if 0 <= i < t.len() && is_sep_token(t[i]) {
        Ok((sep_of(t[i]), i + 1))
    } else {
        Err(ParseError::ExpectedSeparator)
    }
}

impl Separator {
    /// Parse one separator token at position `i` of the token stream.
    pub fn parse(toks: &Vec<Token>, i: usize) -> (r: Result<(Separator, usize), ParseError>)
        ensures
            r is Ok == spec_parse_separator(toks.deep_view(), i as int) is Ok,
            r matches Ok((sep, j)) ==> spec_parse_separator(toks.deep_view(), i as int)
                == Ok::<(Separator, int), ParseError>((sep, j as int)) && j == i + 1 && j <= toks@.len(),
            r matches Err(e) ==> spec_parse_separator(toks.deep_view(), i as int)
                == Err::<(Separator, int), ParseError>(e),
    {
        if i < toks.len() {
            match toks[i] {
                Token::Colon => Ok((Separator::Colon, i + 1)),
                Token::Equals => Ok((Separator::Equals, i + 1)),
                Token::Arrow => Ok((Separator::Arrow, i + 1)),
                _ => Err(ParseError::ExpectedSeparator),
            }
        } else {
            Err(ParseError::ExpectedSeparator)
        }
    }
}

/// Whether a path segment is one of the conventional file-name suffixes
/// that path splitting drops.
pub open spec fn is_ignorable(s: Seq<char>) -> bool {
    ||| s == "json"@
    ||| s == "csv"@
    ||| s == "xml"@
    ||| s == "toml"@
    ||| s == "yaml"@
    ||| s == "html"@
    ||| s == "htm"@
}

/// Remember the file types to ignore when splitting an endpoint path.
pub fn file_types() -> (r: Vec<&'static str>)
    ensures
        r.deep_view() == seq!["json"@, "csv"@, "xml"@, "toml"@, "yaml"@, "html"@, "htm"@],
        forall|s: Seq<char>| is_ignorable(s) <==> r.deep_view().contains(s),
{
    let mut v: Vec<&'static str> = Vec::new();
    v.push("json");
    v.push("csv");
    v.push("xml");
    v.push("toml");
    v.push("yaml");
    v.push("html");
    v.push("htm");
    proof {
        assert(v.deep_view() =~= seq!["json"@, "csv"@, "xml"@, "toml"@, "yaml"@, "html"@, "htm"@]);
        assert forall|s: Seq<char>| is_ignorable(s) implies v.deep_view().contains(s) by {
            if s == "json"@ {
                assert(v.deep_view()[0] == s);
            } else if s == "csv"@ {
                assert(v.deep_view()[1] == s);
            } else if s == "xml"@ {
                assert(v.deep_view()[2] == s);
            } else if s == "toml"@ {
                assert(v.deep_view()[3] == s);
            } else if s == "yaml"@ {
                assert(v.deep_view()[4] == s);
            } else if s == "html"@ {
                assert(v.deep_view()[5] == s);
            } else {
                assert(v.deep_view()[6] == s);
            }
        }
    }
    v
}

/// Whether one segment, held as a `String`, is an ignorable suffix.
pub fn is_file_type(seg: &String) -> (b: bool)
    ensures
        b == is_ignorable(seg@),
{
    let json = String::from_str("json");
    let csv = String::from_str("csv");
    let xml = String::from_str("xml");
    let toml = String::from_str("toml");
    let yaml = String::from_str("yaml");
    let html = String::from_str("html");
    let htm = String::from_str("htm");
    *seg == json || *seg == csv || *seg == xml || *seg == toml || *seg == yaml || *seg == html
        || *seg == htm
}

} // verus!
