//! The top-level specification aggregate: `name`, `base`, `dict`,
//! `headers` and `query` fields parsed from one invocation, and the
//! shared field-list parser.

use vstd::prelude::*;
use vstd::string::*;

use crate::common::{
    spec_parse_separator, Expr, ExprV, ParseError, Separator, Token, TokenV,
};
use crate::dict::{
    expr_of, is_expr_token, spec_parse_dict, tok_text, Dict, DictV,
};
use crate::headers::{spec_parse_headers, Headers, HeadersV};

verus! {

/// The fields gathered while parsing a specification, each optional
/// until the whole invocation has been read.
#[verifier::ext_equal]
pub struct FieldsV {
    pub name: Option<Seq<char>>,
    pub dict: Option<DictV>,
    pub base: Option<Seq<char>>,
    pub headers: Option<HeadersV>,
    pub query: Option<ExprV>,
}

/// No field seen yet.
pub open spec fn empty_fields() -> FieldsV {
    FieldsV { name: None, dict: None, base: None, headers: None, query: None }
}

/// Whether `s` names the `name` field (`N` is its short alias).
pub open spec fn is_name_key(s: Seq<char>, aliases: bool) -> bool {
    s == "name"@ || (aliases && s == "N"@)
}

/// Whether `s` names the `base` field (`B` is its short alias).
pub open spec fn is_base_key(s: Seq<char>, aliases: bool) -> bool {
    s == "base"@ || (aliases && s == "B"@)
}

/// Whether `s` names the `dict` field (`D` is its short alias).
pub open spec fn is_dict_key(s: Seq<char>, aliases: bool) -> bool {
    s == "dict"@ || (aliases && s == "D"@)
}

/// Whether `s` names the `headers` field (`head`, `hdrs` and `H` are its
/// short aliases).
pub open spec fn is_headers_key(s: Seq<char>, aliases: bool) -> bool {
    s == "headers"@ || (aliases && (s == "head"@ || s == "hdrs"@ || s == "H"@))
}

/// Whether `s` names the `query` field (`Q` is its short alias).
pub open spec fn is_query_key(s: Seq<char>, aliases: bool) -> bool {
    s == "query"@ || (aliases && s == "Q"@)
}

/// What parsing the field list from `i` to the end of the stream yields.
/// Each field is `key <sep> value`; a later occurrence of a field
/// overrides an earlier one.
pub open spec fn spec_parse_fields(t: Seq<TokenV>, i: int, acc: FieldsV, aliases: bool) -> Result<
    (FieldsV, int),
    ParseError,
>
    decreases t.len() - i,
{
    if i < 0 {
        Err(ParseError::ExpectedIdent)
    } else if i >= t.len() {
        Ok((acc, i))
    } else if !(t[i] is Ident) {
        Err(ParseError::ExpectedIdent)
    } else {
        let fname = tok_text(t[i]);
        match spec_parse_separator(t, i + 1) {
            Err(e) => Err(e),
            Ok((sep, j)) => {
                if is_name_key(fname, aliases) {
                    if j < t.len() && t[j] is Ident {
                        spec_parse_fields(
                            t,
                            j + 1,
                            FieldsV { name: Some(tok_text(t[j])), ..acc },
                            aliases,
                        )
                    } else {
                        Err(ParseError::ExpectedIdent)
                    }
                } else if is_base_key(fname, aliases) {
                    if j < t.len() && t[j] is LitStr {
                        spec_parse_fields(
                            t,
                            j + 1,
                            FieldsV { base: Some(tok_text(t[j])), ..acc },
                            aliases,
                        )
                    } else {
                        Err(ParseError::ExpectedString)
                    }
                } else if is_dict_key(fname, aliases) {
                    match spec_parse_dict(t, j) {
                        Err(e) => Err(e),
                        Ok((d, j2)) => if j2 <= i || j2 > t.len() {
                            Err(ParseError::UnclosedBrace)
                        } else {
                            spec_parse_fields(t, j2, FieldsV { dict: Some(d), ..acc }, aliases)
                        },
                    }
                } else if is_headers_key(fname, aliases) {
                    match spec_parse_headers(t, j) {
                        Err(e) => Err(e),
                        Ok((hs, j2)) => if j2 <= i || j2 > t.len() {
                            Err(ParseError::UnclosedBrace)
                        } else {
                            spec_parse_fields(t, j2, FieldsV { headers: Some(hs), ..acc }, aliases)
                        },
                    }
                } else if is_query_key(fname, aliases) {
                    if j < t.len() && is_expr_token(t[j]) {
                        spec_parse_fields(
                            t,
                            j + 1,
                            FieldsV { query: Some(expr_of(t[j])), ..acc },
                            aliases,
                        )
                    } else {
                        Err(ParseError::ExpectedExpr)
                    }
                } else if aliases {
                    Err(ParseError::UnknownInput)
                } else {
                    Err(ParseError::UnknownField)
                }
            },
        }
    }
}

/// Parse the whole token stream as a field list.
pub(crate) fn parse_fields(toks: &Vec<Token>, aliases: bool) -> (r: Result<
    (Option<String>, Option<Dict>, Option<String>, Option<Headers>, Option<Expr>),
    ParseError,
>)
    ensures
        r is Ok == spec_parse_fields(toks.deep_view(), 0, empty_fields(), aliases) is Ok,
        r matches Ok((name, dict, base, headers, query)) ==> spec_parse_fields(
            toks.deep_view(),
            0,
            empty_fields(),
            aliases,
        ) == Ok::<(FieldsV, int), ParseError>(
            (
                FieldsV {
                    name: name.deep_view(),
                    dict: dict.deep_view(),
                    base: base.deep_view(),
                    headers: headers.deep_view(),
                    query: query.deep_view(),
                },
                toks@.len() as int,
            ),
        ),
        r matches Err(e) ==> spec_parse_fields(toks.deep_view(), 0, empty_fields(), aliases)
            == Err::<(FieldsV, int), ParseError>(e),
{
    let ghost t = toks.deep_view();
    let name_key = String::from_str("name");
    let base_key = String::from_str("base");
    let dict_key = String::from_str("dict");
    let headers_key = String::from_str("headers");
    let query_key = String::from_str("query");
    let alias_n = String::from_str("N");
    let alias_b = String::from_str("B");
    let alias_d = String::from_str("D");
    let alias_head = String::from_str("head");
    let alias_hdrs = String::from_str("hdrs");
    let alias_h = String::from_str("H");
    let alias_q = String::from_str("Q");
    let mut name: Option<String> = None;
    let mut dict: Option<Dict> = None;
    let mut base: Option<String> = None;
    let mut headers: Option<Headers> = None;
    let mut query: Option<Expr> = None;
    let mut k: usize = 0;
    loop
        invariant
            t == toks.deep_view(),
            k <= toks@.len(),
            name_key@ == "name"@,
            base_key@ == "base"@,
            dict_key@ == "dict"@,
            headers_key@ == "headers"@,
            query_key@ == "query"@,
            alias_n@ == "N"@,
            alias_b@ == "B"@,
            alias_d@ == "D"@,
            alias_head@ == "head"@,
            alias_hdrs@ == "hdrs"@,
            alias_h@ == "H"@,
            alias_q@ == "Q"@,
            spec_parse_fields(t, 0, empty_fields(), aliases) == spec_parse_fields(
                t,
                k as int,
                FieldsV {
                    name: name.deep_view(),
                    dict: dict.deep_view(),
                    base: base.deep_view(),
                    headers: headers.deep_view(),
                    query: query.deep_view(),
                },
                aliases,
            ),
        decreases toks@.len() - k,
    {
        let ghost acc0 = FieldsV {
            name: name.deep_view(),
            dict: dict.deep_view(),
            base: base.deep_view(),
            headers: headers.deep_view(),
            query: query.deep_view(),
        };
        if k >= toks.len() {
            return Ok((name, dict, base, headers, query));
        }
        let fname = match &toks[k] {
            Token::Ident(s) => s,
            _ => {
                return Err(ParseError::ExpectedIdent);
            },
        };
        let j = match Separator::parse(toks, k + 1) {
            Ok((_, j)) => j,
            Err(e) => {
                return Err(e);
            },
        };
        let is_name = *fname == name_key || (aliases && *fname == alias_n);
        let is_base = *fname == base_key || (aliases && *fname == alias_b);
        let is_dict = *fname == dict_key || (aliases && *fname == alias_d);
        let is_headers = *fname == headers_key || (aliases && (*fname == alias_head || *fname
            == alias_hdrs || *fname == alias_h));
        let is_query = *fname == query_key || (aliases && *fname == alias_q);
        if is_name {
            if j < toks.len() {
                match &toks[j] {
                    Token::Ident(s) => {
                        name = Some(s.clone());
                        proof {
                            assert(spec_parse_fields(t, k as int, acc0, aliases)
                                == spec_parse_fields(t, j as int + 1, FieldsV {
                                name: name.deep_view(),
                                ..acc0
                            }, aliases));
                        }
                        k = j + 1;
                    },
                    _ => {
                        return Err(ParseError::ExpectedIdent);
                    },
                }
            } else {
                return Err(ParseError::ExpectedIdent);
            }
        } else if is_base {
            if j < toks.len() {
                match &toks[j] {
                    Token::LitStr(s) => {
                        base = Some(s.clone());
                        proof {
                            assert(spec_parse_fields(t, k as int, acc0, aliases)
                                == spec_parse_fields(t, j as int + 1, FieldsV {
                                base: base.deep_view(),
                                ..acc0
                            }, aliases));
                        }
                        k = j + 1;
                    },
                    _ => {
                        return Err(ParseError::ExpectedString);
                    },
                }
            } else {
                return Err(ParseError::ExpectedString);
            }
        } else if is_dict {
            match Dict::parse(toks, j) {
                Err(e) => {
                    return Err(e);
                },
                Ok((d, j2)) => {
                    dict = Some(d);
                    proof {
                        assert(spec_parse_fields(t, k as int, acc0, aliases) == spec_parse_fields(
                            t,
                            j2 as int,
                            FieldsV { dict: dict.deep_view(), ..acc0 },
                            aliases,
                        ));
                    }
                    k = j2;
                },
            }
        } else if is_headers {
            match Headers::parse(toks, j) {
                Err(e) => {
                    return Err(e);
                },
                Ok((hs, j2)) => {
                    headers = Some(hs);
                    proof {
                        assert(spec_parse_fields(t, k as int, acc0, aliases) == spec_parse_fields(
                            t,
                            j2 as int,
                            FieldsV { headers: headers.deep_view(), ..acc0 },
                            aliases,
                        ));
                    }
                    k = j2;
                },
            }
        } else if is_query {
            if j >= toks.len() {
                return Err(ParseError::ExpectedExpr);
            }
            let q = match &toks[j] {
                Token::LitStr(s) => Expr::Lit(s.clone()),
                Token::Opaque(s) => Expr::Raw(s.clone()),
                Token::Ident(s) => Expr::Raw(s.clone()),
                _ => {
                    return Err(ParseError::ExpectedExpr);
                },
            };
            query = Some(q);
            proof {
                assert(spec_parse_fields(t, k as int, acc0, aliases) == spec_parse_fields(
                    t,
                    j as int + 1,
                    FieldsV { query: query.deep_view(), ..acc0 },
                    aliases,
                ));
            }
            k = j + 1;
        } else {
            if aliases {
                return Err(ParseError::UnknownInput);
            } else {
                return Err(ParseError::UnknownField);
            }
        }
    }
}

/// The parsed specification aggregate: the single representation of one
/// invocation, with `name` and `dict` mandatory.
#[derive(Debug)]
pub struct Input {
    pub name: String,
    pub dict: Dict,
    pub base: Option<String>,
    pub headers: Option<Headers>,
    pub query: Option<Expr>,
}

/// Ghost mirror of [`Input`].
#[verifier::ext_equal]
pub struct InputV {
    pub name: Seq<char>,
    pub dict: DictV,
    pub base: Option<Seq<char>>,
    pub headers: Option<HeadersV>,
    pub query: Option<ExprV>,
}

impl View for Input {
    type V = InputV;

    open spec fn view(&self) -> InputV {
        InputV {
            name: self.name@,
            dict: self.dict@,
            base: self.base.deep_view(),
            headers: self.headers.deep_view(),
            query: self.query.deep_view(),
        }
    }
}

/// What parsing a whole invocation with the plain field names yields:
/// the aggregate when `name` and `dict` are both present, the missing
/// mandatory field otherwise, reported before anything is generated.
pub open spec fn spec_parse_input(t: Seq<TokenV>) -> Result<InputV, ParseError> {
    match spec_parse_fields(t, 0, empty_fields(), false) {
        Err(e) => Err(e),
        Ok((acc, j)) => match acc.name {
            None => Err(ParseError::MissingName),
            Some(n) => match acc.dict {
                None => Err(ParseError::MissingDict),
                Some(d) => Ok(
                    InputV {
                        name: n,
                        dict: d,
                        base: acc.base,
                        headers: acc.headers,
                        query: acc.query,
                    },
                ),
            },
        },
    }
}

impl Input {
    /// Parse one whole invocation.  `name` and `dict` are mandatory;
    /// their absence is reported before any artifact is produced.
    pub fn parse(toks: &Vec<Token>) -> (r: Result<Input, ParseError>)
        ensures
            r is Ok == spec_parse_input(toks.deep_view()) is Ok,
            r matches Ok(inp) ==> spec_parse_input(toks.deep_view()) == Ok::<InputV, ParseError>(
                inp@,
            ),
            r matches Err(e) ==> spec_parse_input(toks.deep_view()) == Err::<InputV, ParseError>(
                e,
            ),
    {
        match parse_fields(toks, false) {
            Err(e) => Err(e),
            Ok((name, dict, base, headers, query)) => {
                let name = match name {
                    None => {
                        return Err(ParseError::MissingName);
                    },
                    Some(n) => n,
                };
                let dict = match dict {
                    None => {
                        return Err(ParseError::MissingDict);
                    },
                    Some(d) => d,
                };
                let inp = Input { name, dict, base, headers, query };
                proof {
                    assert(spec_parse_input(toks.deep_view()) == Ok::<InputV, ParseError>(inp@));
                }
                Ok(inp)
            },
        }
    }
}

} // verus!
