//! The header set of a client: parsing of `"key" <sep> value` entries,
//! deduplication by (key, value) pair, and the partition into
//! client-scoped and request-scoped subsets.

use vstd::prelude::*;
use vstd::string::*;

use crate::common::{spec_parse_separator, ParseError, Separator, Token, TokenV};
use crate::dict::{is_expr_token, tok_text};

verus! {

/// A single header entry.
///
/// `value` holds the value expression as source text; a string literal
/// is kept in its quoted form.  `is_query` marks a request-scoped header
/// (re-evaluated on every call, may read the constructed client), as
/// opposed to the default client-scoped one (evaluated once when the
/// client is built).
#[derive(Debug, Clone, PartialEq, Eq)]
pub struct Header {
    pub key: String,
    pub value: String,
    pub is_query: bool,
}

/// Ghost mirror of [`Header`].
#[verifier::ext_equal]
pub struct HeaderV {
    pub key: Seq<char>,
    pub value: Seq<char>,
    pub is_query: bool,
}

impl View for Header {
    type V = HeaderV;

    open spec fn view(&self) -> HeaderV {
        HeaderV { key: self.key@, value: self.value@, is_query: self.is_query }
    }
}

impl DeepView for Header {
    type V = HeaderV;

    open spec fn deep_view(&self) -> HeaderV {
        self.view()
    }
}

/// Attribute of a header entry: a bare marker identifier, `query` for a
/// request-scoped header or `client` for the (default) client scope.
#[derive(Debug, Clone, PartialEq, Eq)]
pub struct Attr {
    pub key: String,
}

impl View for Attr {
    type V = Seq<char>;

    open spec fn view(&self) -> Seq<char> {
        self.key@
    }
}

/// What parsing one header attribute marker at `i` yields.
pub open spec fn spec_parse_header_attr(t: Seq<TokenV>, i: int) -> Result<
    (Seq<char>, int),
    ParseError,
> {
    if 0 <= i < t.len() && t[i] is Ident {
        Ok((tok_text(t[i]), i + 1))
    } else {
        Err(ParseError::ExpectedIdent)
    }
}

impl Attr {
    /// Parse one bare marker identifier at position `i`.
    pub fn parse(toks: &Vec<Token>, i: usize) -> (r: Result<(Attr, usize), ParseError>)
        ensures
            r is Ok == spec_parse_header_attr(toks.deep_view(), i as int) is Ok,
            r matches Ok((a, j)) ==> spec_parse_header_attr(toks.deep_view(), i as int)
                == Ok::<(Seq<char>, int), ParseError>((a@, j as int)) && i < j <= toks@.len(),
            r matches Err(e) ==> spec_parse_header_attr(toks.deep_view(), i as int)
                == Err::<(Seq<char>, int), ParseError>(e),
    {
        if i < toks.len() {
            match &toks[i] {
                Token::Ident(s) => Ok((Attr { key: s.clone() }, i + 1)),
                _ => Err(ParseError::ExpectedIdent),
            }
        } else {
            Err(ParseError::ExpectedIdent)
        }
    }
}

/// A string literal value is stored in its quoted source form.
pub open spec fn quoted(s: Seq<char>) -> Seq<char> {
    "\""@ + s + "\""@
}

/// The stored value text of a header value token.
pub open spec fn spec_header_value(t: TokenV) -> Seq<char> {
    match t {
        TokenV::LitStr(s) => quoted(s),
        TokenV::Opaque(s) => s,
        TokenV::Ident(s) => s,
        _ => Seq::empty(),
    }
}

/// What parsing a header attribute list (bare identifiers up to and past
/// the closing `]`) yields, folding the markers into the request-scope
/// flag `isq`.
pub open spec fn spec_parse_hattr_seq(t: Seq<TokenV>, i: int, isq: bool) -> Result<
    (bool, int),
    ParseError,
>
    decreases t.len() - i,
{
    if i < 0 || i >= t.len() {
        Err(ParseError::UnclosedBracket)
    } else if t[i] is CloseBracket {
        Ok((isq, i + 1))
    } else if !(t[i] is Ident) {
        Err(ParseError::ExpectedIdent)
    } else {
        let name = tok_text(t[i]);
        if name == "query"@ || name == "client"@ {
            let isq2 = isq || name == "query"@;
            let j = i + 1;
            if j < t.len() && t[j] is Comma {
                spec_parse_hattr_seq(t, j + 1, isq2)
            } else if j < t.len() && t[j] is CloseBracket {
                Ok((isq2, j + 1))
            } else {
                Err(ParseError::UnclosedBracket)
            }
        } else {
            Err(ParseError::UnknownHeaderAttr)
        }
    }
}

/// What parsing the `"key" <sep> value` core of a header yields, given
/// the scope already read from the attributes.
pub open spec fn spec_parse_header_core(t: Seq<TokenV>, i: int, isq: bool) -> Result<
    (HeaderV, int),
    ParseError,
> {
    if !(0 <= i < t.len() && t[i] is LitStr) {
        Err(ParseError::ExpectedString)
    } else {
        match spec_parse_separator(t, i + 1) {
            Err(e) => Err(e),
            Ok((sep, j)) => if j < t.len() && is_expr_token(t[j]) {
                Ok(
                    (
                        HeaderV {
                            key: tok_text(t[i]),
                            value: spec_header_value(t[j]),
                            is_query: isq,
                        },
                        j + 1,
                    ),
                )
            } else {
                Err(ParseError::ExpectedExpr)
            },
        }
    }
}

/// What parsing one full header (optional `#[...]` marker block, then
/// `"key" <sep> value`) at `i` yields.
pub open spec fn spec_parse_header(t: Seq<TokenV>, i: int) -> Result<(HeaderV, int), ParseError> {
    if 0 <= i < t.len() && t[i] is Pound {
        if i + 1 < t.len() && t[i + 1] is OpenBracket {
            match spec_parse_hattr_seq(t, i + 2, false) {
                Err(e) => Err(e),
                Ok((isq, j)) => spec_parse_header_core(t, j, isq),
            }
        } else {
            Err(ParseError::ExpectedBracket)
        }
    } else {
        spec_parse_header_core(t, i, false)
    }
}

/// Whether the collection already holds an entry with this (key, value)
/// pair; such duplicates are collapsed to one.
pub open spec fn hdrs_contain_kv(acc: Seq<HeaderV>, h: HeaderV) -> bool {
    exists|j: int| 0 <= j < acc.len() && acc[j].key == h.key && acc[j].value == h.value
}

/// What parsing the header list of a headers block up to and past its
/// closing `}` yields: the deduplicated collection in first-seen order.
pub open spec fn spec_parse_header_list(t: Seq<TokenV>, i: int, acc: Seq<HeaderV>) -> Result<
    (Seq<HeaderV>, int),
    ParseError,
>
    decreases t.len() - i,
{
    if i < 0 || i >= t.len() {
        Err(ParseError::UnclosedBrace)
    } else if t[i] is CloseBrace {
        Ok((acc, i + 1))
    } else {
        match spec_parse_header(t, i) {
            Err(e) => Err(e),
            Ok((hv, j)) => if j <= i || j > t.len() {
                Err(ParseError::UnclosedBrace)
            } else {
                let acc2 = if hdrs_contain_kv(acc, hv) {
                    acc
                } else {
                    acc.push(hv)
                };
                let j2 = if j < t.len() && t[j] is Comma {
                    j + 1
                } else {
                    j
                };
                spec_parse_header_list(t, j2, acc2)
            },
        }
    }
}

/// Whether a header belongs to the client-scoped subset.
pub open spec fn is_client_header(h: HeaderV) -> bool {
    !h.is_query
}

/// Whether a header belongs to the request-scoped subset.
pub open spec fn is_query_header(h: HeaderV) -> bool {
    h.is_query
}

/// Collection of all headers for an HTTP client, partitioned by scope.
///
/// Both subsets keep first-seen order; entries with an identical
/// (key, value) pair have been collapsed to one, while entries sharing a
/// key but differing in value are all retained.
#[derive(Debug, Clone, PartialEq, Eq)]
pub struct Headers {
    /// Client-scoped headers, applied once when the client is built.
    pub client: Vec<Header>,
    /// Request-scoped headers, applied to every request as it is built.
    pub query: Vec<Header>,
}

/// Ghost mirror of [`Headers`].
#[verifier::ext_equal]
pub struct HeadersV {
    pub client: Seq<HeaderV>,
    pub query: Seq<HeaderV>,
}

impl View for Headers {
    type V = HeadersV;

    open spec fn view(&self) -> HeadersV {
        HeadersV { client: self.client.deep_view(), query: self.query.deep_view() }
    }
}

impl DeepView for Headers {
    type V = HeadersV;

    open spec fn deep_view(&self) -> HeadersV {
        self.view()
    }
}

/// What parsing a whole headers block (`{ header, header, ... }`) at `i`
/// yields: the deduplicated collection split into its client-scoped and
/// request-scoped subsets, each in first-seen order.
pub open spec fn spec_parse_headers(t: Seq<TokenV>, i: int) -> Result<(HeadersV, int), ParseError> {
    if !(0 <= i < t.len() && t[i] is OpenBrace) {
        Err(ParseError::ExpectedBrace)
    } else {
        match spec_parse_header_list(t, i + 1, Seq::empty()) {
            Err(e) => Err(e),
            Ok((hs, j)) => Ok(
                (
                    HeadersV {
                        client: hs.filter(|h: HeaderV| is_client_header(h)),
                        query: hs.filter(|h: HeaderV| is_query_header(h)),
                    },
                    j,
                ),
            ),
        }
    }
}

/// Surround a literal's content with quotes, as it stood in the source.
fn quote_string(s: &String) -> (r: String)
    ensures
        r@ == quoted(s@),
{
    let mut r = String::from_str("\"");
    r.append(s.as_str());
    r.append("\"");
    proof {
        assert(r@ =~= quoted(s@));
    }
    r
}

/// Parse a header attribute list (bare marker identifiers) up to and
/// past its closing `]`, folding the markers into the request-scope flag.
fn parse_hattr_list(toks: &Vec<Token>, i: usize) -> (r: Result<(bool, usize), ParseError>)
    requires
        i <= toks@.len(),
    ensures
        r is Ok == spec_parse_hattr_seq(toks.deep_view(), i as int, false) is Ok,
        r matches Ok((isq, j)) ==> spec_parse_hattr_seq(toks.deep_view(), i as int, false)
            == Ok::<(bool, int), ParseError>((isq, j as int)) && i < j <= toks@.len(),
        r matches Err(e) ==> spec_parse_hattr_seq(toks.deep_view(), i as int, false)
            == Err::<(bool, int), ParseError>(e),
{
    let ghost t = toks.deep_view();
    let query_name = String::from_str("query");
    let client_name = String::from_str("client");
    let mut is_query = false;
    let mut k: usize = i;
    loop
        invariant
            t == toks.deep_view(),
            i <= k <= toks@.len(),
            query_name@ == "query"@,
            client_name@ == "client"@,
            spec_parse_hattr_seq(t, i as int, false) == spec_parse_hattr_seq(
                t,
                k as int,
                is_query,
            ),
        decreases toks@.len() - k,
    {
        if k >= toks.len() {
            return Err(ParseError::UnclosedBracket);
        }
        if matches!(&toks[k], Token::CloseBracket) {
            return Ok((is_query, k + 1));
        }
        let name = match &toks[k] {
            Token::Ident(s) => s,
            _ => {
                return Err(ParseError::ExpectedIdent);
            },
        };
        if *name == query_name || *name == client_name {
            if *name == query_name {
                is_query = true;
            }
            if k + 1 < toks.len() && matches!(&toks[k + 1], Token::Comma) {
                k = k + 2;
            } else if k + 1 < toks.len() && matches!(&toks[k + 1], Token::CloseBracket) {
                return Ok((is_query, k + 2));
            } else {
                return Err(ParseError::UnclosedBracket);
            }
        } else {
            return Err(ParseError::UnknownHeaderAttr);
        }
    }
}

impl Header {
    /// Parse one full header entry at position `i`.
    pub fn parse(toks: &Vec<Token>, i: usize) -> (r: Result<(Header, usize), ParseError>)
        ensures
            r is Ok == spec_parse_header(toks.deep_view(), i as int) is Ok,
            r matches Ok((h, j)) ==> spec_parse_header(toks.deep_view(), i as int)
                == Ok::<(HeaderV, int), ParseError>((h@, j as int)) && i < j <= toks@.len(),
            r matches Err(e) ==> spec_parse_header(toks.deep_view(), i as int)
                == Err::<(HeaderV, int), ParseError>(e),
    {
        let ghost t = toks.deep_view();
        let mut is_query = false;
        let mut pos: usize = i;
        if i < toks.len() && matches!(&toks[i], Token::Pound) {
            if !(i + 1 < toks.len() && matches!(&toks[i + 1], Token::OpenBracket)) {
                return Err(ParseError::ExpectedBracket);
            }
            match parse_hattr_list(toks, i + 2) {
                Err(e) => {
                    return Err(e);
                },
                Ok((isq, after)) => {
                    is_query = isq;
                    pos = after;
                },
            }
        }
        if pos >= toks.len() {
            return Err(ParseError::ExpectedString);
        }
        let key = match &toks[pos] {
            Token::LitStr(s) => s.clone(),
            _ => {
                return Err(ParseError::ExpectedString);
            },
        };
        let j = match Separator::parse(toks, pos + 1) {
            Ok((_, j)) => j,
            Err(e) => {
                return Err(e);
            },
        };
        if j >= toks.len() {
            return Err(ParseError::ExpectedExpr);
        }
        let value = match &toks[j] {
            Token::LitStr(s) => quote_string(s),
            Token::Opaque(s) => s.clone(),
            Token::Ident(s) => s.clone(),
            _ => {
                return Err(ParseError::ExpectedExpr);
            },
        };
        let h = Header { key, value, is_query };
        proof {
            assert(spec_parse_header(t, i as int) == Ok::<(HeaderV, int), ParseError>(
                (h@, (j + 1) as int),
            ));
        }
        Ok((h, j + 1))
    }
}

/// Whether `hs` already holds an entry with the (key, value) pair of `h`.
fn contains_kv(hs: &Vec<Header>, h: &Header) -> (b: bool)
    ensures
        b == hdrs_contain_kv(hs.deep_view(), h@),
{
    let n = hs.len();
    let mut m: usize = 0;
    while m < n
        invariant
            m <= n,
            n == hs@.len(),
            forall|j: int|
                0 <= j < m ==> !(hs.deep_view()[j].key == h@.key && hs.deep_view()[j].value
                    == h@.value),
        decreases n - m,
    {
        if hs[m].key == h.key && hs[m].value == h.value {
            proof {
                assert(hs.deep_view()[m as int].key == h@.key);
            }
            return true;
        }
        m = m + 1;
    }
    false
}

/// Parse the header list of a headers block up to and past its closing
/// `}`, collapsing entries with an identical (key, value) pair.
fn parse_header_list(toks: &Vec<Token>, i: usize) -> (r: Result<(Vec<Header>, usize), ParseError>)
    requires
        i <= toks@.len(),
    ensures
        r is Ok == spec_parse_header_list(toks.deep_view(), i as int, Seq::empty()) is Ok,
        r matches Ok((hs, j)) ==> spec_parse_header_list(toks.deep_view(), i as int, Seq::empty())
            == Ok::<(Seq<HeaderV>, int), ParseError>((hs.deep_view(), j as int)) && i < j
            <= toks@.len(),
        r matches Err(e) ==> spec_parse_header_list(toks.deep_view(), i as int, Seq::empty())
            == Err::<(Seq<HeaderV>, int), ParseError>(e),
{
    let ghost t = toks.deep_view();
    let mut all: Vec<Header> = Vec::new();
    let mut k: usize = i;
    proof {
        assert(all.deep_view() =~= Seq::<HeaderV>::empty());
    }
    loop
        invariant
            t == toks.deep_view(),
            i <= k <= toks@.len(),
            spec_parse_header_list(t, i as int, Seq::empty()) == spec_parse_header_list(
                t,
                k as int,
                all.deep_view(),
            ),
        decreases toks@.len() - k,
    {
        if k >= toks.len() {
            return Err(ParseError::UnclosedBrace);
        }
        if matches!(&toks[k], Token::CloseBrace) {
            return Ok((all, k + 1));
        }
        match Header::parse(toks, k) {
            Err(e) => {
                return Err(e);
            },
            Ok((h, j)) => {
                if !contains_kv(&all, &h) {
                    let ghost a0 = all.deep_view();
                    let ghost hv = h@;
                    all.push(h);
                    proof {
                        assert(all.deep_view() =~= a0.push(hv));
                    }
                }
                if j < toks.len() && matches!(&toks[j], Token::Comma) {
                    k = j + 1;
                } else {
                    k = j;
                }
            },
        }
    }
}

proof fn lemma_filter_push(s: Seq<HeaderV>, x: HeaderV, p: spec_fn(HeaderV) -> bool)
    ensures
        s.push(x).filter(p) == if p(x) {
            s.filter(p).push(x)
        } else {
            s.filter(p)
        },
{
    reveal(Seq::filter);
    assert(s.push(x).drop_last() =~= s);
    assert(s.push(x).last() == x);
}

/// An exact copy of a header list.
fn dup_headers(hs: &Vec<Header>) -> (r: Vec<Header>)
    ensures
        r.deep_view() == hs.deep_view(),
{
    let ghost hv = hs.deep_view();
    let n = hs.len();
    let mut r: Vec<Header> = Vec::new();
    proof {
        assert(r.deep_view() =~= hv.take(0));
    }
    let mut k: usize = 0;
    while k < n
        invariant
            k <= n,
            n == hs@.len(),
            hv == hs.deep_view(),
            r.deep_view() == hv.take(k as int),
        decreases n - k,
    {
        let h = &hs[k];
        let ghost r0 = r.deep_view();
        r.push(Header { key: h.key.clone(), value: h.value.clone(), is_query: h.is_query });
        proof {
            assert(r.deep_view() =~= r0.push(hv[k as int]));
            assert(hv.take(k as int + 1) =~= hv.take(k as int).push(hv[k as int]));
        }
        k = k + 1;
    }
    proof {
        assert(hv.take(n as int) =~= hv);
    }
    r
}

impl Headers {
    /// An exact copy of the client-scoped subset.
    pub fn dup_client(&self) -> (r: Vec<Header>)
        ensures
            r.deep_view() == self@.client,
    {
        dup_headers(&self.client)
    }

    /// An exact copy of the request-scoped subset.
    pub fn dup_query(&self) -> (r: Vec<Header>)
        ensures
            r.deep_view() == self@.query,
    {
        dup_headers(&self.query)
    }

    /// Parse a whole headers block: `{` headers separated or not by
    /// commas `}`.  Entries with an identical (key, value) pair are
    /// collapsed to one; the collection is split into client-scoped and
    /// request-scoped subsets, each keeping first-seen order.
    pub fn parse(toks: &Vec<Token>, i: usize) -> (r: Result<(Headers, usize), ParseError>)
        ensures
            r is Ok == spec_parse_headers(toks.deep_view(), i as int) is Ok,
            r matches Ok((hs, j)) ==> spec_parse_headers(toks.deep_view(), i as int)
                == Ok::<(HeadersV, int), ParseError>((hs@, j as int)) && i < j <= toks@.len(),
            r matches Err(e) ==> spec_parse_headers(toks.deep_view(), i as int)
                == Err::<(HeadersV, int), ParseError>(e),
    {
        let ghost t = toks.deep_view();
        if !(i < toks.len() && matches!(&toks[i], Token::OpenBrace)) {
            return Err(ParseError::ExpectedBrace);
        }
        let (all, after) = match parse_header_list(toks, i + 1) {
            Err(e) => {
                return Err(e);
            },
            Ok(p) => p,
        };
        let ghost hsv = all.deep_view();
        let ghost pc = |h: HeaderV| is_client_header(h);
        let ghost pq = |h: HeaderV| is_query_header(h);
        let mut client: Vec<Header> = Vec::new();
        let mut query: Vec<Header> = Vec::new();
        let n = all.len();
        let mut m: usize = 0;
        proof {
            assert(hsv.take(0) =~= Seq::<HeaderV>::empty());
            reveal(Seq::filter);
            assert(client.deep_view() =~= hsv.take(0).filter(pc));
            assert(query.deep_view() =~= hsv.take(0).filter(pq));
        }
        while m < n
            invariant
                m <= n,
                n == all@.len(),
                hsv == all.deep_view(),
                pc == (|h: HeaderV| is_client_header(h)),
                pq == (|h: HeaderV| is_query_header(h)),
                client.deep_view() == hsv.take(m as int).filter(pc),
                query.deep_view() == hsv.take(m as int).filter(pq),
            decreases n - m,
        {
            let h = &all[m];
            proof {
                assert(hsv.take(m as int + 1) =~= hsv.take(m as int).push(hsv[m as int]));
                lemma_filter_push(hsv.take(m as int), hsv[m as int], pc);
                lemma_filter_push(hsv.take(m as int), hsv[m as int], pq);
            }
            let copy = Header { key: h.key.clone(), value: h.value.clone(), is_query: h.is_query };
            proof {
                assert(copy@ =~= hsv[m as int]);
            }
            if copy.is_query {
                let ghost q0 = query.deep_view();
                query.push(copy);
                proof {
                    assert(query.deep_view() =~= q0.push(hsv[m as int]));
                }
            } else {
                let ghost c0 = client.deep_view();
                client.push(copy);
                proof {
                    assert(client.deep_view() =~= c0.push(hsv[m as int]));
                }
            }
            m = m + 1;
        }
        let hs = Headers { client, query };
        proof {
            assert(hsv.take(n as int) =~= hsv);
            assert(hs@ =~~= (HeadersV { client: hsv.filter(pc), query: hsv.filter(pq) }));
        }
        Ok((hs, after))
    }
}

} // verus!
