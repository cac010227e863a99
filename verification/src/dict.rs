//! The dictionary of endpoints: entry records, their attributes, path
//! splitting, and the tree-building pass that links split segments into a
//! shared registry of nodes.

use vstd::prelude::*;
use vstd::string::*;
use vstd::seq_lib::lemma_seq_skip_of_skip;

use crate::common::{
    is_ignorable, is_file_type, spec_parse_separator, ParseError, Expr, ExprV, Separator, Token,
    TokenV,
};
use crate::node::{child_insert, empty_node, Node, NodeV, UrlTemplate, UrlTemplateV};

verus! {

/// Path segments are separated by `/` or `.`.
pub open spec fn is_delim(c: char) -> bool {
    c == '/' || c == '.'
}

/// Index of the first separator character at or after `from`, or the
/// length of the path when there is none.
pub open spec fn find_delim(s: Seq<char>, from: int) -> int
    decreases s.len() - from,
{
    if from < 0 || from >= s.len() {
        s.len() as int
    } else if is_delim(s[from]) {
        from
    } else {
        find_delim(s, from + 1)
    }
}

/// Splitting a path on `/` and `.`, keeping empty pieces.
pub open spec fn spec_split_raw(s: Seq<char>) -> Seq<Seq<char>>
    decreases s.len(),
{
    let k = find_delim(s, 0);
    if 0 <= k < s.len() {
        seq![s.take(k)] + spec_split_raw(s.skip(k + 1))
    } else {
        seq![s]
    }
}

/// A piece survives splitting when it is non-empty and is not one of the
/// ignorable file-name suffixes.
pub open spec fn keep_segment(seg: Seq<char>) -> bool {
    seg.len() > 0 && !is_ignorable(seg)
}

/// The segments of a naming path: split on `/` and `.`, with empty pieces
/// and ignorable suffixes dropped.
pub open spec fn spec_segments(s: Seq<char>) -> Seq<Seq<char>> {
    spec_split_raw(s).filter(|seg: Seq<char>| keep_segment(seg))
}

proof fn lemma_find_delim_at(s: Seq<char>, from: int, k: int)
    requires
        0 <= from <= k < s.len(),
        is_delim(s[k]),
        forall|j: int| from <= j < k ==> !is_delim(s[j]),
    ensures
        find_delim(s, from) == k,
    decreases k - from,
{
    if from < k {
        lemma_find_delim_at(s, from + 1, k);
    }
}

proof fn lemma_find_delim_none(s: Seq<char>, from: int)
    requires
        0 <= from <= s.len(),
        forall|j: int| from <= j < s.len() ==> !is_delim(s[j]),
    ensures
        find_delim(s, from) == s.len(),
    decreases s.len() - from,
{
    if from < s.len() {
        lemma_find_delim_none(s, from + 1);
    }
}

/// Unfolds one splitting step: with the first separator at `k`, the split
/// is the piece before `k` followed by the split of what comes after it.
proof fn lemma_split_raw_step(s: Seq<char>, k: int)
    requires
        0 <= k < s.len(),
        is_delim(s[k]),
        forall|j: int| 0 <= j < k ==> !is_delim(s[j]),
    ensures
        spec_split_raw(s) == seq![s.take(k)] + spec_split_raw(s.skip(k + 1)),
{
    lemma_find_delim_at(s, 0, k);
}

/// A path without separators splits into the single piece that it is.
proof fn lemma_split_raw_whole(s: Seq<char>)
    requires
        forall|j: int| 0 <= j < s.len() ==> !is_delim(s[j]),
    ensures
        spec_split_raw(s) == seq![s],
{
    lemma_find_delim_none(s, 0);
}

proof fn lemma_filter_singleton(x: Seq<char>, p: spec_fn(Seq<char>) -> bool)
    ensures
        seq![x].filter(p) == if p(x) {
            seq![x]
        } else {
            Seq::<Seq<char>>::empty()
        },
{
    reveal(Seq::filter);
    assert(seq![x].drop_last() =~= Seq::<Seq<char>>::empty());
    assert(Seq::<Seq<char>>::empty().filter(p) =~= Seq::<Seq<char>>::empty());
    if p(x) {
        assert(seq![x].filter(p) =~= Seq::<Seq<char>>::empty().push(x));
        assert(Seq::<Seq<char>>::empty().push(x) =~= seq![x]);
    }
}

/// Split a naming path into its segments: pieces between `/` and `.`,
/// with empty pieces and ignorable file-name suffixes dropped.
pub fn split_segments(path: &str) -> (r: Vec<String>)
    ensures
        r.deep_view() == spec_segments(path@),
{
    let ghost s = path@;
    let ghost keep = |seg: Seq<char>| keep_segment(seg);
    let n = path.unicode_len();
    let mut r: Vec<String> = Vec::new();
    let mut start: usize = 0;
    let ghost mut prefix: Seq<Seq<char>> = Seq::empty();
    let mut i: usize = 0;
    proof {
        assert(s.skip(0) =~= s);
        assert(prefix + spec_split_raw(s) =~= spec_split_raw(s));
        assert(r.deep_view() =~= prefix.filter(keep));
    }
    while i < n
        invariant
            n == s.len(),
            s == path@,
            keep == (|seg: Seq<char>| keep_segment(seg)),
            start <= i <= n,
            forall|j: int| start <= j < i ==> !is_delim(s[j]),
            spec_split_raw(s) == prefix + spec_split_raw(s.skip(start as int)),
            r.deep_view() == prefix.filter(keep),
        decreases n - i,
    {
        let c = path.get_char(i);
        if c == '/' || c == '.' {
            let ghost tail = s.skip(start as int);
            let ghost k = i - start;
            proof {
                assert(is_delim(tail[k as int]));
                assert(forall|j: int| 0 <= j < k ==> !is_delim(tail[j]));
                lemma_split_raw_step(tail, k as int);
                assert(tail.take(k as int) =~= s.subrange(start as int, i as int));
                lemma_seq_skip_of_skip(s, start as int, k as int + 1);
                assert(tail.skip(k as int + 1) =~= s.skip(i as int + 1));
            }
            let ghost segv = s.subrange(start as int, i as int);
            if i > start {
                let seg = String::from_str(path.substring_char(start, i));
                if !is_file_type(&seg) {
                    let ghost r0 = r.deep_view();
                    r.push(seg);
                    proof {
                        assert(r.deep_view() =~= r0 + seq![segv]);
                        Seq::filter_distributes_over_add(prefix, seq![segv], keep);
                        lemma_filter_singleton(segv, keep);
                        assert(r.deep_view() =~= (prefix + seq![segv]).filter(keep));
                    }
                } else {
                    proof {
                        Seq::filter_distributes_over_add(prefix, seq![segv], keep);
                        lemma_filter_singleton(segv, keep);
                        assert(r.deep_view() =~= (prefix + seq![segv]).filter(keep));
                    }
                }
            } else {
                proof {
                    assert(segv =~= Seq::<char>::empty());
                    Seq::filter_distributes_over_add(prefix, seq![segv], keep);
                    lemma_filter_singleton(segv, keep);
                    assert(r.deep_view() =~= (prefix + seq![segv]).filter(keep));
                }
            }
            proof {
                prefix = prefix + seq![segv];
                assert(spec_split_raw(s) == prefix + spec_split_raw(s.skip(i as int + 1)));
            }
            start = i + 1;
        }
        i = i + 1;
    }
    let ghost tail = s.skip(start as int);
    proof {
        assert(forall|j: int| 0 <= j < tail.len() ==> !is_delim(tail[j]));
        lemma_split_raw_whole(tail);
        assert(tail =~= s.subrange(start as int, n as int));
    }
    if n > start {
        let seg = String::from_str(path.substring_char(start, n));
        if !is_file_type(&seg) {
            r.push(seg);
        }
    }
    proof {
        Seq::filter_distributes_over_add(prefix, seq![tail], keep);
        lemma_filter_singleton(tail, keep);
        assert(r.deep_view() =~= spec_segments(s));
    }
    r
}

/// Attribute of a dict entry: `#[fn_id <sep> arg]`.  The recognised
/// attribute names are `query` (argument: any expression, appended to the
/// entry's URL) and `rename` (argument: a string literal that replaces
/// the path for tree placement only).
#[derive(Debug, Clone, PartialEq, Eq)]
pub struct Attr {
    pub fn_id: String,
    pub arg: Expr,
}

/// Ghost mirror of [`Attr`].
#[verifier::ext_equal]
pub struct AttrV {
    pub fn_id: Seq<char>,
    pub arg: ExprV,
}

impl View for Attr {
    type V = AttrV;

    open spec fn view(&self) -> AttrV {
        AttrV { fn_id: self.fn_id@, arg: self.arg@ }
    }
}

impl DeepView for Attr {
    type V = AttrV;

    open spec fn deep_view(&self) -> AttrV {
        self.view()
    }
}

/// One declared endpoint record: `"path" <sep> Type`, with the optional
/// `query` and `rename` attributes.
#[derive(Debug, Clone, PartialEq, Eq)]
pub struct Entry {
    /// The path exactly as written; it alone determines the emitted URL.
    pub endpoint: String,
    /// The opaque result type reference, passed through verbatim.
    pub de_type: String,
    /// Optional per-entry URL suffix, appended verbatim to the path.
    pub query: Option<Expr>,
    /// Optional replacement name: it alone determines tree placement.
    pub rename: Option<String>,
}

/// Ghost mirror of [`Entry`].
#[verifier::ext_equal]
pub struct EntryV {
    pub endpoint: Seq<char>,
    pub de_type: Seq<char>,
    pub query: Option<ExprV>,
    pub rename: Option<Seq<char>>,
}

impl View for Entry {
    type V = EntryV;

    open spec fn view(&self) -> EntryV {
        EntryV {
            endpoint: self.endpoint@,
            de_type: self.de_type@,
            query: self.query.deep_view(),
            rename: self.rename.deep_view(),
        }
    }
}

impl DeepView for Entry {
    type V = EntryV;

    open spec fn deep_view(&self) -> EntryV {
        self.view()
    }
}

/// The text carried by an `Ident`, `LitStr` or `Opaque` token.
pub open spec fn tok_text(t: TokenV) -> Seq<char> {
    match t {
        TokenV::Ident(s) => s,
        TokenV::LitStr(s) => s,
        TokenV::Opaque(s) => s,
        _ => Seq::empty(),
    }
}

/// Whether a token can stand where the grammar wants an expression.
pub open spec fn is_expr_token(t: TokenV) -> bool {
    t is LitStr || t is Opaque || t is Ident
}

/// The expression a token denotes: a string literal keeps its contents,
/// anything else is opaque source text.
pub open spec fn expr_of(t: TokenV) -> ExprV {
    match t {
        TokenV::LitStr(s) => ExprV::Lit(s),
        TokenV::Opaque(s) => ExprV::Raw(s),
        TokenV::Ident(s) => ExprV::Raw(s),
        _ => ExprV::Raw(Seq::empty()),
    }
}

/// What parsing one attribute (`fn_id <sep> arg`) at `i` yields.
pub open spec fn spec_parse_attr(t: Seq<TokenV>, i: int) -> Result<(AttrV, int), ParseError> {
    if !(0 <= i < t.len() && t[i] is Ident) {
        Err(ParseError::ExpectedIdent)
    } else {
        match spec_parse_separator(t, i + 1) {
            Err(e) => Err(e),
            Ok((sep, j)) => if j < t.len() && is_expr_token(t[j]) {
                Ok((AttrV { fn_id: tok_text(t[i]), arg: expr_of(t[j]) }, j + 1))
            } else {
                Err(ParseError::ExpectedExpr)
            },
        }
    }
}

/// What parsing a comma-separated attribute list up to its closing `]`
/// yields, starting from the attributes already in `acc`.
pub open spec fn spec_parse_attr_seq(t: Seq<TokenV>, i: int, acc: Seq<AttrV>) -> Result<
    (Seq<AttrV>, int),
    ParseError,
>
    decreases t.len() - i,
{
    if i < 0 || i >= t.len() {
        Err(ParseError::UnclosedBracket)
    } else if t[i] is CloseBracket {
        Ok((acc, i + 1))
    } else {
        match spec_parse_attr(t, i) {
            Err(e) => Err(e),
            Ok((a, j)) => if j <= i {
                Err(ParseError::UnclosedBracket)
            } else if j < t.len() && t[j] is Comma {
                spec_parse_attr_seq(t, j + 1, acc.push(a))
            } else if j < t.len() && t[j] is CloseBracket {
                Ok((acc.push(a), j + 1))
            } else {
                Err(ParseError::UnclosedBracket)
            },
        }
    }
}

/// Folding an attribute list into the entry's `query` and `rename`
/// values, in order, later occurrences overriding earlier ones.  A
/// `rename` argument that is not a string literal and an attribute name
/// other than `query`/`rename` are grammar errors.
pub open spec fn spec_apply_attrs(
    attrs: Seq<AttrV>,
    i: int,
    query: Option<ExprV>,
    rename: Option<Seq<char>>,
) -> Result<(Option<ExprV>, Option<Seq<char>>), ParseError>
    decreases attrs.len() - i,
{
    if i < 0 || i >= attrs.len() {
        Ok((query, rename))
    } else {
        let a = attrs[i];
        if a.fn_id == "query"@ {
            spec_apply_attrs(attrs, i + 1, Some(a.arg), rename)
        } else if a.fn_id == "rename"@ {
            match a.arg {
                ExprV::Lit(s) => spec_apply_attrs(attrs, i + 1, query, Some(s)),
                ExprV::Raw(_) => Err(ParseError::RenameNotLiteral),
            }
        } else {
            Err(ParseError::UnknownAttr)
        }
    }
}

/// What parsing the `"path" <sep> Type` core of an entry yields, given
/// the `query`/`rename` attributes parsed before it.
pub open spec fn spec_parse_entry_core(
    t: Seq<TokenV>,
    i: int,
    query: Option<ExprV>,
    rename: Option<Seq<char>>,
) -> Result<(EntryV, int), ParseError> {
    if !(0 <= i < t.len() && t[i] is LitStr) {
        Err(ParseError::ExpectedString)
    } else {
        match spec_parse_separator(t, i + 1) {
            Err(e) => Err(e),
            Ok((sep, j)) => if j < t.len() && (t[j] is Opaque || t[j] is Ident) {
                Ok(
                    (
                        EntryV {
                            endpoint: tok_text(t[i]),
                            de_type: tok_text(t[j]),
                            query: query,
                            rename: rename,
                        },
                        j + 1,
                    ),
                )
            } else {
                Err(ParseError::ExpectedType)
            },
        }
    }
}

/// What parsing one full entry (optional `#[...]` attribute block, then
/// `"path" <sep> Type`) at `i` yields.
pub open spec fn spec_parse_entry(t: Seq<TokenV>, i: int) -> Result<(EntryV, int), ParseError> {
    if 0 <= i < t.len() && t[i] is Pound {
        if i + 1 < t.len() && t[i + 1] is OpenBracket {
            match spec_parse_attr_seq(t, i + 2, Seq::empty()) {
                Err(e) => Err(e),
                Ok((attrs, j)) => match spec_apply_attrs(attrs, 0, None, None) {
                    Err(e) => Err(e),
                    Ok((query, rename)) => spec_parse_entry_core(t, j, query, rename),
                },
            }
        } else {
            Err(ParseError::ExpectedBracket)
        }
    } else {
        spec_parse_entry_core(t, i, None, None)
    }
}

impl Attr {
    /// Parse one `fn_id <sep> arg` attribute at position `i`.
    pub fn parse(toks: &Vec<Token>, i: usize) -> (r: Result<(Attr, usize), ParseError>)
        ensures
            r is Ok == spec_parse_attr(toks.deep_view(), i as int) is Ok,
            r matches Ok((a, j)) ==> spec_parse_attr(toks.deep_view(), i as int)
                == Ok::<(AttrV, int), ParseError>((a@, j as int)) && i < j <= toks@.len(),
            r matches Err(e) ==> spec_parse_attr(toks.deep_view(), i as int)
                == Err::<(AttrV, int), ParseError>(e),
    {
        if i >= toks.len() {
            return Err(ParseError::ExpectedIdent);
        }
        let fn_id = match &toks[i] {
            Token::Ident(s) => s.clone(),
            _ => { return Err(ParseError::ExpectedIdent) },
        };
        let j = match Separator::parse(toks, i + 1) {
            Ok((_, j)) => j,
            Err(e) => { return Err(e) },
        };
        if j >= toks.len() {
            return Err(ParseError::ExpectedExpr);
        }
        let arg = match &toks[j] {
            Token::LitStr(s) => Expr::Lit(s.clone()),
            Token::Opaque(s) => Expr::Raw(s.clone()),
            Token::Ident(s) => Expr::Raw(s.clone()),
            _ => { return Err(ParseError::ExpectedExpr) },
        };
        Ok((Attr { fn_id, arg }, j + 1))
    }
}

/// Parse a comma-separated attribute list up to and past its closing `]`.
fn parse_attr_list(toks: &Vec<Token>, i: usize) -> (r: Result<(Vec<Attr>, usize), ParseError>)
    requires
        i <= toks@.len(),
    ensures
        r is Ok == spec_parse_attr_seq(toks.deep_view(), i as int, Seq::empty()) is Ok,
        r matches Ok((attrs, j)) ==> spec_parse_attr_seq(toks.deep_view(), i as int, Seq::empty())
            == Ok::<(Seq<AttrV>, int), ParseError>((attrs.deep_view(), j as int)) && i < j
            <= toks@.len(),
        r matches Err(e) ==> spec_parse_attr_seq(toks.deep_view(), i as int, Seq::empty())
            == Err::<(Seq<AttrV>, int), ParseError>(e),
{
    let ghost t = toks.deep_view();
    let mut attrs: Vec<Attr> = Vec::new();
    let mut k: usize = i;
    proof {
        assert(attrs.deep_view() =~= Seq::<AttrV>::empty());
    }
    loop
        invariant
            t == toks.deep_view(),
            i <= k <= toks@.len(),
            spec_parse_attr_seq(t, i as int, Seq::empty()) == spec_parse_attr_seq(
                t,
                k as int,
                attrs.deep_view(),
            ),
        decreases toks@.len() - k,
    {
        if k >= toks.len() {
            return Err(ParseError::UnclosedBracket);
        }
        if matches!(&toks[k], Token::CloseBracket) {
            return Ok((attrs, k + 1));
        }
        match Attr::parse(toks, k) {
            Err(e) => {
                return Err(e);
            },
            Ok((a, j)) => {
                if j < toks.len() && matches!(&toks[j], Token::Comma) {
                    let ghost acc0 = attrs.deep_view();
                    attrs.push(a);
                    proof {
                        assert(attrs.deep_view() =~= acc0.push(a@));
                    }
                    k = j + 1;
                } else if j < toks.len() && matches!(&toks[j], Token::CloseBracket) {
                    let ghost acc0 = attrs.deep_view();
                    attrs.push(a);
                    proof {
                        assert(attrs.deep_view() =~= acc0.push(a@));
                    }
                    return Ok((attrs, j + 1));
                } else {
                    return Err(ParseError::UnclosedBracket);
                }
            },
        }
    }
}

/// Fold a parsed attribute list into the entry's `query` and `rename`.
fn apply_attrs(attrs: &Vec<Attr>) -> (r: Result<(Option<Expr>, Option<String>), ParseError>)
    ensures
        r is Ok == spec_apply_attrs(attrs.deep_view(), 0, None, None) is Ok,
        r matches Ok((query, rename)) ==> spec_apply_attrs(attrs.deep_view(), 0, None, None)
            == Ok::<(Option<ExprV>, Option<Seq<char>>), ParseError>(
            (query.deep_view(), rename.deep_view()),
        ),
        r matches Err(e) ==> spec_apply_attrs(attrs.deep_view(), 0, None, None) == Err::<
            (Option<ExprV>, Option<Seq<char>>),
            ParseError,
        >(e),
{
    let ghost av = attrs.deep_view();
    let query_name = String::from_str("query");
    let rename_name = String::from_str("rename");
    let mut query: Option<Expr> = None;
    let mut rename: Option<String> = None;
    let n = attrs.len();
    let mut m: usize = 0;
    while m < n
        invariant
            n == attrs@.len(),
            av == attrs.deep_view(),
            m <= n,
            query_name@ == "query"@,
            rename_name@ == "rename"@,
            spec_apply_attrs(av, 0, None, None) == spec_apply_attrs(
                av,
                m as int,
                query.deep_view(),
                rename.deep_view(),
            ),
        decreases n - m,
    {
        let a = &attrs[m];
        let ghost q0 = query.deep_view();
        let ghost r0 = rename.deep_view();
        proof {
            assert(av[m as int] == a@);
        }
        if a.fn_id == query_name {
            query = Some(a.arg.dup());
            proof {
                assert(query.deep_view() == Some(a@.arg));
                assert(spec_apply_attrs(av, m as int, q0, r0) == spec_apply_attrs(
                    av,
                    m as int + 1,
                    query.deep_view(),
                    r0,
                ));
            }
        } else if a.fn_id == rename_name {
            match &a.arg {
                Expr::Lit(s) => {
                    rename = Some(s.clone());
                    proof {
                        assert(rename.deep_view() == Some(s@));
                        assert(spec_apply_attrs(av, m as int, q0, r0) == spec_apply_attrs(
                            av,
                            m as int + 1,
                            q0,
                            rename.deep_view(),
                        ));
                    }
                },
                Expr::Raw(_) => {
                    proof {
                        assert(spec_apply_attrs(av, m as int, q0, r0) == Err::<
                            (Option<ExprV>, Option<Seq<char>>),
                            ParseError,
                        >(ParseError::RenameNotLiteral));
                    }
                    return Err(ParseError::RenameNotLiteral);
                },
            }
        } else {
            return Err(ParseError::UnknownAttr);
        }
        m = m + 1;
    }
    Ok((query, rename))
}

impl Entry {
    /// Parse one full entry: an optional `#[...]` attribute block, then
    /// `"path" <sep> Type`.
    pub fn parse(toks: &Vec<Token>, i: usize) -> (r: Result<(Entry, usize), ParseError>)
        ensures
            r is Ok == spec_parse_entry(toks.deep_view(), i as int) is Ok,
            r matches Ok((e, j)) ==> spec_parse_entry(toks.deep_view(), i as int)
                == Ok::<(EntryV, int), ParseError>((e@, j as int)) && i < j <= toks@.len(),
            r matches Err(er) ==> spec_parse_entry(toks.deep_view(), i as int)
                == Err::<(EntryV, int), ParseError>(er),
    {
        let ghost t = toks.deep_view();
        let mut query: Option<Expr> = None;
        let mut rename: Option<String> = None;
        let mut pos: usize = i;
        if i < toks.len() && matches!(&toks[i], Token::Pound) {
            if !(i + 1 < toks.len() && matches!(&toks[i + 1], Token::OpenBracket)) {
                return Err(ParseError::ExpectedBracket);
            }
            let (attrs, after) = match parse_attr_list(toks, i + 2) {
                Err(e) => {
                    return Err(e);
                },
                Ok(p) => p,
            };
            match apply_attrs(&attrs) {
                Err(e) => {
                    return Err(e);
                },
                Ok((q, rn)) => {
                    query = q;
                    rename = rn;
                },
            }
            pos = after;
        }
        if pos >= toks.len() {
            return Err(ParseError::ExpectedString);
        }
        let endpoint = match &toks[pos] {
            Token::LitStr(s) => s.clone(),
            _ => {
                return Err(ParseError::ExpectedString);
            },
        };
        let j = match Separator::parse(toks, pos + 1) {
            Ok((_, j)) => j,
            Err(e) => {
                return Err(e);
            },
        };
        if j >= toks.len() {
            return Err(ParseError::ExpectedType);
        }
        let de_type = match &toks[j] {
            Token::Opaque(s) => s.clone(),
            Token::Ident(s) => s.clone(),
            _ => {
                return Err(ParseError::ExpectedType);
            },
        };
        let e = Entry { endpoint, de_type, query, rename };
        proof {
            assert(spec_parse_entry(t, i as int) == Ok::<(EntryV, int), ParseError>(
                (e@, (j + 1) as int),
            ));
        }
        Ok((e, j + 1))
    }
}

/// The association list modelling a dictionary: segment name to node, in
/// first-creation order, names unique.
pub type DictV = Seq<(Seq<char>, NodeV)>;

/// Index of the first binding for `k`, or the length when there is none.
pub open spec fn dv_find(d: DictV, k: Seq<char>) -> int
    decreases d.len(),
{
    if d.len() == 0 {
        0
    } else if d[0].0 == k {
        0
    } else {
        1 + dv_find(d.drop_first(), k)
    }
}

/// Whether the dictionary binds `k`.
pub open spec fn dv_contains(d: DictV, k: Seq<char>) -> bool {
    dv_find(d, k) < d.len()
}

/// The node bound to `k`.
pub open spec fn dv_get(d: DictV, k: Seq<char>) -> NodeV {
    d[dv_find(d, k)].1
}

/// Bind `k` to `n`: in place when `k` is already bound, appended otherwise.
pub open spec fn dv_put(d: DictV, k: Seq<char>, n: NodeV) -> DictV {
    if dv_contains(d, k) {
        d.update(dv_find(d, k), (k, n))
    } else {
        d.push((k, n))
    }
}

/// The characteristic properties of the first-match index.
pub proof fn lemma_dv_find_props(d: DictV, k: Seq<char>)
    ensures
        0 <= dv_find(d, k) <= d.len(),
        dv_find(d, k) < d.len() ==> d[dv_find(d, k)].0 == k,
        forall|j: int| 0 <= j < dv_find(d, k) ==> d[j].0 != k,
    decreases d.len(),
{
    if d.len() == 0 {
    } else if d[0].0 == k {
    } else {
        let d2 = d.drop_first();
        lemma_dv_find_props(d2, k);
        assert(dv_find(d, k) == 1 + dv_find(d2, k));
        assert forall|j: int| 0 <= j < dv_find(d, k) implies d[j].0 != k by {
            if j > 0 {
                assert(d2[j - 1] == d[j]);
                assert(d2[j - 1].0 != k);
            }
        }
        if dv_find(d, k) < d.len() {
            assert(d2[dv_find(d2, k)] == d[dv_find(d, k)]);
        }
    }
}

/// The first-match index is pinned down by its characteristic
/// properties: everything before it misses, and it either hits or is
/// the length.
pub proof fn lemma_dv_find_is(d: DictV, k: Seq<char>, idx: int)
    requires
        0 <= idx <= d.len(),
        idx < d.len() ==> d[idx].0 == k,
        forall|j: int| 0 <= j < idx ==> d[j].0 != k,
        idx == d.len() ==> forall|j: int| 0 <= j < d.len() ==> d[j].0 != k,
    ensures
        dv_find(d, k) == idx,
{
    lemma_dv_find_props(d, k);
    let f = dv_find(d, k);
    if f < idx {
        assert(d[f].0 != k);
        assert(false);
    }
    if f > idx {
        assert(idx < d.len());
        assert(d[idx].0 != k);
        assert(false);
    }
}

/// After binding `k`, the dictionary holds `k` and looking `k` up gives
/// the bound node; every other binding is untouched.
pub proof fn lemma_dv_put_get(d: DictV, k: Seq<char>, n: NodeV)
    ensures
        dv_contains(dv_put(d, k, n), k),
        dv_get(dv_put(d, k, n), k) == n,
        forall|k2: Seq<char>|
            k2 != k ==> dv_contains(dv_put(d, k, n), k2) == dv_contains(d, k2),
        forall|k2: Seq<char>|
            k2 != k && dv_contains(d, k2) ==> dv_get(dv_put(d, k, n), k2) == dv_get(d, k2),
{
    lemma_dv_find_props(d, k);
    let d2 = dv_put(d, k, n);
    let f = dv_find(d, k);
    if dv_contains(d, k) {
        lemma_dv_find_is(d2, k, f);
    } else {
        lemma_dv_find_is(d2, k, d.len() as int);
    }
    assert forall|k2: Seq<char>| k2 != k implies dv_contains(d2, k2) == dv_contains(d, k2) && (
    dv_contains(d, k2) ==> dv_get(d2, k2) == dv_get(d, k2)) by {
        lemma_dv_find_props(d, k2);
        let f2 = dv_find(d, k2);
        if dv_contains(d, k2) {
            assert(d2[f2].0 == k2);
            lemma_dv_find_is(d2, k2, f2);
        } else {
            lemma_dv_find_is(d2, k2, d2.len() as int);
        }
    }
}

/// Threading one entry's segments through the dictionary from position
/// `i` on: each segment's node is created on demand, the first segment is
/// marked root, the last receives the endpoint payload, every other one
/// records the following segment as a child.
pub open spec fn spec_insert_segments(d: DictV, segs: Seq<Seq<char>>, i: int, e: EntryV) -> DictV
    decreases segs.len() - i,
{
    if i < 0 || i >= segs.len() {
        d
    } else {
        let name = segs[i];
        let n0 = if dv_contains(d, name) {
            dv_get(d, name)
        } else {
            empty_node()
        };
        let n1 = NodeV { root: n0.root || i == 0, ..n0 };
        let n2 = if i == segs.len() - 1 {
            NodeV {
                de_type: Some(e.de_type),
                endpoint: Some(UrlTemplateV { path: e.endpoint, query: e.query }),
                ..n1
            }
        } else {
            NodeV { children: child_insert(n1.children, segs[i + 1]), ..n1 }
        };
        spec_insert_segments(dv_put(d, name, n2), segs, i + 1, e)
    }
}

/// The segments that place an entry in the tree: the `rename` value when
/// present, the path as written otherwise.
pub open spec fn spec_entry_segments(e: EntryV) -> Seq<Seq<char>> {
    spec_segments(
        match e.rename {
            Some(r) => r,
            None => e.endpoint,
        },
    )
}

/// What adding one entry to the dictionary yields: an error when the
/// naming path splits into no segments, the threaded dictionary
/// otherwise.
pub open spec fn spec_add_entry(d: DictV, e: EntryV) -> Result<DictV, ParseError> {
    let segs = spec_entry_segments(e);
    if segs.len() == 0 {
        Err(ParseError::EmptySegments)
    } else {
        Ok(spec_insert_segments(d, segs, 0, e))
    }
}

/// What parsing the entry list of a dict up to and past its closing `}`
/// yields, starting from the dictionary already in `d`.
pub open spec fn spec_parse_dict_entries(t: Seq<TokenV>, i: int, d: DictV) -> Result<
    (DictV, int),
    ParseError,
>
    decreases t.len() - i,
{
    if i < 0 || i >= t.len() {
        Err(ParseError::UnclosedBrace)
    } else if t[i] is CloseBrace {
        Ok((d, i + 1))
    } else {
        match spec_parse_entry(t, i) {
            Err(e) => Err(e),
            Ok((ev, j)) => if j <= i || j > t.len() {
                Err(ParseError::UnclosedBrace)
            } else {
                match spec_add_entry(d, ev) {
                    Err(e) => Err(e),
                    Ok(d2) => {
                        let j2 = if j < t.len() && t[j] is Comma {
                            j + 1
                        } else {
                            j
                        };
                        spec_parse_dict_entries(t, j2, d2)
                    },
                }
            },
        }
    }
}

/// What parsing a whole dict (`{ entry, entry, ... }`) at `i` yields.
/// An empty dictionary is a configuration error.
pub open spec fn spec_parse_dict(t: Seq<TokenV>, i: int) -> Result<(DictV, int), ParseError> {
    if !(0 <= i < t.len() && t[i] is OpenBrace) {
        Err(ParseError::ExpectedBrace)
    } else {
        match spec_parse_dict_entries(t, i + 1, Seq::empty()) {
            Err(e) => Err(e),
            Ok((d, j)) => if d.len() == 0 {
                Err(ParseError::EmptyDict)
            } else {
                Ok((d, j))
            },
        }
    }
}

/// The dictionary: a registry of nodes keyed by bare segment name.
///
/// Keying is global: a segment name denotes one node no matter where in a
/// path it occurs, so two entries that use the same name at different
/// tree positions share that node and their children are unioned.  This
/// global-merge behaviour is deliberate and documented; it is never an
/// error by itself.
#[derive(Debug, Clone, PartialEq, Eq)]
pub struct Dict {
    pub inner: Vec<(String, Node)>,
}

impl View for Dict {
    type V = DictV;

    open spec fn view(&self) -> DictV {
        self.inner.deep_view()
    }
}

impl DeepView for Dict {
    type V = DictV;

    open spec fn deep_view(&self) -> DictV {
        self.view()
    }
}

impl Dict {
    /// An empty dictionary.
    pub fn new() -> (d: Dict)
        ensures
            d@ == Seq::<(Seq<char>, NodeV)>::empty(),
    {
        let d = Dict { inner: Vec::new() };
        proof {
            assert(d@ =~= Seq::<(Seq<char>, NodeV)>::empty());
        }
        d
    }

    /// Number of nodes in the registry.
    pub fn len(&self) -> (n: usize)
        ensures
            n == self@.len(),
    {
        self.inner.len()
    }

    /// Index of the node named `name`, or the registry size when absent.
    fn index_of(&self, name: &String) -> (r: usize)
        ensures
            r as int == dv_find(self@, name@),
    {
        let ghost d = self@;
        proof {
            lemma_dv_find_props(d, name@);
        }
        let n = self.inner.len();
        let mut m: usize = 0;
        while m < n
            invariant
                m <= n,
                n == self.inner@.len(),
                d == self@,
                forall|j: int| 0 <= j < m ==> d[j].0 != name@,
            decreases n - m,
        {
            if self.inner[m].0 == *name {
                proof {
                    lemma_dv_find_props(d, name@);
                    assert(d[m as int].0 == name@);
                    if dv_find(d, name@) < m {
                        assert(d[dv_find(d, name@)].0 == name@);
                        assert(false);
                    }
                    if dv_find(d, name@) > m {
                        assert(false);
                    }
                }
                return m;
            }
            m = m + 1;
        }
        proof {
            if dv_find(d, name@) < d.len() {
                assert(d[dv_find(d, name@)].0 == name@);
                assert(false);
            }
        }
        n
    }

    /// The node named `name`, when the registry holds one.
    pub fn get(&self, name: &String) -> (r: Option<&Node>)
        ensures
            r is Some == dv_contains(self@, name@),
            r matches Some(n) ==> n@ == dv_get(self@, name@),
    {
        let idx = self.index_of(name);
        if idx < self.inner.len() {
            Some(&self.inner[idx].1)
        } else {
            None
        }
    }

    /// Bind `name` to `node`: in place when already present, appended
    /// otherwise.
    fn put(&mut self, name: &String, node: Node)
        ensures
            final(self)@ == dv_put(old(self)@, name@, node@),
    {
        let ghost d = self@;
        let idx = self.index_of(name);
        if idx < self.inner.len() {
            self.inner[idx] = (name.clone(), node);
            proof {
                lemma_dv_find_props(d, name@);
                assert(self@ =~~= dv_put(d, name@, node@));
            }
        } else {
            self.inner.push((name.clone(), node));
            proof {
                assert(self@ =~~= dv_put(d, name@, node@));
            }
        }
    }

    /// Thread one parsed entry through the registry: split its naming
    /// path (the `rename` value when present, the path otherwise) and
    /// link a node for every segment.
    pub fn add_entry(&mut self, e: &Entry) -> (r: Result<(), ParseError>)
        ensures
            r is Ok == spec_add_entry(old(self)@, e@) is Ok,
            r is Ok ==> spec_add_entry(old(self)@, e@) == Ok::<DictV, ParseError>(final(self)@),
            r matches Err(er) ==> spec_add_entry(old(self)@, e@) == Err::<DictV, ParseError>(er)
                && final(self)@ == old(self)@,
    {
        let naming = match &e.rename {
            Some(r) => r.clone(),
            None => e.endpoint.clone(),
        };
        let segs = split_segments(naming.as_str());
        let ghost segsv = segs.deep_view();
        proof {
            assert(segsv == spec_entry_segments(e@));
        }
        if segs.len() == 0 {
            return Err(ParseError::EmptySegments);
        }
        let last = segs.len() - 1;
        let n = segs.len();
        let mut si: usize = 0;
        while si < n
            invariant
                n == segs@.len(),
                segsv == segs.deep_view(),
                segsv.len() > 0,
                last == n - 1,
                si <= n,
                spec_insert_segments(old(self)@, segsv, 0, e@) == spec_insert_segments(
                    self@,
                    segsv,
                    si as int,
                    e@,
                ),
            decreases n - si,
        {
            let ghost dcur = self@;
            let name = &segs[si];
            proof {
                assert(segsv[si as int] == name@);
                lemma_dv_find_props(dcur, name@);
            }
            let ghost n0 = if dv_contains(dcur, name@) {
                dv_get(dcur, name@)
            } else {
                empty_node()
            };
            let idx = self.index_of(name);
            let mut node = if idx < self.inner.len() {
                self.inner[idx].1.dup()
            } else {
                Node::new()
            };
            proof {
                assert(node@ == n0);
            }
            if si == 0 {
                node.root = true;
            }
            let ghost n1 = NodeV { root: n0.root || si == 0, ..n0 };
            proof {
                assert(node@ =~~= n1);
            }
            if si == last {
                node.de_type = Some(e.de_type.clone());
                let q = match &e.query {
                    Some(x) => Some(x.dup()),
                    None => None,
                };
                node.endpoint = Some(UrlTemplate { path: e.endpoint.clone(), query: q });
            } else {
                node.add_child(&segs[si + 1]);
            }
            let ghost n2 = if si as int == segsv.len() - 1 {
                NodeV {
                    de_type: Some(e@.de_type),
                    endpoint: Some(UrlTemplateV { path: e@.endpoint, query: e@.query }),
                    ..n1
                }
            } else {
                NodeV { children: child_insert(n1.children, segsv[si as int + 1]), ..n1 }
            };
            proof {
                assert(node@ =~~= n2);
            }
            self.put(name, node);
            proof {
                assert(self@ == dv_put(dcur, name@, n2));
                assert(spec_insert_segments(dcur, segsv, si as int, e@) == spec_insert_segments(
                    self@,
                    segsv,
                    si as int + 1,
                    e@,
                ));
            }
            si = si + 1;
        }
        Ok(())
    }

    /// Parse a whole dict: `{` entries separated or not by commas `}`,
    /// threading every entry through the registry.  An empty dictionary
    /// is a configuration error.
    pub fn parse(toks: &Vec<Token>, i: usize) -> (r: Result<(Dict, usize), ParseError>)
        ensures
            r is Ok == spec_parse_dict(toks.deep_view(), i as int) is Ok,
            r matches Ok((d, j)) ==> spec_parse_dict(toks.deep_view(), i as int)
                == Ok::<(DictV, int), ParseError>((d@, j as int)) && i < j <= toks@.len(),
            r matches Err(e) ==> spec_parse_dict(toks.deep_view(), i as int)
                == Err::<(DictV, int), ParseError>(e),
    {
        let ghost t = toks.deep_view();
        if !(i < toks.len() && matches!(&toks[i], Token::OpenBrace)) {
            return Err(ParseError::ExpectedBrace);
        }
        let mut d = Dict::new();
        let mut k: usize = i + 1;
        loop
            invariant
                t == toks.deep_view(),
                (i as int) < t.len(),
                t[i as int] is OpenBrace,
                i as int + 1 <= k as int <= toks@.len(),
                spec_parse_dict_entries(t, i as int + 1, Seq::empty()) == spec_parse_dict_entries(
                    t,
                    k as int,
                    d@,
                ),
            decreases toks@.len() - k,
        {
            if k >= toks.len() {
                return Err(ParseError::UnclosedBrace);
            }
            if matches!(&toks[k], Token::CloseBrace) {
                proof {
                    assert(spec_parse_dict_entries(t, k as int, d@) == Ok::<
                        (DictV, int),
                        ParseError,
                    >((d@, k as int + 1)));
                }
                if d.inner.len() == 0 {
                    return Err(ParseError::EmptyDict);
                }
                return Ok((d, k + 1));
            }
            match Entry::parse(toks, k) {
                Err(e) => {
                    proof {
                        assert(spec_parse_dict_entries(t, k as int, d@) == Err::<
                            (DictV, int),
                            ParseError,
                        >(e));
                    }
                    return Err(e);
                },
                Ok((entry, j)) => {
                    let ghost d0 = d@;
                    match d.add_entry(&entry) {
                        Err(e) => {
                            proof {
                                assert(spec_parse_dict_entries(t, k as int, d0) == Err::<
                                    (DictV, int),
                                    ParseError,
                                >(e));
                            }
                            return Err(e);
                        },
                        Ok(_) => {},
                    }
                    let k2: usize = if j < toks.len() && matches!(&toks[j], Token::Comma) {
                        j + 1
                    } else {
                        j
                    };
                    proof {
                        assert(spec_parse_dict_entries(t, k as int, d0)
                            == spec_parse_dict_entries(t, k2 as int, d@));
                    }
                    k = k2;
                },
            }
        }
    }
}

} // verus!



