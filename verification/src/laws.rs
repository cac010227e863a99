//! Properties of the compiler stated and proved once, over the
//! specification functions that the executable contracts are written
//! against.

use vstd::prelude::*;

use crate::common::{is_sep_token, spec_parse_separator, ParseError, Separator, TokenV};
use crate::dict::{
    dv_contains, dv_get, dv_put, lemma_dv_put_get, spec_add_entry, spec_apply_attrs,
    spec_entry_segments, spec_insert_segments, spec_parse_attr, spec_parse_attr_seq,
    spec_parse_dict, spec_parse_dict_entries, spec_parse_entry, spec_parse_entry_core,
    spec_segments, AttrV, DictV, EntryV,
};
use crate::headers::{
    spec_parse_hattr_seq, spec_parse_header, spec_parse_header_core, spec_parse_header_list,
    spec_parse_headers, HeaderV,
};
use crate::builder::spec_parse_builder;
use crate::input::{empty_fields, spec_parse_fields, spec_parse_input, InputV};
use crate::node::UrlTemplateV;
use crate::tokens::{binding_is_root, spec_components, spec_node_def, spec_root_field};

verus! {

/// Within one entry, the node of the last segment ends up carrying the
/// endpoint payload built from the entry's original path and query.
proof fn lemma_insert_segments_leaf(d: DictV, segs: Seq<Seq<char>>, i: int, e: EntryV)
    requires
        0 <= i < segs.len(),
    ensures
        ({
            let d2 = spec_insert_segments(d, segs, i, e);
            &&& dv_contains(d2, segs.last())
            &&& dv_get(d2, segs.last()).de_type == Some(e.de_type)
            &&& dv_get(d2, segs.last()).endpoint == Some(
                UrlTemplateV { path: e.endpoint, query: e.query },
            )
        }),
    decreases segs.len() - i,
{
    let name = segs[i];
    let d2 = spec_insert_segments(d, segs, i, e);
    if i == segs.len() - 1 {
        lemma_dv_put_get(
            d,
            name,
            spec_insert_step_node(d, segs, i, e),
        );
        assert(d2 == dv_put(d, name, spec_insert_step_node(d, segs, i, e)));
    } else {
        lemma_insert_segments_leaf(
            dv_put(d, name, spec_insert_step_node(d, segs, i, e)),
            segs,
            i + 1,
            e,
        );
    }
}

/// The node that one segment step writes, mirroring the builder's step.
spec fn spec_insert_step_node(d: DictV, segs: Seq<Seq<char>>, i: int, e: EntryV) -> crate::node::NodeV {
    let name = segs[i];
    let n0 = if dv_contains(d, name) {
        dv_get(d, name)
    } else {
        crate::node::empty_node()
    };
    let n1 = crate::node::NodeV { root: n0.root || i == 0, ..n0 };
    if i == segs.len() - 1 {
        crate::node::NodeV {
            de_type: Some(e.de_type),
            endpoint: Some(UrlTemplateV { path: e.endpoint, query: e.query }),
            ..n1
        }
    } else {
        crate::node::NodeV { children: crate::node::child_insert(n1.children, segs[i + 1]), ..n1 }
    }
}

/// For an entry with a `rename`, the renamed name alone determines tree
/// placement, while the path as written alone determines the endpoint
/// payload (and hence the emitted URL).
pub proof fn lemma_rename_placement(d: DictV, e: EntryV)
    requires
        e.rename is Some,
        spec_segments(e.rename->Some_0).len() > 0,
    ensures
        spec_entry_segments(e) == spec_segments(e.rename->Some_0),
        spec_add_entry(d, e) is Ok,
        spec_add_entry(d, e) matches Ok(d2) ==> ({
            let segs = spec_segments(e.rename->Some_0);
            &&& dv_contains(d2, segs.last())
            &&& dv_get(d2, segs.last()).endpoint == Some(
                UrlTemplateV { path: e.endpoint, query: e.query },
            )
            &&& dv_get(d2, segs.last()).de_type == Some(e.de_type)
        }),
{
    let segs = spec_entry_segments(e);
    lemma_insert_segments_leaf(d, segs, 0, e);
}

/// Pairwise-distinct binding keys.
pub open spec fn dv_unique_keys(d: DictV) -> bool {
    forall|i: int, j: int| 0 <= i < j < d.len() ==> d[i].0 != d[j].0
}

proof fn lemma_dv_put_unique(d: DictV, k: Seq<char>, n: crate::node::NodeV)
    requires
        dv_unique_keys(d),
    ensures
        dv_unique_keys(dv_put(d, k, n)),
{
    crate::dict::lemma_dv_find_props(d, k);
    let d2 = dv_put(d, k, n);
    if dv_contains(d, k) {
        assert forall|i: int, j: int| 0 <= i < j < d2.len() implies d2[i].0 != d2[j].0 by {
            assert(d2[i].0 == d[i].0);
            assert(d2[j].0 == d[j].0);
        }
    } else {
        assert forall|i: int, j: int| 0 <= i < j < d2.len() implies d2[i].0 != d2[j].0 by {
            if j == d.len() {
                assert(d2[j].0 == k);
                assert(d[i].0 != k);
            }
        }
    }
}

proof fn lemma_insert_segments_unique(d: DictV, segs: Seq<Seq<char>>, i: int, e: EntryV)
    requires
        dv_unique_keys(d),
    ensures
        dv_unique_keys(spec_insert_segments(d, segs, i, e)),
    decreases segs.len() - i,
{
    if i < 0 || i >= segs.len() {
    } else {
        let name = segs[i];
        let n0 = if dv_contains(d, name) {
            dv_get(d, name)
        } else {
            crate::node::empty_node()
        };
        lemma_dv_put_unique(d, name, spec_insert_step_node(d, segs, i, e));
        lemma_insert_segments_unique(
            dv_put(d, name, spec_insert_step_node(d, segs, i, e)),
            segs,
            i + 1,
            e,
        );
    }
}

proof fn lemma_dict_entries_unique(t: Seq<TokenV>, i: int, d: DictV)
    requires
        dv_unique_keys(d),
    ensures
        spec_parse_dict_entries(t, i, d) matches Ok(p) ==> dv_unique_keys(p.0),
    decreases t.len() - i,
{
    if i < 0 || i >= t.len() {
    } else if t[i] is CloseBrace {
    } else {
        match spec_parse_entry(t, i) {
            Err(_) => {},
            Ok((ev, j)) => {
                if j <= i || j > t.len() {
                } else {
                    match spec_add_entry(d, ev) {
                        Err(_) => {},
                        Ok(d2) => {
                            assert(dv_unique_keys(d2)) by {
                                lemma_insert_segments_unique(d, spec_entry_segments(ev), 0, ev);
                            }
                            if j < t.len() && t[j] is Comma {
                                lemma_dict_entries_unique(t, j + 1, d2);
                            } else {
                                lemma_dict_entries_unique(t, j, d2);
                            }
                        },
                    }
                }
            },
        }
    }
}

/// Every dictionary that parsing yields binds each segment name exactly
/// once.
pub proof fn lemma_dict_keys_unique(t: Seq<TokenV>, i: int)
    ensures
        spec_parse_dict(t, i) matches Ok(p) ==> dv_unique_keys(p.0),
{
    lemma_dict_entries_unique(t, i + 1, Seq::empty());
}

proof fn lemma_filter_keys_unique(d: DictV, p: spec_fn((Seq<char>, crate::node::NodeV)) -> bool)
    requires
        dv_unique_keys(d),
    ensures
        dv_unique_keys(d.filter(p)),
        forall|x: (Seq<char>, crate::node::NodeV)| d.filter(p).contains(x) ==> d.contains(x),
    decreases d.len(),
{
    reveal(Seq::filter);
    if d.len() > 0 {
        let rest = d.drop_last();
        assert(dv_unique_keys(rest)) by {
            assert(forall|i: int, j: int|
                0 <= i < j < rest.len() ==> rest[i] == d[i] && rest[j] == d[j]);
        }
        lemma_filter_keys_unique(rest, p);
        assert(forall|x: (Seq<char>, crate::node::NodeV)|
            rest.contains(x) ==> d.contains(x)) by {
            assert(forall|i: int| 0 <= i < rest.len() ==> rest[i] == d[i]);
        }
        if p(d.last()) {
            let fr = rest.filter(p);
            assert(d.filter(p) == fr.push(d.last()));
            assert forall|i: int, j: int|
                0 <= i < j < d.filter(p).len() implies d.filter(p)[i].0 != d.filter(p)[j].0 by {
                if j < fr.len() {
                } else {
                    assert(d.filter(p)[j] == d.last());
                    assert(fr.contains(fr[i]));
                    rest.lemma_filter_contains_rev(p, fr[i]);
                    let w = choose|w: int| 0 <= w < rest.len() && rest[w] == fr[i];
                    assert(d[w] == fr[i]);
                    assert(d[w].0 != d[d.len() - 1].0);
                }
            }
            assert forall|x: (Seq<char>, crate::node::NodeV)|
                d.filter(p).contains(x) implies d.contains(x) by {
                let w = choose|w: int| 0 <= w < d.filter(p).len() && d.filter(p)[w] == x;
                if w < fr.len() {
                    assert(fr.contains(x));
                } else {
                    assert(x == d.last());
                    assert(d[d.len() - 1] == x);
                }
            }
        } else {
            assert(d.filter(p) == rest.filter(p));
        }
    }
}

/// Every dictionary node is emitted, in dictionary order, and every
/// root binding is registered exactly once as a top-level field: the
/// registered fields are in one-to-one correspondence with the root
/// bindings, whose names are pairwise distinct.
pub proof fn lemma_roots_registered_once(inp: InputV)
    requires
        dv_unique_keys(inp.dict),
    ensures
        spec_components(inp).other_nodes.len() == inp.dict.len(),
        forall|i: int|
            0 <= i < inp.dict.len() ==> spec_components(inp).other_nodes[i] == spec_node_def(
                inp.name,
                inp.dict[i].0,
                inp.dict[i].1,
                inp.base,
                inp.query,
                inp.headers,
            ),
        ({
            let roots = inp.dict.filter(|p: (Seq<char>, crate::node::NodeV)| binding_is_root(p));
            &&& spec_components(inp).root_fields.len() == roots.len()
            &&& (forall|x: int|
                0 <= x < roots.len() ==> spec_components(inp).root_fields[x] == spec_root_field(
                    inp.name,
                    roots[x].0,
                ))
            &&& dv_unique_keys(roots)
        }),
{
    lemma_filter_keys_unique(inp.dict, |p: (Seq<char>, crate::node::NodeV)| binding_is_root(p));
}

/// No two entries of a parsed header collection share both key and
/// value.
pub open spec fn no_dup_kv(hs: Seq<HeaderV>) -> bool {
    forall|i: int, j: int|
        0 <= i < j < hs.len() ==> !(hs[i].key == hs[j].key && hs[i].value == hs[j].value)
}

proof fn lemma_header_list_nodup_rec(t: Seq<TokenV>, i: int, acc: Seq<HeaderV>)
    requires
        no_dup_kv(acc),
    ensures
        spec_parse_header_list(t, i, acc) matches Ok(p) ==> no_dup_kv(p.0),
    decreases t.len() - i,
{
    if i < 0 || i >= t.len() {
    } else if t[i] is CloseBrace {
    } else {
        match crate::headers::spec_parse_header(t, i) {
            Err(_) => {},
            Ok((hv, j)) => {
                if j <= i || j > t.len() {
                } else {
                    let acc2 = if crate::headers::hdrs_contain_kv(acc, hv) {
                        acc
                    } else {
                        acc.push(hv)
                    };
                    assert(no_dup_kv(acc2));
                    let j2 = if j < t.len() && t[j] is Comma {
                        j + 1
                    } else {
                        j
                    };
                    lemma_header_list_nodup_rec(t, j2, acc2);
                }
            },
        }
    }
}

proof fn lemma_nodup_filter(hs: Seq<HeaderV>, p: spec_fn(HeaderV) -> bool)
    requires
        no_dup_kv(hs),
    ensures
        no_dup_kv(hs.filter(p)),
    decreases hs.len(),
{
    reveal(Seq::filter);
    if hs.len() > 0 {
        let rest = hs.drop_last();
        assert(no_dup_kv(rest)) by {
            assert(forall|i: int| 0 <= i < rest.len() ==> rest[i] == hs[i]);
        }
        lemma_nodup_filter(rest, p);
        if p(hs.last()) {
            let fr = rest.filter(p);
            assert(hs.filter(p) == fr.push(hs.last()));
            assert forall|i: int, j: int|
                0 <= i < j < hs.filter(p).len() implies !(hs.filter(p)[i].key == hs.filter(
                p,
            )[j].key && hs.filter(p)[i].value == hs.filter(p)[j].value) by {
                if j < fr.len() {
                } else {
                    assert(hs.filter(p)[j] == hs.last());
                    assert(fr.contains(fr[i]));
                    rest.lemma_filter_contains_rev(p, fr[i]);
                    let w = choose|w: int| 0 <= w < rest.len() && rest[w] == fr[i];
                    assert(hs[w] == fr[i]);
                    assert(!(hs[w].key == hs[hs.len() - 1].key && hs[w].value == hs[hs.len()
                        - 1].value));
                }
            }
        } else {
            assert(hs.filter(p) == rest.filter(p));
        }
    }
}

/// Entries with an identical (key, value) pair are collapsed to one:
/// the parsed collection, and each of its two scope subsets, never
/// holds the same pair twice.
pub proof fn lemma_headers_deduplicated(t: Seq<TokenV>, i: int)
    ensures
        spec_parse_header_list(t, i, Seq::empty()) matches Ok(p) ==> no_dup_kv(p.0),
        spec_parse_headers(t, i) matches Ok(p) ==> no_dup_kv(p.0.client) && no_dup_kv(p.0.query),
{
    lemma_header_list_nodup_rec(t, i, Seq::empty());
    if spec_parse_headers(t, i) is Ok {
        match spec_parse_header_list(t, i + 1, Seq::empty()) {
            Err(_) => {},
            Ok((hs, _)) => {
                lemma_header_list_nodup_rec(t, i + 1, Seq::empty());
                lemma_nodup_filter(hs, |h: HeaderV| crate::headers::is_client_header(h));
                lemma_nodup_filter(hs, |h: HeaderV| crate::headers::is_query_header(h));
            },
        }
    }
}

/// An accepted header entry is never displaced by a later one: the
/// collection only grows at its end, so entries sharing a key but
/// differing in value are all retained and last-wins semantics are not
/// applied.
pub proof fn lemma_headers_retained(t: Seq<TokenV>, i: int, acc: Seq<HeaderV>)
    ensures
        spec_parse_header_list(t, i, acc) matches Ok(p) ==> p.0.len() >= acc.len() && p.0.take(
            acc.len() as int,
        ) == acc,
    decreases t.len() - i,
{
    if i < 0 || i >= t.len() {
    } else if t[i] is CloseBrace {
        assert(acc.take(acc.len() as int) =~= acc);
    } else {
        match crate::headers::spec_parse_header(t, i) {
            Err(_) => {},
            Ok((hv, j)) => {
                if j <= i || j > t.len() {
                } else {
                    let acc2 = if crate::headers::hdrs_contain_kv(acc, hv) {
                        acc
                    } else {
                        acc.push(hv)
                    };
                    let j2 = if j < t.len() && t[j] is Comma {
                        j + 1
                    } else {
                        j
                    };
                    lemma_headers_retained(t, j2, acc2);
                    match spec_parse_header_list(t, j2, acc2) {
                        Err(_) => {},
                        Ok((hs, _)) => {
                            assert(acc2.take(acc.len() as int) =~= acc);
                            assert(hs.take(acc.len() as int) =~= hs.take(
                                acc2.len() as int,
                            ).take(acc.len() as int));
                        },
                    }
                }
            },
        }
    }
}

/// The mandatory fields are checked before anything is generated: a
/// successfully parsed invocation always carries `name` and `dict`, and
/// an invocation whose fields parse but lack one of them is rejected
/// with exactly the missing-field error.
pub proof fn lemma_mandatory_fields(t: Seq<TokenV>)
    ensures
        spec_parse_input(t) is Ok ==> ({
            &&& spec_parse_fields(t, 0, empty_fields(), false) matches Ok(p)
            &&& p.0.name is Some
            &&& p.0.dict is Some
        }),
        spec_parse_fields(t, 0, empty_fields(), false) matches Ok(p) && p.0.name is None
            ==> spec_parse_input(t) == Err::<InputV, ParseError>(ParseError::MissingName),
        spec_parse_fields(t, 0, empty_fields(), false) matches Ok(p) && p.0.name is Some
            && p.0.dict is None ==> spec_parse_input(t) == Err::<InputV, ParseError>(
            ParseError::MissingDict,
        ),
        spec_parse_builder(t) is Ok ==> ({
            &&& spec_parse_fields(t, 0, empty_fields(), true) matches Ok(p)
            &&& p.0.name is Some
            &&& p.0.dict is Some
        }),
        spec_parse_fields(t, 0, empty_fields(), true) matches Ok(p) && p.0.name is None
            ==> spec_parse_builder(t) == Err::<crate::input::FieldsV, ParseError>(
            ParseError::MissingName,
        ),
        spec_parse_fields(t, 0, empty_fields(), true) matches Ok(p) && p.0.name is Some
            && p.0.dict is None ==> spec_parse_builder(t) == Err::<
            crate::input::FieldsV,
            ParseError,
        >(ParseError::MissingDict),
{
}

/// Two token streams that differ only in which of the three equivalent
/// separators stands at each separator position.
pub open spec fn sep_equiv(t1: Seq<TokenV>, t2: Seq<TokenV>) -> bool {
    t1.len() == t2.len() && forall|i: int|
        #![trigger t1[i]]
        0 <= i < t1.len() ==> (t1[i] == t2[i] || (is_sep_token(t1[i]) && is_sep_token(t2[i])))
}

proof fn lemma_tok_same(t1: Seq<TokenV>, t2: Seq<TokenV>, i: int)
    requires
        sep_equiv(t1, t2),
        0 <= i < t1.len(),
    ensures
        t1[i] == t2[i] || (is_sep_token(t1[i]) && is_sep_token(t2[i])),
{
    assert(t1[i] == t2[i] || (is_sep_token(t1[i]) && is_sep_token(t2[i])));
}

proof fn lemma_sep_sep(t1: Seq<TokenV>, t2: Seq<TokenV>, i: int)
    requires
        sep_equiv(t1, t2),
    ensures
        spec_parse_separator(t1, i) is Ok == spec_parse_separator(t2, i) is Ok,
        spec_parse_separator(t1, i) matches Ok((s1, j1)) ==> (spec_parse_separator(t2, i) matches
            Ok((s2, j2)) && j1 == j2),
        spec_parse_separator(t1, i) matches Err(e1) ==> spec_parse_separator(t2, i) == Err::<
            (Separator, int),
            ParseError,
        >(e1),
{
    if 0 <= i < t1.len() {
        lemma_tok_same(t1, t2, i);
    }
}

proof fn lemma_sep_attr(t1: Seq<TokenV>, t2: Seq<TokenV>, i: int)
    requires
        sep_equiv(t1, t2),
    ensures
        spec_parse_attr(t1, i) == spec_parse_attr(t2, i),
{
    if 0 <= i < t1.len() {
        lemma_tok_same(t1, t2, i);
    }
    lemma_sep_sep(t1, t2, i + 1);
    match spec_parse_separator(t1, i + 1) {
        Err(_) => {},
        Ok((_, j)) => {
            if 0 <= j < t1.len() {
                lemma_tok_same(t1, t2, j);
            }
        },
    }
}

proof fn lemma_sep_attr_seq(t1: Seq<TokenV>, t2: Seq<TokenV>, i: int, acc: Seq<AttrV>)
    requires
        sep_equiv(t1, t2),
    ensures
        spec_parse_attr_seq(t1, i, acc) == spec_parse_attr_seq(t2, i, acc),
    decreases t1.len() - i,
{
    if i < 0 || i >= t1.len() {
    } else {
        lemma_tok_same(t1, t2, i);
        if t1[i] is CloseBracket {
        } else {
            lemma_sep_attr(t1, t2, i);
            match spec_parse_attr(t1, i) {
                Err(_) => {},
                Ok((a, j)) => {
                    if j <= i {
                    } else {
                        if j < t1.len() {
                            lemma_tok_same(t1, t2, j);
                        }
                        if j < t1.len() && t1[j] is Comma {
                            lemma_sep_attr_seq(t1, t2, j + 1, acc.push(a));
                        }
                    }
                },
            }
        }
    }
}

proof fn lemma_sep_entry_core(
    t1: Seq<TokenV>,
    t2: Seq<TokenV>,
    i: int,
    q: Option<crate::common::ExprV>,
    rn: Option<Seq<char>>,
)
    requires
        sep_equiv(t1, t2),
    ensures
        spec_parse_entry_core(t1, i, q, rn) == spec_parse_entry_core(t2, i, q, rn),
{
    if 0 <= i < t1.len() {
        lemma_tok_same(t1, t2, i);
    }
    lemma_sep_sep(t1, t2, i + 1);
    match spec_parse_separator(t1, i + 1) {
        Err(_) => {},
        Ok((_, j)) => {
            if 0 <= j < t1.len() {
                lemma_tok_same(t1, t2, j);
            }
        },
    }
}

proof fn lemma_sep_entry(t1: Seq<TokenV>, t2: Seq<TokenV>, i: int)
    requires
        sep_equiv(t1, t2),
    ensures
        spec_parse_entry(t1, i) == spec_parse_entry(t2, i),
{
    if 0 <= i < t1.len() {
        lemma_tok_same(t1, t2, i);
    }
    if 0 <= i + 1 < t1.len() {
        lemma_tok_same(t1, t2, i + 1);
    }
    lemma_sep_attr_seq(t1, t2, i + 2, Seq::empty());
    if 0 <= i < t1.len() && t1[i] is Pound && i + 1 < t1.len() && t1[i + 1] is OpenBracket {
        match spec_parse_attr_seq(t1, i + 2, Seq::empty()) {
            Err(_) => {},
            Ok((attrs, j)) => {
                match spec_apply_attrs(attrs, 0, None, None) {
                    Err(_) => {},
                    Ok((q, rn)) => {
                        lemma_sep_entry_core(t1, t2, j, q, rn);
                    },
                }
            },
        }
    } else {
        lemma_sep_entry_core(t1, t2, i, None, None);
    }
}

proof fn lemma_sep_dict_entries(t1: Seq<TokenV>, t2: Seq<TokenV>, i: int, d: DictV)
    requires
        sep_equiv(t1, t2),
    ensures
        spec_parse_dict_entries(t1, i, d) == spec_parse_dict_entries(t2, i, d),
    decreases t1.len() - i,
{
    if i < 0 || i >= t1.len() {
    } else {
        lemma_tok_same(t1, t2, i);
        if t1[i] is CloseBrace {
        } else {
            lemma_sep_entry(t1, t2, i);
            match spec_parse_entry(t1, i) {
                Err(_) => {},
                Ok((ev, j)) => {
                    if j <= i || j > t1.len() {
                    } else {
                        match spec_add_entry(d, ev) {
                            Err(_) => {},
                            Ok(d2) => {
                                if j < t1.len() {
                                    lemma_tok_same(t1, t2, j);
                                }
                                if j < t1.len() && t1[j] is Comma {
                                    lemma_sep_dict_entries(t1, t2, j + 1, d2);
                                } else {
                                    lemma_sep_dict_entries(t1, t2, j, d2);
                                }
                            },
                        }
                    }
                },
            }
        }
    }
}

proof fn lemma_sep_dict(t1: Seq<TokenV>, t2: Seq<TokenV>, i: int)
    requires
        sep_equiv(t1, t2),
    ensures
        spec_parse_dict(t1, i) == spec_parse_dict(t2, i),
{
    if 0 <= i < t1.len() {
        lemma_tok_same(t1, t2, i);
    }
    lemma_sep_dict_entries(t1, t2, i + 1, Seq::empty());
}

proof fn lemma_sep_hattr_seq(t1: Seq<TokenV>, t2: Seq<TokenV>, i: int, isq: bool)
    requires
        sep_equiv(t1, t2),
    ensures
        spec_parse_hattr_seq(t1, i, isq) == spec_parse_hattr_seq(t2, i, isq),
    decreases t1.len() - i,
{
    if i < 0 || i >= t1.len() {
    } else {
        lemma_tok_same(t1, t2, i);
        if i + 1 < t1.len() {
            lemma_tok_same(t1, t2, i + 1);
        }
        if t1[i] is CloseBracket {
        } else if !(t1[i] is Ident) {
        } else {
            let name = crate::dict::tok_text(t1[i]);
            if name == "query"@ || name == "client"@ {
                let isq2 = isq || name == "query"@;
                if i + 1 < t1.len() && t1[i + 1] is Comma {
                    lemma_sep_hattr_seq(t1, t2, i + 2, isq2);
                }
            }
        }
    }
}

proof fn lemma_sep_header_core(t1: Seq<TokenV>, t2: Seq<TokenV>, i: int, isq: bool)
    requires
        sep_equiv(t1, t2),
    ensures
        spec_parse_header_core(t1, i, isq) == spec_parse_header_core(t2, i, isq),
{
    if 0 <= i < t1.len() {
        lemma_tok_same(t1, t2, i);
    }
    lemma_sep_sep(t1, t2, i + 1);
    match spec_parse_separator(t1, i + 1) {
        Err(_) => {},
        Ok((_, j)) => {
            if 0 <= j < t1.len() {
                lemma_tok_same(t1, t2, j);
            }
        },
    }
}

proof fn lemma_sep_header(t1: Seq<TokenV>, t2: Seq<TokenV>, i: int)
    requires
        sep_equiv(t1, t2),
    ensures
        spec_parse_header(t1, i) == spec_parse_header(t2, i),
{
    if 0 <= i < t1.len() {
        lemma_tok_same(t1, t2, i);
    }
    if 0 <= i + 1 < t1.len() {
        lemma_tok_same(t1, t2, i + 1);
    }
    lemma_sep_hattr_seq(t1, t2, i + 2, false);
    if 0 <= i < t1.len() && t1[i] is Pound && i + 1 < t1.len() && t1[i + 1] is OpenBracket {
        match spec_parse_hattr_seq(t1, i + 2, false) {
            Err(_) => {},
            Ok((isq, j)) => {
                lemma_sep_header_core(t1, t2, j, isq);
            },
        }
    } else {
        lemma_sep_header_core(t1, t2, i, false);
    }
}

proof fn lemma_sep_header_list(t1: Seq<TokenV>, t2: Seq<TokenV>, i: int, acc: Seq<HeaderV>)
    requires
        sep_equiv(t1, t2),
    ensures
        spec_parse_header_list(t1, i, acc) == spec_parse_header_list(t2, i, acc),
    decreases t1.len() - i,
{
    if i < 0 || i >= t1.len() {
    } else {
        lemma_tok_same(t1, t2, i);
        if t1[i] is CloseBrace {
        } else {
            lemma_sep_header(t1, t2, i);
            match spec_parse_header(t1, i) {
                Err(_) => {},
                Ok((hv, j)) => {
                    if j <= i || j > t1.len() {
                    } else {
                        let acc2 = if crate::headers::hdrs_contain_kv(acc, hv) {
                            acc
                        } else {
                            acc.push(hv)
                        };
                        if j < t1.len() {
                            lemma_tok_same(t1, t2, j);
                        }
                        if j < t1.len() && t1[j] is Comma {
                            lemma_sep_header_list(t1, t2, j + 1, acc2);
                        } else {
                            lemma_sep_header_list(t1, t2, j, acc2);
                        }
                    }
                },
            }
        }
    }
}

proof fn lemma_sep_headers(t1: Seq<TokenV>, t2: Seq<TokenV>, i: int)
    requires
        sep_equiv(t1, t2),
    ensures
        spec_parse_headers(t1, i) == spec_parse_headers(t2, i),
{
    if 0 <= i < t1.len() {
        lemma_tok_same(t1, t2, i);
    }
    lemma_sep_header_list(t1, t2, i + 1, Seq::empty());
}

proof fn lemma_sep_fields(
    t1: Seq<TokenV>,
    t2: Seq<TokenV>,
    i: int,
    acc: crate::input::FieldsV,
    aliases: bool,
)
    requires
        sep_equiv(t1, t2),
    ensures
        spec_parse_fields(t1, i, acc, aliases) == spec_parse_fields(t2, i, acc, aliases),
    decreases t1.len() - i,
{
    if i < 0 || i >= t1.len() {
    } else {
        lemma_tok_same(t1, t2, i);
        if !(t1[i] is Ident) {
        } else {
            lemma_sep_sep(t1, t2, i + 1);
            match spec_parse_separator(t1, i + 1) {
                Err(_) => {},
                Ok((_, j)) => {
                    if 0 <= j < t1.len() {
                        lemma_tok_same(t1, t2, j);
                    }
                    let fname = crate::dict::tok_text(t1[i]);
                    if crate::input::is_name_key(fname, aliases) {
                        if j < t1.len() && t1[j] is Ident {
                            lemma_sep_fields(
                                t1,
                                t2,
                                j + 1,
                                crate::input::FieldsV {
                                    name: Some(crate::dict::tok_text(t1[j])),
                                    ..acc
                                },
                                aliases,
                            );
                        }
                    } else if crate::input::is_base_key(fname, aliases) {
                        if j < t1.len() && t1[j] is LitStr {
                            lemma_sep_fields(
                                t1,
                                t2,
                                j + 1,
                                crate::input::FieldsV {
                                    base: Some(crate::dict::tok_text(t1[j])),
                                    ..acc
                                },
                                aliases,
                            );
                        }
                    } else if crate::input::is_dict_key(fname, aliases) {
                        lemma_sep_dict(t1, t2, j);
                        match spec_parse_dict(t1, j) {
                            Err(_) => {},
                            Ok((d, j2)) => {
                                if j2 <= i || j2 > t1.len() {
                                } else {
                                    lemma_sep_fields(
                                        t1,
                                        t2,
                                        j2,
                                        crate::input::FieldsV { dict: Some(d), ..acc },
                                        aliases,
                                    );
                                }
                            },
                        }
                    } else if crate::input::is_headers_key(fname, aliases) {
                        lemma_sep_headers(t1, t2, j);
                        match spec_parse_headers(t1, j) {
                            Err(_) => {},
                            Ok((hs, j2)) => {
                                if j2 <= i || j2 > t1.len() {
                                } else {
                                    lemma_sep_fields(
                                        t1,
                                        t2,
                                        j2,
                                        crate::input::FieldsV { headers: Some(hs), ..acc },
                                        aliases,
                                    );
                                }
                            },
                        }
                    } else if crate::input::is_query_key(fname, aliases) {
                        if j < t1.len() && crate::dict::is_expr_token(t1[j]) {
                            lemma_sep_fields(
                                t1,
                                t2,
                                j + 1,
                                crate::input::FieldsV {
                                    query: Some(crate::dict::expr_of(t1[j])),
                                    ..acc
                                },
                                aliases,
                            );
                        }
                    }
                },
            }
        }
    }
}

/// For all three equivalent separators, parsing the same invocation
/// with only the separators varied yields an identical parsed
/// structure, with either front end.
pub proof fn lemma_separator_equivalence(t1: Seq<TokenV>, t2: Seq<TokenV>)
    requires
        sep_equiv(t1, t2),
    ensures
        spec_parse_input(t1) == spec_parse_input(t2),
        spec_parse_builder(t1) == spec_parse_builder(t2),
{
    lemma_sep_fields(t1, t2, 0, empty_fields(), false);
    lemma_sep_fields(t1, t2, 0, empty_fields(), true);
}

} // verus!
