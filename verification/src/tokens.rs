//! The code-generation walk: every dictionary node becomes one typed
//! container definition, leaf nodes additionally receive their HTTP
//! surface, and every root node is registered as a field of the
//! top-level container.

use vstd::prelude::*;
use vstd::string::*;

use crate::artifact::{FieldDef, FieldDefV, HttpDefV, NodeDef, NodeDefV, UrlDef, UrlDefV};
use crate::casing::{pascal_of, snake_of, to_pascal, to_snake};
use crate::common::ExprV;
use crate::headers::HeadersV;
use crate::input::{Input, InputV};
use crate::node::{Node, NodeV};

verus! {

/// A root node's registration on the top-level container.
pub open spec fn spec_root_field(api: Seq<char>, name: Seq<char>) -> FieldDefV {
    FieldDefV { field_name: snake_of(name), struct_name: api + pascal_of(name) }
}

/// The container definition emitted for one dictionary binding.
pub open spec fn spec_node_def(
    api: Seq<char>,
    name: Seq<char>,
    n: NodeV,
    base: Option<Seq<char>>,
    global: Option<ExprV>,
    headers: Option<HeadersV>,
) -> NodeDefV {
    NodeDefV {
        struct_name: api + pascal_of(name),
        field_name: snake_of(name),
        is_root: n.root,
        fields: n.children.map_values(|c: Seq<char>| Node::spec_child_field(api, c)),
        http: match n.de_type {
            None => None,
            Some(ty) => Some(
                HttpDefV {
                    url: UrlDefV {
                        base: base,
                        path: match n.endpoint {
                            Some(u) => u.path,
                            None => Seq::empty(),
                        },
                        query: match n.endpoint {
                            Some(u) => u.query,
                            None => None,
                        },
                        global_query: global,
                    },
                    de_type: ty,
                    client_headers: match headers {
                        Some(h) => h.client,
                        None => Seq::empty(),
                    },
                    request_headers: match headers {
                        Some(h) => h.query,
                        None => Seq::empty(),
                    },
                },
            ),
        },
    }
}

/// Whether a dictionary binding is a root node.
pub open spec fn binding_is_root(p: (Seq<char>, NodeV)) -> bool {
    p.1.root
}

/// All artifacts of one specification: the top-level container's fields,
/// one per root node, and one container definition per dictionary node,
/// in dictionary order.
pub open spec fn spec_components(inp: InputV) -> ApiComponentsV {
    ApiComponentsV {
        root_fields: inp.dict.filter(|p: (Seq<char>, NodeV)| binding_is_root(p)).map_values(
            |p: (Seq<char>, NodeV)| spec_root_field(inp.name, p.0),
        ),
        other_nodes: inp.dict.map_values(
            |p: (Seq<char>, NodeV)|
                spec_node_def(inp.name, p.0, p.1, inp.base, inp.query, inp.headers),
        ),
    }
}

/// The emitted artifacts of one specification.
#[derive(Debug)]
pub struct ApiComponents {
    /// One field per root node of the dictionary, in dictionary order.
    pub root_fields: Vec<FieldDef>,
    /// One container definition per dictionary node, in dictionary
    /// order.
    pub other_nodes: Vec<NodeDef>,
}

/// Ghost mirror of [`ApiComponents`].
#[verifier::ext_equal]
pub struct ApiComponentsV {
    pub root_fields: Seq<FieldDefV>,
    pub other_nodes: Seq<NodeDefV>,
}

impl View for ApiComponents {
    type V = ApiComponentsV;

    open spec fn view(&self) -> ApiComponentsV {
        ApiComponentsV {
            root_fields: self.root_fields.deep_view(),
            other_nodes: self.other_nodes.deep_view(),
        }
    }
}

proof fn lemma_filter_push_binding(
    s: Seq<(Seq<char>, NodeV)>,
    x: (Seq<char>, NodeV),
    p: spec_fn((Seq<char>, NodeV)) -> bool,
)
    ensures
        s.push(x).filter(p) == if p(x) {
            s.filter(p).push(x)
        } else {
            s.filter(p)
        },
{
    reveal(Seq::filter);
    assert(s.push(x).drop_last() =~= s);
    assert(s.push(x).last() == x);
}

impl ApiComponents {
    /// Walk the dictionary and emit every artifact of the
    /// specification: a container definition for every node (with the
    /// HTTP surface on leaves) and a top-level field for every root.
    pub fn build(input: Input) -> (c: ApiComponents)
        ensures
            c@ == spec_components(input@),
    {
        let ghost inpv = input@;
        let ghost d = input.dict@;
        let ghost proot = |p: (Seq<char>, NodeV)| binding_is_root(p);
        let ghost frf = |p: (Seq<char>, NodeV)| spec_root_field(inpv.name, p.0);
        let ghost fnd = |p: (Seq<char>, NodeV)|
            spec_node_def(inpv.name, p.0, p.1, inpv.base, inpv.query, inpv.headers);
        let mut root_fields: Vec<FieldDef> = Vec::new();
        let mut other_nodes: Vec<NodeDef> = Vec::new();
        let n = input.dict.inner.len();
        proof {
            assert(root_fields.deep_view() =~= d.take(0).filter(proot).map_values(frf));
            assert(other_nodes.deep_view() =~= d.take(0).map_values(fnd));
            reveal(Seq::filter);
        }
        let mut k: usize = 0;
        while k < n
            invariant
                k <= n,
                n == input.dict.inner@.len(),
                inpv == input@,
                d == input.dict@,
                proot == (|p: (Seq<char>, NodeV)| binding_is_root(p)),
                frf == (|p: (Seq<char>, NodeV)| spec_root_field(inpv.name, p.0)),
                fnd == (|p: (Seq<char>, NodeV)|
                    spec_node_def(inpv.name, p.0, p.1, inpv.base, inpv.query, inpv.headers)),
                root_fields.deep_view() == d.take(k as int).filter(proot).map_values(frf),
                other_nodes.deep_view() == d.take(k as int).map_values(fnd),
            decreases n - k,
        {
            let pair = &input.dict.inner[k];
            let name = &pair.0;
            let node = &pair.1;
            proof {
                assert(d[k as int] == (name@, node@));
            }
            let field_name = to_snake(name);
            let mut struct_name = input.name.clone();
            let pascal = to_pascal(name);
            struct_name.append(pascal.as_str());
            if node.root {
                let ghost r0 = root_fields.deep_view();
                root_fields.push(
                    FieldDef {
                        field_name: field_name.clone(),
                        struct_name: struct_name.clone(),
                    },
                );
                proof {
                    assert(root_fields.deep_view() =~= r0.push(frf(d[k as int])));
                }
            }
            let fields = node.children_fields(&input.name);
            let http = if node.is_http() {
                let url = if node.endpoint.is_some() {
                    node.build_url(input.base.as_ref(), input.query.as_ref())
                } else {
                    UrlDef {
                        base: match &input.base {
                            Some(b) => Some(b.clone()),
                            None => None,
                        },
                        path: String::new(),
                        query: None,
                        global_query: match &input.query {
                            Some(g) => Some(g.dup()),
                            None => None,
                        },
                    }
                };
                Some(node.build_http(url, input.headers.as_ref()))
            } else {
                None
            };
            let nd = NodeDef {
                struct_name,
                field_name,
                is_root: node.root,
                fields,
                http,
            };
            proof {
                assert(nd@ =~~= fnd(d[k as int]));
            }
            let ghost o0 = other_nodes.deep_view();
            other_nodes.push(nd);
            proof {
                assert(other_nodes.deep_view() =~= o0.push(fnd(d[k as int])));
                assert(d.take(k as int + 1) =~= d.take(k as int).push(d[k as int]));
                lemma_filter_push_binding(d.take(k as int), d[k as int], proot);
                assert(d.take(k as int + 1).map_values(fnd) =~= d.take(k as int).map_values(
                    fnd,
                ).push(fnd(d[k as int])));
                assert(d.take(k as int + 1).filter(proot).map_values(frf) =~= if proot(
                    d[k as int],
                ) {
                    d.take(k as int).filter(proot).map_values(frf).push(frf(d[k as int]))
                } else {
                    d.take(k as int).filter(proot).map_values(frf)
                });
            }
            k = k + 1;
        }
        proof {
            assert(d.take(n as int) =~= d);
        }
        let c = ApiComponents { root_fields, other_nodes };
        proof {
            assert(c@ =~~= spec_components(inpv));
        }
        c
    }
}

} // verus!
