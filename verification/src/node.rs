//! Tree vertices.  A node corresponds to one path segment name; it may be
//! a root (the first segment of some entry), a leaf endpoint (carrying a
//! URL template and a result type), and/or an intermediate vertex with
//! child segments.

use vstd::prelude::*;
use vstd::string::*;

use crate::artifact::{FieldDef, FieldDefV, HttpDef, HttpDefV, UrlDef, UrlDefV};
use crate::casing::{pascal_of, snake_of, to_pascal, to_snake};
use crate::common::{Expr, ExprV};
use crate::headers::Headers;

verus! {

/// The endpoint payload of a leaf node: the original path as written,
/// plus the optional per-entry query suffix appended to it verbatim when
/// the URL is composed.
#[derive(Debug, Clone, PartialEq, Eq)]
pub struct UrlTemplate {
    pub path: String,
    pub query: Option<Expr>,
}

/// Ghost mirror of [`UrlTemplate`].
#[verifier::ext_equal]
pub struct UrlTemplateV {
    pub path: Seq<char>,
    pub query: Option<ExprV>,
}

impl View for UrlTemplate {
    type V = UrlTemplateV;

    open spec fn view(&self) -> UrlTemplateV {
        UrlTemplateV { path: self.path@, query: self.query.deep_view() }
    }
}

impl DeepView for UrlTemplate {
    type V = UrlTemplateV;

    open spec fn deep_view(&self) -> UrlTemplateV {
        self.view()
    }
}

/// One tree vertex, keyed by a single path segment name.
///
/// Nodes are keyed by bare segment name, globally across the dictionary,
/// not by the full path from the root.  Two entries that place a
/// same-named segment at different tree positions therefore share one
/// node, and their children are unioned; see the dictionary builder.
#[derive(Debug, Clone, PartialEq, Eq)]
pub struct Node {
    /// True if this segment ever appears first in some entry's path.
    pub root: bool,
    /// The result type decoded by the generated operations; present iff
    /// this node is a leaf endpoint.
    pub de_type: Option<String>,
    /// Names of the immediate child segments, first-seen order, no
    /// duplicates.
    pub children: Vec<String>,
    /// The URL template; present iff this node is a leaf endpoint.
    pub endpoint: Option<UrlTemplate>,
}

/// Ghost mirror of [`Node`].
#[verifier::ext_equal]
pub struct NodeV {
    pub root: bool,
    pub de_type: Option<Seq<char>>,
    pub children: Seq<Seq<char>>,
    pub endpoint: Option<UrlTemplateV>,
}

impl View for Node {
    type V = NodeV;

    open spec fn view(&self) -> NodeV {
        NodeV {
            root: self.root,
            de_type: self.de_type.deep_view(),
            children: self.children.deep_view(),
            endpoint: self.endpoint.deep_view(),
        }
    }
}

impl DeepView for Node {
    type V = NodeV;

    open spec fn deep_view(&self) -> NodeV {
        self.view()
    }
}

/// A fresh node: not root, no payload, no children.
pub open spec fn empty_node() -> NodeV {
    NodeV { root: false, de_type: None, children: Seq::empty(), endpoint: None }
}

/// Child lists never hold a name twice.
pub open spec fn children_unique(cs: Seq<Seq<char>>) -> bool {
    forall|i: int, j: int| 0 <= i < j < cs.len() ==> cs[i] != cs[j]
}

/// Inserting a child name: kept as a set, in first-seen order.
pub open spec fn child_insert(cs: Seq<Seq<char>>, name: Seq<char>) -> Seq<Seq<char>> {
    if cs.contains(name) {
        cs
    } else {
        cs.push(name)
    }
}

impl UrlTemplate {
    /// An exact copy.
    pub fn dup(&self) -> (r: UrlTemplate)
        ensures
            r@ == self@,
    {
        let query = match &self.query {
            Some(x) => Some(x.dup()),
            None => None,
        };
        let r = UrlTemplate { path: self.path.clone(), query };
        proof {
            assert(r@ =~~= self@);
        }
        r
    }
}

impl Node {
    /// An exact copy.
    pub fn dup(&self) -> (n: Node)
        ensures
            n@ == self@,
    {
        let de_type = match &self.de_type {
            Some(s) => Some(s.clone()),
            None => None,
        };
        let endpoint = match &self.endpoint {
            Some(u) => Some(u.dup()),
            None => None,
        };
        let cn = self.children.len();
        let mut children: Vec<String> = Vec::new();
        proof {
            assert(children.deep_view() =~= self.children.deep_view().take(0));
        }
        let mut k: usize = 0;
        while k < cn
            invariant
                k <= cn,
                cn == self.children@.len(),
                children.deep_view() == self.children.deep_view().take(k as int),
            decreases cn - k,
        {
            let ghost c0 = children.deep_view();
            children.push(self.children[k].clone());
            proof {
                assert(children.deep_view() =~= c0.push(self.children.deep_view()[k as int]));
                assert(self.children.deep_view().take(k as int + 1) =~= c0.push(
                    self.children.deep_view()[k as int],
                ));
            }
            k = k + 1;
        }
        proof {
            assert(self.children.deep_view().take(cn as int) =~= self.children.deep_view());
        }
        let n = Node { root: self.root, de_type, children, endpoint };
        proof {
            assert(n@ =~~= self@);
        }
        n
    }

    /// A node starts with nothing: not root, no payload, no children.
    pub fn new() -> (n: Node)
        ensures
            n@ == empty_node(),
    {
        let n = Node { root: false, de_type: None, children: Vec::new(), endpoint: None };
        proof {
            assert(n@ =~~= empty_node());
        }
        n
    }

    /// Whether the node is a leaf endpoint, eligible for generated HTTP
    /// operations.
    pub fn is_http(&self) -> (b: bool)
        ensures
            b == (self@.de_type is Some),
    {
        self.de_type.is_some()
    }

    /// Whether the node was the first segment of at least one entry.
    pub fn is_root(&self) -> (b: bool)
        ensures
            b == self@.root,
    {
        self.root
    }

    /// The generated field definition of one child segment: the
    /// snake_case field named after the child, typed with the api-name
    /// prefix and the PascalCase form of the child.
    pub open spec fn spec_child_field(api: Seq<char>, c: Seq<char>) -> FieldDefV {
        FieldDefV { field_name: snake_of(c), struct_name: api + pascal_of(c) }
    }

    /// Remake the child segments as field definitions of the generated
    /// container.
    pub fn children_fields(&self, api_name: &String) -> (r: Vec<FieldDef>)
        ensures
            r.deep_view() == self@.children.map_values(
                |c: Seq<char>| Node::spec_child_field(api_name@, c),
            ),
    {
        let ghost f = |c: Seq<char>| Node::spec_child_field(api_name@, c);
        let ghost cs = self.children.deep_view();
        let n = self.children.len();
        let mut r: Vec<FieldDef> = Vec::new();
        proof {
            assert(r.deep_view() =~= cs.take(0).map_values(f));
        }
        let mut k: usize = 0;
        while k < n
            invariant
                k <= n,
                n == self.children@.len(),
                cs == self.children.deep_view(),
                f == (|c: Seq<char>| Node::spec_child_field(api_name@, c)),
                r.deep_view() == cs.take(k as int).map_values(f),
            decreases n - k,
        {
            let child = &self.children[k];
            let field_name = to_snake(child);
            let mut struct_name = api_name.clone();
            let pascal = to_pascal(child);
            struct_name.append(pascal.as_str());
            let ghost r0 = r.deep_view();
            r.push(FieldDef { field_name, struct_name });
            proof {
                assert(r.deep_view() =~= r0.push(f(cs[k as int])));
                assert(cs.take(k as int + 1) =~= cs.take(k as int).push(cs[k as int]));
                assert(cs.take(k as int + 1).map_values(f) =~= cs.take(k as int).map_values(
                    f,
                ).push(f(cs[k as int])));
            }
            k = k + 1;
        }
        proof {
            assert(cs.take(n as int) =~= cs);
        }
        r
    }

    /// Collect the URL pieces of this leaf node, combining its template
    /// with the optional base URL and global query of the specification.
    /// Composition order is fixed: base, path, per-entry query, global
    /// query.
    pub fn build_url(&self, base: Option<&String>, global_query: Option<&Expr>) -> (u: UrlDef)
        requires
            self@.endpoint is Some,
        ensures
            u@ == (UrlDefV {
                base: match base {
                    Some(b) => Some(b@),
                    None => None,
                },
                path: self@.endpoint->Some_0.path,
                query: self@.endpoint->Some_0.query,
                global_query: match global_query {
                    Some(g) => Some(g@),
                    None => None,
                },
            }),
    {
        let tpl = match &self.endpoint {
            Some(t) => t,
            None => {
                proof {
                    assert(false);
                }
                unreached()
            },
        };
        let u = UrlDef {
            base: match base {
                Some(b) => Some(b.clone()),
                None => None,
            },
            path: tpl.path.clone(),
            query: match &tpl.query {
                Some(q) => Some(q.dup()),
                None => None,
            },
            global_query: match global_query {
                Some(g) => Some(g.dup()),
                None => None,
            },
        };
        proof {
            assert(u@ =~~= (UrlDefV {
                base: match base {
                    Some(b) => Some(b@),
                    None => None,
                },
                path: self@.endpoint->Some_0.path,
                query: self@.endpoint->Some_0.query,
                global_query: match global_query {
                    Some(g) => Some(g@),
                    None => None,
                },
            }));
        }
        u
    }

    /// Collect the HTTP surface of this leaf node: the URL pieces, the
    /// result type of its operations, and the headers split by scope.
    pub fn build_http(&self, url: UrlDef, headers: Option<&Headers>) -> (h: HttpDef)
        requires
            self@.de_type is Some,
        ensures
            h@ == (HttpDefV {
                url: url@,
                de_type: self@.de_type->Some_0,
                client_headers: match headers {
                    Some(hs) => hs@.client,
                    None => Seq::empty(),
                },
                request_headers: match headers {
                    Some(hs) => hs@.query,
                    None => Seq::empty(),
                },
            }),
    {
        let de_type = match &self.de_type {
            Some(t) => t.clone(),
            None => {
                proof {
                    assert(false);
                }
                unreached()
            },
        };
        let (client_headers, request_headers) = match headers {
            Some(hs) => (hs.dup_client(), hs.dup_query()),
            None => (Vec::new(), Vec::new()),
        };
        let h = HttpDef { url, de_type, client_headers, request_headers };
        proof {
            assert(h@ =~~= (HttpDefV {
                url: h.url@,
                de_type: self@.de_type->Some_0,
                client_headers: match headers {
                    Some(hs) => hs@.client,
                    None => Seq::empty(),
                },
                request_headers: match headers {
                    Some(hs) => hs@.query,
                    None => Seq::empty(),
                },
            }));
        }
        h
    }

    /// Record `name` as a child segment, keeping the child list free of
    /// duplicates and in first-seen order.
    pub fn add_child(&mut self, name: &String)
        ensures
            final(self)@ == (NodeV { children: child_insert(old(self)@.children, name@), ..old(self)@ }),
    {
        let n = self.children.len();
        let mut k: usize = 0;
        while k < n
            invariant
                k <= n,
                n == self.children@.len(),
                *self == *old(self),
                forall|j: int| 0 <= j < k ==> self.children.deep_view()[j] != name@,
            decreases n - k,
        {
            if self.children[k] == *name {
                proof {
                    assert(self.children.deep_view()[k as int] == name@);
                    assert(old(self)@.children.contains(name@));
                    assert(self@ =~~= (NodeV {
                        children: child_insert(old(self)@.children, name@),
                        ..old(self)@
                    }));
                }
                return ;
            }
            k = k + 1;
        }
        proof {
            assert(forall|j: int|
                0 <= j < old(self)@.children.len() ==> old(self)@.children[j] != name@);
            assert(!old(self)@.children.contains(name@));
        }
        self.children.push(name.clone());
        proof {
            assert(self@.children =~= old(self)@.children.push(name@));
            assert(self@ =~~= (NodeV {
                children: child_insert(old(self)@.children, name@),
                ..old(self)@
            }));
        }
    }
}

} // verus!
