//! The typed artifacts that the code generator emits: field definitions,
//! URL compositions, HTTP surfaces and per-node container definitions.
//! A separate rendering pass turns these into source text.

use vstd::prelude::*;
use vstd::string::*;

use crate::common::{Expr, ExprV};
use crate::headers::{Header, HeaderV};

verus! {

/// One field of a generated container: `field_name: struct_name`.
#[derive(Debug, Clone, PartialEq, Eq)]
pub struct FieldDef {
    pub field_name: String,
    pub struct_name: String,
}

/// Ghost mirror of [`FieldDef`].
#[verifier::ext_equal]
pub struct FieldDefV {
    pub field_name: Seq<char>,
    pub struct_name: Seq<char>,
}

impl View for FieldDef {
    type V = FieldDefV;

    open spec fn view(&self) -> FieldDefV {
        FieldDefV { field_name: self.field_name@, struct_name: self.struct_name@ }
    }
}

impl DeepView for FieldDef {
    type V = FieldDefV;

    open spec fn deep_view(&self) -> FieldDefV {
        self.view()
    }
}

/// The four pieces of a generated URL, in their fixed composition
/// order: base, then the path as written, then the per-entry query,
/// then the global query.
#[derive(Debug, Clone, PartialEq, Eq)]
pub struct UrlDef {
    pub base: Option<String>,
    pub path: String,
    pub query: Option<Expr>,
    pub global_query: Option<Expr>,
}

/// Ghost mirror of [`UrlDef`].
#[verifier::ext_equal]
pub struct UrlDefV {
    pub base: Option<Seq<char>>,
    pub path: Seq<char>,
    pub query: Option<ExprV>,
    pub global_query: Option<ExprV>,
}

impl View for UrlDef {
    type V = UrlDefV;

    open spec fn view(&self) -> UrlDefV {
        UrlDefV {
            base: self.base.deep_view(),
            path: self.path@,
            query: self.query.deep_view(),
            global_query: self.global_query.deep_view(),
        }
    }
}

impl DeepView for UrlDef {
    type V = UrlDefV;

    open spec fn deep_view(&self) -> UrlDefV {
        self.view()
    }
}

/// An absent optional piece contributes nothing to the composition.
pub open spec fn opt_text(o: Option<Seq<char>>) -> Seq<char> {
    match o {
        Some(s) => s,
        None => Seq::empty(),
    }
}

/// The text an optional query expression contributes when the generated
/// code runs: nothing when absent, the literal's contents when it is a
/// string literal, and unknown (`None`) when it is opaque source text.
pub open spec fn lit_text(o: Option<ExprV>) -> Option<Seq<char>> {
    match o {
        None => Some(Seq::<char>::empty()),
        Some(ExprV::Lit(s)) => Some(s),
        Some(ExprV::Raw(_)) => None,
    }
}

/// The composed URL: base, path, per-entry query and global query
/// concatenated in exactly that order.
pub open spec fn spec_compose_url(
    base: Option<Seq<char>>,
    path: Seq<char>,
    q: Seq<char>,
    g: Seq<char>,
) -> Seq<char> {
    opt_text(base) + path + q + g
}

impl UrlDef {
    /// The URL that the generated code computes, evaluated here for the
    /// case in which every present piece is a string literal.  An opaque
    /// query expression cannot be evaluated at compile time, so the
    /// result is `None` exactly when one is present.
    pub fn compose(&self) -> (r: Option<String>)
        ensures
            r is Some <==> (lit_text(self@.query) is Some && lit_text(self@.global_query)
                is Some),
            r matches Some(u) ==> u@ == spec_compose_url(
                self@.base,
                self@.path,
                opt_text(lit_text(self@.query)),
                opt_text(lit_text(self@.global_query)),
            ),
    {
        let q: &str = match &self.query {
            None => "",
            Some(Expr::Lit(s)) => s.as_str(),
            Some(Expr::Raw(_)) => {
                return None;
            },
        };
        let g: &str = match &self.global_query {
            None => "",
            Some(Expr::Lit(s)) => s.as_str(),
            Some(Expr::Raw(_)) => {
                return None;
            },
        };
        let mut u: String = match &self.base {
            Some(b) => b.clone(),
            None => String::new(),
        };
        u.append(self.path.as_str());
        u.append(q);
        u.append(g);
        proof {
            reveal_strlit("");
            assert(u@ =~= spec_compose_url(
                self@.base,
                self@.path,
                opt_text(lit_text(self@.query)),
                opt_text(lit_text(self@.global_query)),
            ));
        }
        Some(u)
    }
}

/// The HTTP surface of a leaf node: its composed URL pieces, the result
/// type its operations decode, and the headers split by scope.
#[derive(Debug, Clone, PartialEq, Eq)]
pub struct HttpDef {
    pub url: UrlDef,
    pub de_type: String,
    pub client_headers: Vec<Header>,
    pub request_headers: Vec<Header>,
}

/// Ghost mirror of [`HttpDef`].
#[verifier::ext_equal]
pub struct HttpDefV {
    pub url: UrlDefV,
    pub de_type: Seq<char>,
    pub client_headers: Seq<HeaderV>,
    pub request_headers: Seq<HeaderV>,
}

impl View for HttpDef {
    type V = HttpDefV;

    open spec fn view(&self) -> HttpDefV {
        HttpDefV {
            url: self.url@,
            de_type: self.de_type@,
            client_headers: self.client_headers.deep_view(),
            request_headers: self.request_headers.deep_view(),
        }
    }
}

impl DeepView for HttpDef {
    type V = HttpDefV;

    open spec fn deep_view(&self) -> HttpDefV {
        self.view()
    }
}

/// One emitted container definition: its type name, the field it
/// occupies in its parent, whether it is registered on the top-level
/// container, its child fields, and its HTTP surface when it is a leaf.
///
/// The generated constructor initialises exactly the fields listed here,
/// so every emitted container is constructible with no external state.
#[derive(Debug, Clone, PartialEq, Eq)]
pub struct NodeDef {
    pub struct_name: String,
    pub field_name: String,
    pub is_root: bool,
    pub fields: Vec<FieldDef>,
    pub http: Option<HttpDef>,
}

/// Ghost mirror of [`NodeDef`].
#[verifier::ext_equal]
pub struct NodeDefV {
    pub struct_name: Seq<char>,
    pub field_name: Seq<char>,
    pub is_root: bool,
    pub fields: Seq<FieldDefV>,
    pub http: Option<HttpDefV>,
}

impl View for NodeDef {
    type V = NodeDefV;

    open spec fn view(&self) -> NodeDefV {
        NodeDefV {
            struct_name: self.struct_name@,
            field_name: self.field_name@,
            is_root: self.is_root,
            fields: self.fields.deep_view(),
            http: self.http.deep_view(),
        }
    }
}

impl DeepView for NodeDef {
    type V = NodeDefV;

    open spec fn deep_view(&self) -> NodeDefV {
        self.view()
    }
}

} // verus!
