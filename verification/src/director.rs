//! The rendering pass: typed artifacts become Rust source text.  One
//! renderer per artifact kind, each with an exact statement of the text
//! it produces, and the per-specification collection of rendered pieces.

use vstd::prelude::*;
use vstd::string::*;

use crate::artifact::{FieldDef, FieldDefV, HttpDef, HttpDefV, NodeDef, NodeDefV, UrlDefV};
use crate::builder::ApiBuilder;
use crate::common::{Expr, ExprV};
use crate::headers::{quoted, Header, HeaderV};
use crate::input::{FieldsV, Input, InputV};
use crate::tokens::{spec_components, ApiComponents};

verus! {

/// The source text of a caller-supplied expression: a string literal in
/// its quoted form, opaque text verbatim.
pub open spec fn spec_render_expr(e: ExprV) -> Seq<char> {
    match e {
        ExprV::Lit(s) => quoted(s),
        ExprV::Raw(s) => s,
    }
}

fn render_expr(e: &Expr) -> (r: String)
    ensures
        r@ == spec_render_expr(e@),
{
    match e {
        Expr::Lit(s) => {
            let mut r = String::from_str("\"");
            r.append(s.as_str());
            r.append("\"");
            proof {
                assert(r@ =~= spec_render_expr(e@));
            }
            r
        },
        Expr::Raw(s) => s.clone(),
    }
}

/// One field declaration line of a generated container.
pub open spec fn spec_render_field_decl(f: FieldDefV) -> Seq<char> {
    f.field_name + ": "@ + f.struct_name + ",\n"@
}

pub(crate) fn render_field_decl(f: &FieldDef) -> (r: String)
    ensures
        r@ == spec_render_field_decl(f@),
{
    let mut r = String::new();
    r.append(f.field_name.as_str());
    r.append(": ");
    r.append(f.struct_name.as_str());
    r.append(",\n");
    proof {
        assert(r@ =~= spec_render_field_decl(f@));
    }
    r
}

/// One field initialisation line of a generated constructor.
pub open spec fn spec_render_field_init(f: FieldDefV) -> Seq<char> {
    f.field_name + ": "@ + f.struct_name + "::new(),\n"@
}

fn render_field_init(f: &FieldDef) -> (r: String)
    ensures
        r@ == spec_render_field_init(f@),
{
    let mut r = String::new();
    r.append(f.field_name.as_str());
    r.append(": ");
    r.append(f.struct_name.as_str());
    r.append("::new(),\n");
    proof {
        assert(r@ =~= spec_render_field_init(f@));
    }
    r
}

/// All field declaration lines, in order.
pub open spec fn spec_render_decls(fs: Seq<FieldDefV>) -> Seq<char>
    decreases fs.len(),
{
    if fs.len() == 0 {
        Seq::empty()
    } else {
        spec_render_decls(fs.drop_last()) + spec_render_field_decl(fs.last())
    }
}

/// All field initialisation lines, in order.
pub open spec fn spec_render_inits(fs: Seq<FieldDefV>) -> Seq<char>
    decreases fs.len(),
{
    if fs.len() == 0 {
        Seq::empty()
    } else {
        spec_render_inits(fs.drop_last()) + spec_render_field_init(fs.last())
    }
}

pub(crate) fn render_decls(fs: &Vec<FieldDef>) -> (r: String)
    ensures
        r@ == spec_render_decls(fs.deep_view()),
{
    let ghost fsv = fs.deep_view();
    let n = fs.len();
    let mut r = String::new();
    proof {
        assert(fsv.take(0) =~= Seq::<FieldDefV>::empty());
        assert(r@ =~= spec_render_decls(fsv.take(0)));
    }
    let mut k: usize = 0;
    while k < n
        invariant
            k <= n,
            n == fs@.len(),
            fsv == fs.deep_view(),
            r@ == spec_render_decls(fsv.take(k as int)),
        decreases n - k,
    {
        let line = render_field_decl(&fs[k]);
        r.append(line.as_str());
        proof {
            assert(fsv.take(k as int + 1).drop_last() =~= fsv.take(k as int));
            assert(fsv.take(k as int + 1).last() == fsv[k as int]);
        }
        k = k + 1;
    }
    proof {
        assert(fsv.take(n as int) =~= fsv);
    }
    r
}

pub(crate) fn render_inits(fs: &Vec<FieldDef>) -> (r: String)
    ensures
        r@ == spec_render_inits(fs.deep_view()),
{
    let ghost fsv = fs.deep_view();
    let n = fs.len();
    let mut r = String::new();
    proof {
        assert(fsv.take(0) =~= Seq::<FieldDefV>::empty());
        assert(r@ =~= spec_render_inits(fsv.take(0)));
    }
    let mut k: usize = 0;
    while k < n
        invariant
            k <= n,
            n == fs@.len(),
            fsv == fs.deep_view(),
            r@ == spec_render_inits(fsv.take(k as int)),
        decreases n - k,
    {
        let line = render_field_init(&fs[k]);
        r.append(line.as_str());
        proof {
            assert(fsv.take(k as int + 1).drop_last() =~= fsv.take(k as int));
            assert(fsv.take(k as int + 1).last() == fsv[k as int]);
        }
        k = k + 1;
    }
    proof {
        assert(fsv.take(n as int) =~= fsv);
    }
    r
}

/// The URL-building statements of a leaf: the path (with the per-entry
/// query appended) first, re-based on the base URL when one is present,
/// with the global query appended last, and the composed `url` as the
/// block's value.
pub open spec fn spec_render_url_code(u: UrlDefV) -> Seq<char> {
    let ep = match u.query {
        Some(q) => "let url = format!(\"{}{}\", \""@ + u.path + "\", "@ + spec_render_expr(q)
            + ");\n"@,
        None => "let url = String::from(\""@ + u.path + "\");\n"@,
    };
    let based = match u.base {
        Some(b) => "let base = \""@ + b + "\";\n"@ + ep
            + "let url = format!(\"{}{}\", base, url);\n"@,
        None => ep,
    };
    let globbed = match u.global_query {
        Some(g) => based + "let url = format!(\"{}{}\", url, "@ + spec_render_expr(g) + ");\n"@,
        None => based,
    };
    globbed + "url\n"@
}

/// One client-scoped header applied while the client is built.
pub open spec fn spec_render_client_header(h: HeaderV) -> Seq<char> {
    "let value = "@ + h.value + ";\nheaders.insert(\""@ + h.key
        + "\", reqwest::header::HeaderValue::from_str(value).unwrap());\n"@
}

/// One request-scoped header applied to a request as it is built.
pub open spec fn spec_render_request_header(h: HeaderV) -> Seq<char> {
    ".header(\""@ + h.key + "\", "@ + h.value + ")"@
}

/// All client-scoped header statements, in order.
pub open spec fn spec_render_client_headers(hs: Seq<HeaderV>) -> Seq<char>
    decreases hs.len(),
{
    if hs.len() == 0 {
        Seq::empty()
    } else {
        spec_render_client_headers(hs.drop_last()) + spec_render_client_header(hs.last())
    }
}

/// All request-scoped header applications, in order.
pub open spec fn spec_render_request_headers(hs: Seq<HeaderV>) -> Seq<char>
    decreases hs.len(),
{
    if hs.len() == 0 {
        Seq::empty()
    } else {
        spec_render_request_headers(hs.drop_last()) + spec_render_request_header(hs.last())
    }
}

fn render_client_headers(hs: &Vec<Header>) -> (r: String)
    ensures
        r@ == spec_render_client_headers(hs.deep_view()),
{
    let ghost hv = hs.deep_view();
    let n = hs.len();
    let mut r = String::new();
    proof {
        assert(hv.take(0) =~= Seq::<HeaderV>::empty());
        assert(r@ =~= spec_render_client_headers(hv.take(0)));
    }
    let mut k: usize = 0;
    while k < n
        invariant
            k <= n,
            n == hs@.len(),
            hv == hs.deep_view(),
            r@ == spec_render_client_headers(hv.take(k as int)),
        decreases n - k,
    {
        let h = &hs[k];
        r.append("let value = ");
        r.append(h.value.as_str());
        r.append(";\nheaders.insert(\"");
        r.append(h.key.as_str());
        r.append("\", reqwest::header::HeaderValue::from_str(value).unwrap());\n");
        proof {
            assert(hv.take(k as int + 1).drop_last() =~= hv.take(k as int));
            assert(hv.take(k as int + 1).last() == hv[k as int]);
            assert(r@ =~= spec_render_client_headers(hv.take(k as int + 1)));
        }
        k = k + 1;
    }
    proof {
        assert(hv.take(n as int) =~= hv);
    }
    r
}

fn render_request_headers(hs: &Vec<Header>) -> (r: String)
    ensures
        r@ == spec_render_request_headers(hs.deep_view()),
{
    let ghost hv = hs.deep_view();
    let n = hs.len();
    let mut r = String::new();
    proof {
        assert(hv.take(0) =~= Seq::<HeaderV>::empty());
        assert(r@ =~= spec_render_request_headers(hv.take(0)));
    }
    let mut k: usize = 0;
    while k < n
        invariant
            k <= n,
            n == hs@.len(),
            hv == hs.deep_view(),
            r@ == spec_render_request_headers(hv.take(k as int)),
        decreases n - k,
    {
        let h = &hs[k];
        r.append(".header(\"");
        r.append(h.key.as_str());
        r.append("\", ");
        r.append(h.value.as_str());
        r.append(")");
        proof {
            assert(hv.take(k as int + 1).drop_last() =~= hv.take(k as int));
            assert(hv.take(k as int + 1).last() == hv[k as int]);
            assert(r@ =~= spec_render_request_headers(hv.take(k as int + 1)));
        }
        k = k + 1;
    }
    proof {
        assert(hv.take(n as int) =~= hv);
    }
    r
}

/// The HTTP methods of a leaf container: client construction applying
/// every client-scoped header once, URL construction, the two
/// accessors, the two debug accessors, and the typed `get` and `post`
/// operations applying every request-scoped header per call.
pub open spec fn spec_render_http(h: HttpDefV) -> Seq<char> {
    "fn build_client() -> reqwest::Client {\nlet mut headers = reqwest::header::HeaderMap::new();\n"@
        + spec_render_client_headers(h.client_headers)
        + "reqwest::ClientBuilder::new().default_headers(headers).build().expect(\"failed to build a Client\")\n}\nfn build_url() -> String {\n"@
        + spec_render_url_code(h.url) + "}\nfn url(&self) -> &String {\n&self.url\n}\nfn client(&self) -> &reqwest::Client {\n&self.client\n}\npub fn dbg_url(&self) {\nprintln!(\"{}\", self.url());\n}\npub fn dbg_client(&self) {\nprintln!(\"{:#?}\", self.client());\n}\npub async fn get(&self) -> reqwest::Result<"@
        + h.de_type + "> {\nlet value = self.client().get(self.url())"@
        + spec_render_request_headers(h.request_headers) + ".send().await?.json::<"@ + h.de_type
        + ">().await?;\nOk(value)\n}\npub async fn post(&self, json: serde_json::Value) -> reqwest::Result<"@
        + h.de_type + "> {\nlet value = self.client().post(self.url()).json(&json)"@
        + spec_render_request_headers(h.request_headers) + ".send().await?.json::<"@ + h.de_type
        + ">().await?;\nOk(value)\n}\n"@
}

fn render_http(h: &HttpDef) -> (r: String)
    ensures
        r@ == spec_render_http(h@),
{
    let mut r = String::from_str(
        "fn build_client() -> reqwest::Client {\nlet mut headers = reqwest::header::HeaderMap::new();\n",
    );
    let ch = render_client_headers(&h.client_headers);
    r.append(ch.as_str());
    r.append(
        "reqwest::ClientBuilder::new().default_headers(headers).build().expect(\"failed to build a Client\")\n}\nfn build_url() -> String {\n",
    );
    let url_code = render_url_code(h);
    r.append(url_code.as_str());
    r.append(
        "}\nfn url(&self) -> &String {\n&self.url\n}\nfn client(&self) -> &reqwest::Client {\n&self.client\n}\npub fn dbg_url(&self) {\nprintln!(\"{}\", self.url());\n}\npub fn dbg_client(&self) {\nprintln!(\"{:#?}\", self.client());\n}\npub async fn get(&self) -> reqwest::Result<",
    );
    r.append(h.de_type.as_str());
    r.append("> {\nlet value = self.client().get(self.url())");
    let rh = render_request_headers(&h.request_headers);
    r.append(rh.as_str());
    r.append(".send().await?.json::<");
    r.append(h.de_type.as_str());
    r.append(
        ">().await?;\nOk(value)\n}\npub async fn post(&self, json: serde_json::Value) -> reqwest::Result<",
    );
    r.append(h.de_type.as_str());
    r.append("> {\nlet value = self.client().post(self.url()).json(&json)");
    r.append(rh.as_str());
    r.append(".send().await?.json::<");
    r.append(h.de_type.as_str());
    r.append(">().await?;\nOk(value)\n}\n");
    proof {
        assert(r@ =~= spec_render_http(h@));
    }
    r
}

fn render_url_code(h: &HttpDef) -> (r: String)
    ensures
        r@ == spec_render_url_code(h@.url),
{
    let u = &h.url;
    let mut ep = String::new();
    match &u.query {
        Some(q) => {
            ep.append("let url = format!(\"{}{}\", \"");
            ep.append(u.path.as_str());
            ep.append("\", ");
            let qs = render_expr(q);
            ep.append(qs.as_str());
            ep.append(");\n");
        },
        None => {
            ep.append("let url = String::from(\"");
            ep.append(u.path.as_str());
            ep.append("\");\n");
        },
    }
    let mut based = String::new();
    match &u.base {
        Some(b) => {
            based.append("let base = \"");
            based.append(b.as_str());
            based.append("\";\n");
            based.append(ep.as_str());
            based.append("let url = format!(\"{}{}\", base, url);\n");
        },
        None => {
            based.append(ep.as_str());
        },
    }
    match &u.global_query {
        Some(g) => {
            based.append("let url = format!(\"{}{}\", url, ");
            let gs = render_expr(g);
            based.append(gs.as_str());
            based.append(");\n");
        },
        None => {},
    }
    based.append("url\n");
    proof {
        assert(based@ =~= spec_render_url_code(u@));
    }
    based
}

/// The whole rendered definition of one container: the struct (with the
/// transport client and URL on leaves), its constructor initialising
/// every field, and the HTTP methods on leaves.
pub open spec fn spec_render_node(nd: NodeDefV) -> Seq<char> {
    match nd.http {
        Some(h) => "pub struct "@ + nd.struct_name
            + " {\nclient: reqwest::Client,\nurl: String,\n"@ + spec_render_decls(nd.fields)
            + "}\nimpl "@ + nd.struct_name
            + " {\npub fn new() -> Self {\nSelf {\nclient: Self::build_client(),\nurl: Self::build_url(),\n"@
            + spec_render_inits(nd.fields) + "}\n}\n"@ + spec_render_http(h) + "}\n"@,
        None => "pub struct "@ + nd.struct_name + " {\n"@ + spec_render_decls(nd.fields)
            + "}\nimpl "@ + nd.struct_name + " {\npub fn new() -> Self {\nSelf {\n"@
            + spec_render_inits(nd.fields) + "}\n}\n}\n"@,
    }
}

pub(crate) fn render_node(nd: &NodeDef) -> (r: String)
    ensures
        r@ == spec_render_node(nd@),
{
    let decls = render_decls(&nd.fields);
    let inits = render_inits(&nd.fields);
    let mut r = String::from_str("pub struct ");
    r.append(nd.struct_name.as_str());
    match &nd.http {
        Some(h) => {
            r.append(" {\nclient: reqwest::Client,\nurl: String,\n");
            r.append(decls.as_str());
            r.append("}\nimpl ");
            r.append(nd.struct_name.as_str());
            r.append(
                " {\npub fn new() -> Self {\nSelf {\nclient: Self::build_client(),\nurl: Self::build_url(),\n",
            );
            r.append(inits.as_str());
            r.append("}\n}\n");
            let http = render_http(h);
            r.append(http.as_str());
            r.append("}\n");
        },
        None => {
            r.append(" {\n");
            r.append(decls.as_str());
            r.append("}\nimpl ");
            r.append(nd.struct_name.as_str());
            r.append(" {\npub fn new() -> Self {\nSelf {\n");
            r.append(inits.as_str());
            r.append("}\n}\n}\n");
        },
    }
    proof {
        assert(r@ =~= spec_render_node(nd@));
    }
    r
}

/// The specification aggregate a complete builder denotes.
pub open spec fn input_of_fields(f: FieldsV) -> InputV
    recommends
        f.name is Some,
        f.dict is Some,
{
    InputV {
        name: f.name->Some_0,
        dict: f.dict->Some_0,
        base: f.base,
        headers: f.headers,
        query: f.query,
    }
}

/// The rendered artifacts of one specification.
pub open spec fn spec_api(inp: InputV) -> ApiV {
    ApiV {
        root_fields: spec_components(inp).root_fields.map_values(
            |f: FieldDefV| spec_render_field_decl(f),
        ),
        other_nodes: spec_components(inp).other_nodes.map_values(
            |nd: NodeDefV| spec_render_node(nd),
        ),
    }
}

/// The rendered pieces of one specification: one field declaration per
/// root node, and one container definition per dictionary node.
#[derive(Debug)]
pub struct Api {
    pub root_fields: Vec<String>,
    pub other_nodes: Vec<String>,
}

/// Ghost mirror of [`Api`].
#[verifier::ext_equal]
pub struct ApiV {
    pub root_fields: Seq<Seq<char>>,
    pub other_nodes: Seq<Seq<char>>,
}

impl View for Api {
    type V = ApiV;

    open spec fn view(&self) -> ApiV {
        ApiV {
            root_fields: self.root_fields.deep_view(),
            other_nodes: self.other_nodes.deep_view(),
        }
    }
}

impl Api {
    /// Generate and render every artifact of a complete builder.
    pub fn build(builder: ApiBuilder) -> (a: Api)
        requires
            builder@.name is Some,
            builder@.dict is Some,
        ensures
            a@ == spec_api(input_of_fields(builder@)),
    {
        let ghost inpv = input_of_fields(builder@);
        let name = match builder.name {
            Some(n) => n,
            None => unreached(),
        };
        let dict = match builder.dict {
            Some(d) => d,
            None => unreached(),
        };
        let input = Input {
            name,
            dict,
            base: builder.base,
            headers: builder.headers,
            query: builder.query,
        };
        proof {
            assert(input@ =~~= inpv);
        }
        let components = ApiComponents::build(input);
        let ghost rfv = components.root_fields.deep_view();
        let ghost onv = components.other_nodes.deep_view();
        let ghost frd = |f: FieldDefV| spec_render_field_decl(f);
        let ghost frn = |nd: NodeDefV| spec_render_node(nd);
        let mut root_fields: Vec<String> = Vec::new();
        let n1 = components.root_fields.len();
        proof {
            assert(root_fields.deep_view() =~= rfv.take(0).map_values(frd));
        }
        let mut k: usize = 0;
        while k < n1
            invariant
                k <= n1,
                n1 == components.root_fields@.len(),
                rfv == components.root_fields.deep_view(),
                frd == (|f: FieldDefV| spec_render_field_decl(f)),
                root_fields.deep_view() == rfv.take(k as int).map_values(frd),
            decreases n1 - k,
        {
            let line = render_field_decl(&components.root_fields[k]);
            let ghost r0 = root_fields.deep_view();
            root_fields.push(line);
            proof {
                assert(root_fields.deep_view() =~= r0.push(frd(rfv[k as int])));
                assert(rfv.take(k as int + 1).map_values(frd) =~= rfv.take(k as int).map_values(
                    frd,
                ).push(frd(rfv[k as int])));
            }
            k = k + 1;
        }
        proof {
            assert(rfv.take(n1 as int) =~= rfv);
        }
        let mut other_nodes: Vec<String> = Vec::new();
        let n2 = components.other_nodes.len();
        proof {
            assert(other_nodes.deep_view() =~= onv.take(0).map_values(frn));
        }
        let mut k2: usize = 0;
        while k2 < n2
            invariant
                k2 <= n2,
                n2 == components.other_nodes@.len(),
                onv == components.other_nodes.deep_view(),
                frn == (|nd: NodeDefV| spec_render_node(nd)),
                other_nodes.deep_view() == onv.take(k2 as int).map_values(frn),
            decreases n2 - k2,
        {
            let piece = render_node(&components.other_nodes[k2]);
            let ghost o0 = other_nodes.deep_view();
            other_nodes.push(piece);
            proof {
                assert(other_nodes.deep_view() =~= o0.push(frn(onv[k2 as int])));
                assert(onv.take(k2 as int + 1).map_values(frn) =~= onv.take(
                    k2 as int,
                ).map_values(frn).push(frn(onv[k2 as int])));
            }
            k2 = k2 + 1;
        }
        proof {
            assert(onv.take(n2 as int) =~= onv);
        }
        let a = Api { root_fields, other_nodes };
        proof {
            assert(a@ =~~= spec_api(inpv));
        }
        a
    }
}

} // verus!
