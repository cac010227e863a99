//! The builder-flavoured front end of the compiler: the same field
//! grammar as [`crate::input`], with short aliases for every field name,
//! and the final assembly of the generated source text.

use vstd::prelude::*;
use vstd::string::*;

use crate::artifact::NodeDefV;
use crate::common::{Expr, ExprV, ParseError, Token, TokenV};
use crate::dict::Dict;
use crate::director::{
    input_of_fields, render_decls, render_inits, render_node, spec_render_decls,
    spec_render_inits, spec_render_node,
};
use crate::headers::Headers;
use crate::input::{empty_fields, parse_fields, spec_parse_fields, FieldsV, Input, InputV};
use crate::tokens::{spec_components, ApiComponents};

verus! {

/// The parsed fields of one invocation, `name` and `dict` guaranteed
/// present by [`ApiBuilder::parse`].
///
/// Besides the plain field names this front end accepts the short
/// aliases `N`, `B`, `D`, `head`/`hdrs`/`H` and `Q`.
#[derive(Debug)]
pub struct ApiBuilder {
    pub name: Option<String>,
    pub dict: Option<Dict>,
    pub base: Option<String>,
    pub headers: Option<Headers>,
    pub query: Option<Expr>,
}

impl View for ApiBuilder {
    type V = FieldsV;

    open spec fn view(&self) -> FieldsV {
        FieldsV {
            name: self.name.deep_view(),
            dict: self.dict.deep_view(),
            base: self.base.deep_view(),
            headers: self.headers.deep_view(),
            query: self.query.deep_view(),
        }
    }
}

/// What parsing a whole invocation with aliases allowed yields: the
/// parsed fields when `name` and `dict` are both present, the missing
/// mandatory field otherwise, reported before anything is generated.
pub open spec fn spec_parse_builder(t: Seq<TokenV>) -> Result<FieldsV, ParseError> {
    match spec_parse_fields(t, 0, empty_fields(), true) {
        Err(e) => Err(e),
        Ok((acc, j)) => if acc.name is None {
            Err(ParseError::MissingName)
        } else if acc.dict is None {
            Err(ParseError::MissingDict)
        } else {
            Ok(acc)
        },
    }
}

/// The rendered definitions of every dictionary node, concatenated in
/// dictionary order.
pub open spec fn spec_concat_nodes(nds: Seq<NodeDefV>) -> Seq<char>
    decreases nds.len(),
{
    if nds.len() == 0 {
        Seq::empty()
    } else {
        spec_concat_nodes(nds.drop_last()) + spec_render_node(nds.last())
    }
}

/// The complete generated source text of one specification: the
/// top-level container named after the api, with one field per root
/// node and a constructor initialising each, followed by the definition
/// of every dictionary node.
pub open spec fn spec_render_program(inp: InputV) -> Seq<char> {
    let c = spec_components(inp);
    "pub struct "@ + inp.name + " {\n"@ + spec_render_decls(c.root_fields) + "}\nimpl "@
        + inp.name + " {\npub fn new() -> Self {\nSelf {\n"@ + spec_render_inits(c.root_fields)
        + "}\n}\n}\n"@ + spec_concat_nodes(c.other_nodes)
}

impl ApiBuilder {
    /// Parse one whole invocation, with aliases allowed.  `name` and
    /// `dict` are mandatory; their absence is reported before any
    /// artifact is produced.
    pub fn parse(toks: &Vec<Token>) -> (r: Result<ApiBuilder, ParseError>)
        ensures
            r is Ok == spec_parse_builder(toks.deep_view()) is Ok,
            r matches Ok(b) ==> spec_parse_builder(toks.deep_view()) == Ok::<FieldsV, ParseError>(
                b@,
            ) && b@.name is Some && b@.dict is Some,
            r matches Err(e) ==> spec_parse_builder(toks.deep_view()) == Err::<
                FieldsV,
                ParseError,
            >(e),
    {
        match parse_fields(toks, true) {
            Err(e) => Err(e),
            Ok((name, dict, base, headers, query)) => {
                if name.is_none() {
                    return Err(ParseError::MissingName);
                }
                if dict.is_none() {
                    return Err(ParseError::MissingDict);
                }
                Ok(ApiBuilder { name, dict, base, headers, query })
            },
        }
    }

    /// Generate the complete source text of this specification: the
    /// top-level container registering every root node, then every
    /// node's container definition, leaves with their HTTP surface.
    pub fn build(self) -> (out: String)
        requires
            self@.name is Some,
            self@.dict is Some,
        ensures
            out@ == spec_render_program(input_of_fields(self@)),
    {
        let ghost inpv = input_of_fields(self@);
        let name = match self.name {
            Some(n) => n,
            None => unreached(),
        };
        let dict = match self.dict {
            Some(d) => d,
            None => unreached(),
        };
        let api_name = name.clone();
        let input = Input {
            name,
            dict,
            base: self.base,
            headers: self.headers,
            query: self.query,
        };
        proof {
            assert(input@ =~~= inpv);
        }
        let c = ApiComponents::build(input);
        let ghost onv = c.other_nodes.deep_view();
        let mut out = String::from_str("pub struct ");
        out.append(api_name.as_str());
        out.append(" {\n");
        let decls = render_decls(&c.root_fields);
        out.append(decls.as_str());
        out.append("}\nimpl ");
        out.append(api_name.as_str());
        out.append(" {\npub fn new() -> Self {\nSelf {\n");
        let inits = render_inits(&c.root_fields);
        out.append(inits.as_str());
        out.append("}\n}\n}\n");
        let ghost head = out@;
        proof {
            assert(onv.take(0) =~= Seq::<NodeDefV>::empty());
            assert(out@ =~= head + spec_concat_nodes(onv.take(0)));
        }
        let n = c.other_nodes.len();
        let mut k: usize = 0;
        while k < n
            invariant
                k <= n,
                n == c.other_nodes@.len(),
                onv == c.other_nodes.deep_view(),
                out@ == head + spec_concat_nodes(onv.take(k as int)),
            decreases n - k,
        {
            let piece = render_node(&c.other_nodes[k]);
            out.append(piece.as_str());
            proof {
                assert(onv.take(k as int + 1).drop_last() =~= onv.take(k as int));
                assert(onv.take(k as int + 1).last() == onv[k as int]);
                assert(out@ =~= head + spec_concat_nodes(onv.take(k as int + 1)));
            }
            k = k + 1;
        }
        proof {
            assert(onv.take(n as int) =~= onv);
            assert(out@ =~= spec_render_program(inpv));
        }
        out
    }
}

} // verus!
