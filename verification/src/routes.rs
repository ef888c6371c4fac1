//! The route table the host discovers at load time, and its pretty JSON
//! rendering.

use vstd::prelude::*;
use crate::encode::esc;

verus! {

/// One route binding: path, handler function name, router method and
/// response type, exposed verbatim through discovery.
pub struct RouteDescriptor {
    pub path: String,
    pub function: String,
    pub method_router: String,
    pub response_type: String,
}

/// Mathematical model of a route binding.
pub struct RouteModel {
    pub path: Seq<char>,
    pub function: Seq<char>,
    pub method_router: Seq<char>,
    pub response_type: Seq<char>,
}

impl View for RouteDescriptor {
    type V = RouteModel;

    open spec fn view(&self) -> RouteModel {
        RouteModel {
            path: self.path@,
            function: self.function@,
            method_router: self.method_router@,
            response_type: self.response_type@,
        }
    }
}

/// The fixed route table, in declaration order.
pub open spec fn route_table_model() -> Seq<RouteModel> {
    seq![
        RouteModel {
            path: "/groceries"@,
            function: "groceries"@,
            method_router: "post"@,
            response_type: "html"@,
        },
        RouteModel {
            path: "/products"@,
            function: "products_get"@,
            method_router: "get"@,
            response_type: "json"@,
        },
        RouteModel {
            path: "/products"@,
            function: "products_post"@,
            method_router: "post"@,
            response_type: "json"@,
        },
        RouteModel {
            path: "/about"@,
            function: "about"@,
            method_router: "get"@,
            response_type: "text"@,
        },
    ]
}

/// The exported handler names.
pub open spec fn is_handler_name(f: Seq<char>) -> bool {
    f == "groceries"@ || f == "products_get"@ || f == "products_post"@ || f == "about"@
}

/// Every route of the table names an exported handler.
pub proof fn lemma_routes_name_handlers()
    ensures
        forall|i: int|
            0 <= i < route_table_model().len() ==> is_handler_name(
                #[trigger] route_table_model()[i].function,
            ),
{
    assert forall|i: int|
        0 <= i < route_table_model().len() implies is_handler_name(
        route_table_model()[i].function,
    ) by {
        if i == 0 {
        } else if i == 1 {
        } else if i == 2 {
        } else {
            assert(i == 3);
        }
    }
}

/// Builds the route table afresh.
pub fn route_table() -> (r: Vec<RouteDescriptor>)
    ensures
        r@.map_values(|d: RouteDescriptor| d@) == route_table_model(),
{
    let mut v: Vec<RouteDescriptor> = Vec::new();
    v.push(RouteDescriptor {
        path: String::from_str("/groceries"),
        function: String::from_str("groceries"),
        method_router: String::from_str("post"),
        response_type: String::from_str("html"),
    });
    v.push(RouteDescriptor {
        path: String::from_str("/products"),
        function: String::from_str("products_get"),
        method_router: String::from_str("get"),
        response_type: String::from_str("json"),
    });
    v.push(RouteDescriptor {
        path: String::from_str("/products"),
        function: String::from_str("products_post"),
        method_router: String::from_str("post"),
        response_type: String::from_str("json"),
    });
    v.push(RouteDescriptor {
        path: String::from_str("/about"),
        function: String::from_str("about"),
        method_router: String::from_str("get"),
        response_type: String::from_str("text"),
    });
    proof {
        assert(v@.map_values(|d: RouteDescriptor| d@) =~= route_table_model());
    }
    v
}

/// Pretty JSON object for one route, as an element of a pretty array.
pub open spec fn route_json_pretty(r: RouteModel) -> Seq<char> {
    "  {\n    \"path\": \""@ + esc(r.path) + "\",\n    \"function\": \""@ + esc(r.function)
        + "\",\n    \"method_router\": \""@ + esc(r.method_router)
        + "\",\n    \"response_type\": \""@ + esc(r.response_type) + "\"\n  }"@
}

/// The pretty route objects joined by `,\n`.
pub open spec fn routes_json_pretty_items(s: Seq<RouteModel>) -> Seq<char>
    decreases s.len(),
{
    if s.len() == 0 {
        Seq::empty()
    } else if s.len() == 1 {
        route_json_pretty(s[0])
    } else {
        routes_json_pretty_items(s.drop_last()) + ",\n"@ + route_json_pretty(s.last())
    }
}

/// Pretty JSON array of routes; empty tables still yield `[]`.
pub open spec fn routes_json_pretty(s: Seq<RouteModel>) -> Seq<char> {
    if s.len() == 0 {
        "[]"@
    } else {
        "[\n"@ + routes_json_pretty_items(s) + "\n]"@
    }
}

/// Appends the pretty JSON object for one route.
fn push_route_json_pretty(out: &mut Vec<char>, r: &RouteDescriptor)
    ensures
        final(out)@ == old(out)@ + route_json_pretty(r@),
{
    crate::chars::push_str(out, "  {\n    \"path\": \"");
    crate::encode::push_escaped_str(out, r.path.as_str());
    crate::chars::push_str(out, "\",\n    \"function\": \"");
    crate::encode::push_escaped_str(out, r.function.as_str());
    crate::chars::push_str(out, "\",\n    \"method_router\": \"");
    crate::encode::push_escaped_str(out, r.method_router.as_str());
    crate::chars::push_str(out, "\",\n    \"response_type\": \"");
    crate::encode::push_escaped_str(out, r.response_type.as_str());
    crate::chars::push_str(out, "\"\n  }");
    proof {
        assert(out@ =~= old(out)@ + route_json_pretty(r@));
    }
}

/// Builds the pretty JSON array for a route table.
pub fn routes_json_exec(list: &Vec<RouteDescriptor>) -> (r: Vec<char>)
    ensures
        r@ == routes_json_pretty(list@.map_values(|d: RouteDescriptor| d@)),
{
    let ghost m = list@.map_values(|d: RouteDescriptor| d@);
    let mut out: Vec<char> = Vec::new();
    let n: usize = list.len();
    if n == 0 {
        crate::chars::push_str(&mut out, "[]");
        proof {
            assert(out@ =~= routes_json_pretty(m));
        }
        return out;
    }
    crate::chars::push_str(&mut out, "[\n");
    let mut i: usize = 0;
    proof {
        assert(out@ =~= "[\n"@ + routes_json_pretty_items(m.take(0)));
    }
    while i < n
        invariant
            n == list@.len(),
            m == list@.map_values(|d: RouteDescriptor| d@),
            i <= n,
            out@ == "[\n"@ + routes_json_pretty_items(m.take(i as int)),
        decreases n - i,
    {
        if i > 0 {
            crate::chars::push_str(&mut out, ",\n");
        }
        push_route_json_pretty(&mut out, &list[i]);
        proof {
            assert(m.take(i + 1).drop_last() =~= m.take(i as int));
            assert(m.take(i + 1).last() == m[i as int]);
            assert(m[i as int] == list@[i as int]@);
            assert(out@ =~= "[\n"@ + routes_json_pretty_items(m.take(i + 1)));
        }
        i = i + 1;
    }
    crate::chars::push_str(&mut out, "\n]");
    proof {
        assert(m.take(n as int) =~= m);
        assert(out@ =~= routes_json_pretty(m));
    }
    out
}

} // verus!
