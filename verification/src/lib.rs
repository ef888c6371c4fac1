//! Verified core of a route-handler plugin.
//!
//! The crate exposes a route table for discovery (`routes`), one handler
//! per route (`products_get`, `products_post`, `groceries`, `about`) and a
//! release entry point (`free`) for the buffers the handlers hand out.
//! Handlers receive the caller's header pairs and body as plain values; an
//! absent handle is `None`, and every handler then yields the sentinel
//! result `None` without looking further. All other failures come back as
//! structured payloads, never as a panic.

use vstd::prelude::*;

pub mod chars;
pub mod encode;
pub mod groceries;
pub mod headers;
pub mod jsonparse;
pub mod laws;
pub mod order;
pub mod product;
pub mod query;
pub mod routes;

use crate::encode::{error_payload, products_json, products_json_pretty};
use crate::groceries::{groceries_html, Grocery, GroceryModel};
use crate::headers::{header_get, headers_model};
use crate::jsonparse::parse_product;
use crate::order::{sort_by_key, OrderKey};
use crate::product::{seed_model, Product, ProductModel};
use crate::query::{parse_query, QueryModel};

verus! {

/// Sequence of models of a sequence of products.
pub open spec fn product_models(s: Seq<Product>) -> Seq<ProductModel> {
    s.map_values(|p: Product| p@)
}

/// The sort key a given `orderby` parameter selects; unknown values fall
/// back to the id order.
pub open spec fn order_key_model(ob: Option<Seq<char>>) -> OrderKey {
    match ob {
        Option::None => OrderKey::Id,
        Option::Some(s) => if s == "name"@ {
            OrderKey::Name
        } else if s == "price"@ {
            OrderKey::Price
        } else {
            OrderKey::Id
        },
    }
}

/// How many items a `limit` parameter yields from a list of length `len`:
/// absent means 4, and the value is clamped to `[0, len]`, so a negative
/// limit yields nothing.
pub open spec fn effective_count(limit: Option<i32>, len: int) -> int {
    let l: int = match limit {
        Option::None => 4,
        Option::Some(v) => v as int,
    };
    if l < 0 {
        0
    } else if l > len {
        len
    } else {
        l
    }
}

/// The items `products_get` returns for a parameter set: the seed list
/// sorted under the selected key, cut to the effective count.
pub open spec fn selected_products(qm: QueryModel) -> Seq<ProductModel> {
    let sorted = sort_by_key(order_key_model(qm.orderby), seed_model());
    sorted.take(effective_count(qm.limit, sorted.len() as int))
}

/// The body `products_get` answers for a set of headers.
pub open spec fn products_get_payload(h: Seq<(Seq<char>, Seq<char>)>) -> Seq<char> {
    let q = match header_get(h, "x-raw-query"@) {
        Option::None => Seq::<char>::empty(),
        Option::Some(v) => v,
    };
    match parse_query(q) {
        Option::None => error_payload("Malformed query string"@),
        Option::Some(qm) => products_json(selected_products(qm)),
    }
}

/// The list `products_post` answers on a successful decode: the seed list
/// plus the decoded product, its id set to the prior count.
pub open spec fn posted_list(pm: ProductModel) -> Seq<ProductModel> {
    seed_model().push(
        ProductModel {
            id: Option::Some(seed_model().len() as u32),
            name: pm.name,
            image_url: pm.image_url,
            price_cents: pm.price_cents,
        },
    )
}

/// The body `products_post` answers for a set of headers and a body.
pub open spec fn products_post_payload(h: Seq<(Seq<char>, Seq<char>)>, body: Seq<char>) -> Seq<
    char,
> {
    match header_get(h, "content-type"@) {
        Option::None => error_payload("No content type"@),
        Option::Some(v) => if v != "application/json"@ {
            error_payload("Invalid content type: "@ + v)
        } else {
            match parse_product(body) {
                Option::None => error_payload("Malformed product"@),
                Option::Some(pm) => products_json_pretty(posted_list(pm)),
            }
        },
    }
}

/// Model of an optional fetched grocery list.
pub open spec fn fetch_model(f: Option<&Vec<Grocery>>) -> Option<Seq<GroceryModel>> {
    match f {
        Option::None => Option::None,
        Option::Some(v) => Option::Some(crate::groceries::grocery_models(v@)),
    }
}

/// The body `groceries` answers: the rendered fragment, or an error
/// payload when the fetch did not deliver.
pub open spec fn groceries_payload(fetch: Option<Seq<GroceryModel>>) -> Seq<char> {
    match fetch {
        Option::None => error_payload("The grocery list could not be fetched"@),
        Option::Some(items) => groceries_html(items),
    }
}

/// The plain-text metadata of the module.
pub open spec fn about_text() -> Seq<char> {
    "Name: arp-skeleton\nVersion: 0.1.0\nauthors = \"Henrique Dias <mrhdias@gmail.com>\"\nDescription: Shared library skeleton\nLicense: MIT"@
}

/// The sort key a parameter set selects, executable.
pub fn order_key_exec(ob: &Option<Vec<char>>) -> (r: OrderKey)
    ensures
        r == order_key_model(
            match *ob {
                Option::None => Option::<Seq<char>>::None,
                Option::Some(v) => Option::Some(v@),
            },
        ),
{
    match ob {
        Option::None => OrderKey::Id,
        Option::Some(v) => {
            if crate::chars::eq_str(v, "name") {
                OrderKey::Name
            } else if crate::chars::eq_str(v, "price") {
                OrderKey::Price
            } else {
                OrderKey::Id
            }
        },
    }
}

/// Lists products: sorts the seed list by the `orderby` query parameter
/// and returns the first `limit` items as compact JSON. A missing header
/// handle or body is the caller's contract violation and yields the
/// sentinel; a malformed query yields an error payload.
pub fn products_get(headers: Option<&Vec<(String, String)>>, body: Option<&String>) -> (r: Option<
    String,
>)
    ensures
        r is Some <==> (headers is Some && body is Some),
        (headers is Some && body is Some) ==> r.unwrap()@ == products_get_payload(
            headers_model(headers.unwrap()@),
        ),
{
    let h = match headers {
        Option::None => {
            return None;
        },
        Option::Some(h) => h,
    };
    if body.is_none() {
        return None;
    }
    let q: String = match crate::headers::header_get_exec(h, "x-raw-query") {
        Option::Some(v) => v,
        Option::None => String::new(),
    };
    let qchars = crate::chars::string_chars(q.as_str());
    match crate::query::parse_query_exec(&qchars) {
        Option::None => {
            let out = crate::encode::error_payload_exec("Malformed query string");
            Some(crate::chars::chars_string(&out))
        },
        Option::Some(params) => {
            let k = order_key_exec(&params.orderby);
            let seed = crate::product::seed_products();
            let mut sorted = crate::order::sort_products(k, seed);
            let n: usize = sorted.len();
            let l: i32 = match params.limit {
                Option::None => 4,
                Option::Some(v) => v,
            };
            let cnt: usize = if l < 0 {
                0
            } else if (l as usize) > n {
                n
            } else {
                l as usize
            };
            sorted.truncate(cnt);
            proof {
                assert(product_models(sorted@) =~= sort_by_key(
                    order_key_model(params@.orderby),
                    seed_model(),
                ).take(cnt as int));
            }
            let out = crate::encode::products_json_exec(&sorted);
            Some(crate::chars::chars_string(&out))
        },
    }
}

/// Adds one product: requires `content-type: application/json`, decodes
/// the body as a product, appends it to the seed list with the next id,
/// and returns the whole list as pretty JSON. Validation failures come
/// back as error payloads.
pub fn products_post(headers: Option<&Vec<(String, String)>>, body: Option<&String>) -> (r: Option<
    String,
>)
    ensures
        r is Some <==> (headers is Some && body is Some),
        (headers is Some && body is Some) ==> r.unwrap()@ == products_post_payload(
            headers_model(headers.unwrap()@),
            body.unwrap()@,
        ),
{
    let h = match headers {
        Option::None => {
            return None;
        },
        Option::Some(h) => h,
    };
    let b = match body {
        Option::None => {
            return None;
        },
        Option::Some(b) => b,
    };
    match crate::headers::header_get_exec(h, "content-type") {
        Option::None => {
            let out = crate::encode::error_payload_exec("No content type");
            Some(crate::chars::chars_string(&out))
        },
        Option::Some(v) => {
            let vc = crate::chars::string_chars(v.as_str());
            if !crate::chars::eq_str(&vc, "application/json") {
                let mut msg: Vec<char> = Vec::new();
                crate::chars::push_str(&mut msg, "Invalid content type: ");
                crate::chars::push_chars(&mut msg, &vc);
                let out = crate::encode::error_payload_chars(&msg);
                proof {
                    assert(msg@ =~= "Invalid content type: "@ + v@);
                }
                return Some(crate::chars::chars_string(&out));
            }
            let bchars = crate::chars::string_chars(b.as_str());
            match crate::jsonparse::parse_product_exec(&bchars) {
                Option::None => {
                    let out = crate::encode::error_payload_exec("Malformed product");
                    Some(crate::chars::chars_string(&out))
                },
                Option::Some(p) => {
                    let ghost pm = p@;
                    let mut list = crate::product::seed_products();
                    let next_id: u32 = list.len() as u32;
                    let added = Product {
                        id: Some(next_id),
                        name: p.name,
                        image_url: p.image_url,
                        price_cents: p.price_cents,
                    };
                    list.push(added);
                    proof {
                        assert(product_models(list@) =~= posted_list(pm));
                    }
                    let out = crate::encode::products_json_pretty_exec(&list);
                    Some(crate::chars::chars_string(&out))
                },
            }
        },
    }
}

/// Renders the fetched grocery list as an HTML fragment. The fetch itself
/// is the host shell's work; a failed fetch (`fetched` absent) becomes an
/// error payload rather than an abort.
pub fn groceries(
    headers: Option<&Vec<(String, String)>>,
    body: Option<&String>,
    fetched: Option<&Vec<Grocery>>,
) -> (r: Option<String>)
    ensures
        r is Some <==> (headers is Some && body is Some),
        (headers is Some && body is Some) ==> r.unwrap()@ == groceries_payload(
            fetch_model(fetched),
        ),
{
    if headers.is_none() || body.is_none() {
        return None;
    }
    match fetched {
        Option::None => {
            let out = crate::encode::error_payload_exec("The grocery list could not be fetched");
            Some(crate::chars::chars_string(&out))
        },
        Option::Some(items) => {
            let out = crate::groceries::groceries_html_exec(items);
            Some(crate::chars::chars_string(&out))
        },
    }
}

/// Reports the module's metadata as plain text.
pub fn about(headers: Option<&Vec<(String, String)>>, body: Option<&String>) -> (r: Option<String>)
    ensures
        r is Some <==> (headers is Some && body is Some),
        (headers is Some && body is Some) ==> r.unwrap()@ == about_text(),
{
    if headers.is_none() || body.is_none() {
        return None;
    }
    Some(
        String::from_str(
            "Name: arp-skeleton\nVersion: 0.1.0\nauthors = \"Henrique Dias <mrhdias@gmail.com>\"\nDescription: Shared library skeleton\nLicense: MIT",
        ),
    )
}

/// The discovery endpoint: the route table as pretty JSON, in declaration
/// order; an empty table would still yield `[]`.
pub fn routes() -> (r: String)
    ensures
        r@ == crate::routes::routes_json_pretty(crate::routes::route_table_model()),
{
    let t = crate::routes::route_table();
    let out = crate::routes::routes_json_exec(&t);
    crate::chars::chars_string(&out)
}

/// Releases a buffer a handler handed out. Consuming the owned value is
/// the release; an absent handle is a no-op, and a buffer cannot be
/// released twice because the value moves in.
pub fn free(buffer: Option<String>) {
    let _ = buffer;
}

} // verus!
