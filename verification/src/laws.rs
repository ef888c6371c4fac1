//! The general laws of the handlers, proved once over every input.

use vstd::prelude::*;
use crate::order::{le_key, sort_by_key, sorted_by_key, OrderKey};
use crate::product::seed_model;
use crate::query::QueryModel;
use crate::{
    effective_count, order_key_model, posted_list, products_post_payload, selected_products,
};
use crate::headers::header_get;
use crate::product::ProductModel;

verus! {

/// `products_get` never answers more items than the seed list holds, and
/// every answered item is one of the seed products.
pub proof fn lemma_get_within_seed(qm: QueryModel)
    ensures
        selected_products(qm).len() <= seed_model().len(),
        forall|i: int|
            0 <= i < selected_products(qm).len() ==> seed_model().contains(
                #[trigger] selected_products(qm)[i],
            ),
{
    let k = order_key_model(qm.orderby);
    let sorted = sort_by_key(k, seed_model());
    crate::order::lemma_sort_by_key_ensures(k, seed_model());
    let sel = selected_products(qm);
    assert forall|i: int| 0 <= i < sel.len() implies seed_model().contains(sel[i]) by {
        assert(sel[i] == sorted[i]);
        assert(sorted.contains(sorted[i]));
        crate::order::lemma_sort_by_key_contains(k, seed_model(), sorted[i]);
    }
}

/// With a `limit` between zero and the seed count, `products_get` answers
/// exactly `limit` items.
pub proof fn lemma_get_exact_limit(qm: QueryModel)
    requires
        qm.limit matches Some(l) && 0 <= l <= seed_model().len(),
    ensures
        selected_products(qm).len() == qm.limit.unwrap() as int,
{
    let k = order_key_model(qm.orderby);
    crate::order::lemma_sort_by_key_ensures(k, seed_model());
}

/// The items `products_get` answers are sorted ascending under the key
/// its `orderby` parameter selects.
pub proof fn lemma_get_sorted(qm: QueryModel)
    ensures
        sorted_by_key(order_key_model(qm.orderby), selected_products(qm)),
{
    let k = order_key_model(qm.orderby);
    let sorted = sort_by_key(k, seed_model());
    crate::order::lemma_sort_by_key_ensures(k, seed_model());
    let sel = selected_products(qm);
    assert forall|i: int, j: int| 0 <= i < j < sel.len() implies le_key(k, sel[i], sel[j]) by {
        assert(sel[i] == sorted[i]);
        assert(sel[j] == sorted[j]);
    }
}

/// An unknown `orderby` value falls back to the id order.
pub proof fn lemma_unknown_orderby_is_id(ob: Seq<char>)
    requires
        ob != "name"@,
        ob != "price"@,
    ensures
        order_key_model(Option::Some(ob)) == OrderKey::Id,
{
}

/// With a wrong or absent content type, `products_post` answers the same
/// error payload whatever the body holds: the body is not decoded.
pub proof fn lemma_post_ignores_body_on_bad_content_type(
    h: Seq<(Seq<char>, Seq<char>)>,
    b1: Seq<char>,
    b2: Seq<char>,
)
    requires
        match header_get(h, "content-type"@) {
            Option::None => true,
            Option::Some(v) => v != "application/json"@,
        },
    ensures
        products_post_payload(h, b1) == products_post_payload(h, b2),
{
}

/// A successful `products_post` answers the seed list plus one item: the
/// decoded product under the next id, which on the six-item seed list is
/// the seventh element with id 6.
pub proof fn lemma_post_appends_with_next_id(pm: ProductModel)
    ensures
        posted_list(pm).len() == seed_model().len() + 1,
        posted_list(pm).len() == 7,
        posted_list(pm).last().id == Option::Some(6u32),
        posted_list(pm).last().name == pm.name,
        posted_list(pm).last().image_url == pm.image_url,
        posted_list(pm).last().price_cents == pm.price_cents,
        posted_list(pm).take(seed_model().len() as int) == seed_model(),
{
    assert(posted_list(pm).take(seed_model().len() as int) =~= seed_model());
}

/// `effective_count` is the identity on `[0, len]`, and clamps everything
/// else into that range.
pub proof fn lemma_effective_count_bounds(limit: Option<i32>, len: int)
    requires
        len >= 0,
    ensures
        0 <= effective_count(limit, len) <= len,
{
}

} // verus!
