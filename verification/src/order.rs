//! Product ordering: the three sort keys, a stable insertion sort, and the
//! lemmas that the sort is a sorted permutation of its input.

use vstd::prelude::*;
use vstd::multiset::Multiset;
use crate::product::{Product, ProductModel};

verus! {

/// The field `products_get` sorts by.
#[derive(Clone, Copy)]
pub enum OrderKey {
    Id,
    Name,
    Price,
}

/// Code-point lexicographic order on character sequences; this is also the
/// byte order of the UTF-8 encodings.
pub open spec fn lex_le(a: Seq<char>, b: Seq<char>) -> bool
    decreases a.len(),
{
    if a.len() == 0 {
        true
    } else if b.len() == 0 {
        false
    } else if (a[0] as u32) < (b[0] as u32) {
        true
    } else if (a[0] as u32) == (b[0] as u32) {
        lex_le(a.skip(1), b.skip(1))
    } else {
        false
    }
}

/// `None` sorts before every `Some`.
pub open spec fn opt_le(a: Option<u32>, b: Option<u32>) -> bool {
    match (a, b) {
        (Option::None, _) => true,
        (Option::Some(_), Option::None) => false,
        (Option::Some(x), Option::Some(y)) => x <= y,
    }
}

/// The ordering of products under one sort key.
pub open spec fn le_key(k: OrderKey, a: ProductModel, b: ProductModel) -> bool {
    match k {
        OrderKey::Id => opt_le(a.id, b.id),
        OrderKey::Name => lex_le(a.name, b.name),
        OrderKey::Price => a.price_cents <= b.price_cents,
    }
}

/// Non-strict sortedness under one sort key.
pub open spec fn sorted_by_key(k: OrderKey, s: Seq<ProductModel>) -> bool {
    forall|i: int, j: int| 0 <= i < j < s.len() ==> le_key(k, s[i], s[j])
}

pub proof fn lemma_lex_le_total(a: Seq<char>, b: Seq<char>)
    ensures
        lex_le(a, b) || lex_le(b, a),
    decreases a.len(),
{
    if a.len() == 0 || b.len() == 0 {
    } else if (a[0] as u32) == (b[0] as u32) {
        lemma_lex_le_total(a.skip(1), b.skip(1));
    }
}

pub proof fn lemma_lex_le_trans(a: Seq<char>, b: Seq<char>, c: Seq<char>)
    requires
        lex_le(a, b),
        lex_le(b, c),
    ensures
        lex_le(a, c),
    decreases a.len(),
{
    if a.len() == 0 {
    } else if (a[0] as u32) == (b[0] as u32) && (b[0] as u32) == (c[0] as u32) {
        lemma_lex_le_trans(a.skip(1), b.skip(1), c.skip(1));
    }
}

pub proof fn lemma_le_key_total(k: OrderKey, a: ProductModel, b: ProductModel)
    ensures
        le_key(k, a, b) || le_key(k, b, a),
{
    if k is Name {
        lemma_lex_le_total(a.name, b.name);
    }
}

pub proof fn lemma_le_key_trans(k: OrderKey, a: ProductModel, b: ProductModel, c: ProductModel)
    requires
        le_key(k, a, b),
        le_key(k, b, c),
    ensures
        le_key(k, a, c),
{
    if k is Name {
        lemma_lex_le_trans(a.name, b.name, c.name);
    }
}

/// Inserts `p` into `s` after every element that is `le_key`-below or equal
/// to it; on a sorted sequence this keeps it sorted and is stable.
pub open spec fn insert_by(k: OrderKey, s: Seq<ProductModel>, p: ProductModel) -> Seq<ProductModel>
    decreases s.len(),
{
    if s.len() == 0 {
        seq![p]
    } else if le_key(k, s[0], p) {
        seq![s[0]] + insert_by(k, s.skip(1), p)
    } else {
        seq![p] + s
    }
}

/// Stable insertion sort of a model sequence under one sort key.
pub open spec fn sort_by_key(k: OrderKey, s: Seq<ProductModel>) -> Seq<ProductModel>
    decreases s.len(),
{
    if s.len() == 0 {
        Seq::empty()
    } else {
        insert_by(k, sort_by_key(k, s.drop_last()), s.last())
    }
}

pub proof fn lemma_insert_by_multiset(k: OrderKey, s: Seq<ProductModel>, p: ProductModel)
    ensures
        insert_by(k, s, p).to_multiset() =~= s.to_multiset().insert(p),
        insert_by(k, s, p).len() == s.len() + 1,
    decreases s.len(),
{
    broadcast use vstd::seq_lib::group_to_multiset_ensures;

    if s.len() == 0 {
        assert(seq![p] =~= Seq::empty().push(p));
        assert(s.to_multiset() =~= Multiset::empty()) by {
            assert forall|x: ProductModel| s.to_multiset().count(x) == 0 by {
                assert(!s.contains(x));
            }
        }
    } else if le_key(k, s[0], p) {
        lemma_insert_by_multiset(k, s.skip(1), p);
        vstd::seq_lib::lemma_multiset_commutative(seq![s[0]], insert_by(k, s.skip(1), p));
        assert(s =~= seq![s[0]] + s.skip(1));
        vstd::seq_lib::lemma_multiset_commutative(seq![s[0]], s.skip(1));
        assert(insert_by(k, s, p).to_multiset() =~= s.to_multiset().insert(p));
    } else {
        vstd::seq_lib::lemma_multiset_commutative(seq![p], s);
        assert(seq![p] =~= Seq::empty().push(p));
        assert(insert_by(k, s, p).to_multiset() =~= s.to_multiset().insert(p));
    }
}

/// Every element of `insert_by(k, s, p)` is `p` or an element of `s`.
pub proof fn lemma_insert_by_elements(k: OrderKey, s: Seq<ProductModel>, p: ProductModel, i: int)
    requires
        0 <= i < insert_by(k, s, p).len(),
    ensures
        insert_by(k, s, p)[i] == p || s.contains(insert_by(k, s, p)[i]),
    decreases s.len(),
{
    if s.len() == 0 {
    } else if le_key(k, s[0], p) {
        if i == 0 {
            assert(s.contains(s[0]));
        } else {
            lemma_insert_by_multiset(k, s.skip(1), p);
            lemma_insert_by_elements(k, s.skip(1), p, i - 1);
            if insert_by(k, s, p)[i] != p {
                let x = insert_by(k, s.skip(1), p)[i - 1];
                let j = choose|j: int| 0 <= j < s.skip(1).len() && s.skip(1)[j] == x;
                assert(s[j + 1] == x);
            }
        }
    } else {
        if i > 0 {
            assert(s.contains(s[i - 1]));
        }
    }
}

pub proof fn lemma_insert_by_sorted(k: OrderKey, s: Seq<ProductModel>, p: ProductModel)
    requires
        sorted_by_key(k, s),
    ensures
        sorted_by_key(k, insert_by(k, s, p)),
    decreases s.len(),
{
    if s.len() == 0 {
    } else if le_key(k, s[0], p) {
        assert(sorted_by_key(k, s.skip(1)));
        lemma_insert_by_sorted(k, s.skip(1), p);
        lemma_insert_by_multiset(k, s.skip(1), p);
        let t = insert_by(k, s, p);
        assert forall|i: int, j: int| 0 <= i < j < t.len() implies le_key(k, t[i], t[j]) by {
            if i == 0 {
                lemma_insert_by_elements(k, s.skip(1), p, j - 1);
                let x = t[j];
                if x == p {
                } else {
                    let l = choose|l: int| 0 <= l < s.skip(1).len() && s.skip(1)[l] == x;
                    assert(s[l + 1] == x);
                    assert(le_key(k, s[0], s[l + 1]));
                }
            } else {
                assert(t[i] == insert_by(k, s.skip(1), p)[i - 1]);
                assert(t[j] == insert_by(k, s.skip(1), p)[j - 1]);
            }
        }
    } else {
        lemma_le_key_total(k, s[0], p);
        let t = insert_by(k, s, p);
        assert forall|i: int, j: int| 0 <= i < j < t.len() implies le_key(k, t[i], t[j]) by {
            if i == 0 {
                if j > 0 {
                    if j == 1 {
                        assert(le_key(k, p, s[0]));
                    } else {
                        lemma_le_key_trans(k, p, s[0], s[j - 1]);
                    }
                }
            }
        }
    }
}

pub proof fn lemma_sort_by_key_ensures(k: OrderKey, s: Seq<ProductModel>)
    ensures
        sorted_by_key(k, sort_by_key(k, s)),
        sort_by_key(k, s).to_multiset() =~= s.to_multiset(),
        sort_by_key(k, s).len() == s.len(),
    decreases s.len(),
{
    broadcast use vstd::seq_lib::group_to_multiset_ensures;

    if s.len() == 0 {
    } else {
        lemma_sort_by_key_ensures(k, s.drop_last());
        lemma_insert_by_sorted(k, sort_by_key(k, s.drop_last()), s.last());
        lemma_insert_by_multiset(k, sort_by_key(k, s.drop_last()), s.last());
        assert(s =~= s.drop_last().push(s.last()));
        assert(s.drop_last().push(s.last()).to_multiset() =~= s.drop_last().to_multiset().insert(
            s.last(),
        ));
    }
}

/// Everything the sorted sequence holds was already in the input.
pub proof fn lemma_sort_by_key_contains(k: OrderKey, s: Seq<ProductModel>, x: ProductModel)
    ensures
        sort_by_key(k, s).contains(x) <==> s.contains(x),
{
    broadcast use vstd::seq_lib::group_to_multiset_ensures;

    lemma_sort_by_key_ensures(k, s);
    assert(sort_by_key(k, s).to_multiset().count(x) == s.to_multiset().count(x));
    assert(s.contains(x) <==> s.to_multiset().count(x) > 0);
    assert(sort_by_key(k, s).contains(x) <==> sort_by_key(k, s).to_multiset().count(x) > 0);
}

/// Code-point lexicographic comparison, executable.
pub fn lex_le_exec(a: &str, b: &str) -> (r: bool)
    ensures
        r == lex_le(a@, b@),
{
    let na: usize = a.unicode_len();
    let nb: usize = b.unicode_len();
    let mut i: usize = 0;
    proof {
        assert(a@.skip(0) =~= a@);
        assert(b@.skip(0) =~= b@);
    }
    while i < na && i < nb
        invariant
            na == a@.len(),
            nb == b@.len(),
            i <= na,
            i <= nb,
            lex_le(a@, b@) == lex_le(a@.skip(i as int), b@.skip(i as int)),
        decreases na - i,
    {
        let ca = a.get_char(i);
        let cb = b.get_char(i);
        proof {
            assert(a@.skip(i as int)[0] == a@[i as int]);
            assert(b@.skip(i as int)[0] == b@[i as int]);
            assert(a@.skip(i as int).skip(1) =~= a@.skip(i as int + 1));
            assert(b@.skip(i as int).skip(1) =~= b@.skip(i as int + 1));
        }
        if (ca as u32) < (cb as u32) {
            return true;
        }
        if (ca as u32) != (cb as u32) {
            return false;
        }
        i = i + 1;
    }
    proof {
        if i == na {
            assert(a@.skip(i as int).len() == 0);
        } else {
            assert(b@.skip(i as int).len() == 0);
            assert(a@.skip(i as int).len() > 0);
        }
    }
    i == na
}

/// Comparison of two products under one sort key, executable.
pub fn le_key_exec(k: OrderKey, a: &Product, b: &Product) -> (r: bool)
    ensures
        r == le_key(k, a@, b@),
{
    match k {
        OrderKey::Id => {
            match (a.id, b.id) {
                (Option::None, _) => true,
                (Option::Some(_), Option::None) => false,
                (Option::Some(x), Option::Some(y)) => x <= y,
            }
        },
        OrderKey::Name => lex_le_exec(a.name.as_str(), b.name.as_str()),
        OrderKey::Price => a.price_cents <= b.price_cents,
    }
}

/// Inserts one product into an already sorted vector, keeping the order of
/// `insert_by`.
pub fn insert_product(k: OrderKey, v: Vec<Product>, p: Product) -> (r: Vec<Product>)
    ensures
        crate::product_models(r@) == insert_by(k, crate::product_models(v@), p@),
    decreases v@.len(),
{
    let ghost before = crate::product_models(v@);
    let mut v = v;
    if v.len() == 0 {
        v.push(p);
        proof {
            assert(crate::product_models(v@) =~= seq![p@]);
            assert(before.len() == 0);
        }
        v
    } else if le_key_exec(k, &v[0], &p) {
        let h = v.remove(0);
        proof {
            assert(crate::product_models(v@) =~= before.skip(1));
        }
        let mut t = insert_product(k, v, p);
        t.insert(0, h);
        proof {
            assert(crate::product_models(t@) =~= seq![before[0]] + insert_by(k, before.skip(1), p@));
        }
        t
    } else {
        v.insert(0, p);
        proof {
            assert(crate::product_models(v@) =~= seq![p@] + before);
        }
        v
    }
}

/// Stable insertion sort of a product vector under one sort key.
pub fn sort_products(k: OrderKey, v: Vec<Product>) -> (r: Vec<Product>)
    ensures
        crate::product_models(r@) == sort_by_key(k, crate::product_models(v@)),
{
    let ghost s = crate::product_models(v@);
    let mut rest = v;
    let mut out: Vec<Product> = Vec::new();
    let ghost mut i: int = 0;
    proof {
        assert(crate::product_models(rest@) =~= s.skip(0));
        assert(crate::product_models(out@) =~= sort_by_key(k, s.take(0)));
    }
    while rest.len() > 0
        invariant
            0 <= i <= s.len(),
            crate::product_models(rest@) == s.skip(i),
            crate::product_models(out@) == sort_by_key(k, s.take(i)),
        decreases s.len() - i,
    {
        let ghost rest_before = crate::product_models(rest@);
        let p = rest.remove(0);
        proof {
            assert(crate::product_models(rest@) =~= rest_before.skip(1));
            assert(rest_before.skip(1) =~= s.skip(i + 1));
            assert(rest_before[0] == p@);
            assert(s.skip(i)[0] == s[i]);
        }
        out = insert_product(k, out, p);
        proof {
            assert(s.take(i + 1).drop_last() =~= s.take(i));
            assert(s.take(i + 1).last() == s[i]);
            assert(sort_by_key(k, s.take(i + 1)) == insert_by(k, sort_by_key(k, s.take(i)), s[i]));
            i = i + 1;
        }
    }
    proof {
        assert(s.take(i) =~= s);
    }
    out
}

} // verus!
