//! URL-encoded query parsing: percent and plus decoding, splitting into
//! key/value pairs, and the typed parameter set of `products_get`.
//!
//! Each `%xx` token decodes to the character of that byte value on its
//! own; percent-encoded multi-byte UTF-8 sequences are not recombined
//! into one character. The keys and the meaningful values of this route
//! (`limit`, `orderby`, `id`, `name`, `price`) are ASCII, where the two
//! readings agree, and a value decoded the other way would compare equal
//! to none of them either, so the route's answers do not depend on the
//! difference.

use vstd::prelude::*;

verus! {

/// The typed query parameters of `products_get`.
pub struct QueryParams {
    pub limit: Option<i32>,
    pub orderby: Option<Vec<char>>,
}

/// Mathematical model of the parameter set.
pub struct QueryModel {
    pub limit: Option<i32>,
    pub orderby: Option<Seq<char>>,
}

impl View for QueryParams {
    type V = QueryModel;

    open spec fn view(&self) -> QueryModel {
        QueryModel {
            limit: self.limit,
            orderby: match self.orderby {
                Option::None => Option::None,
                Option::Some(v) => Option::Some(v@),
            },
        }
    }
}

pub open spec fn is_digit(c: char) -> bool {
    '0' <= c && c <= '9'
}

pub open spec fn is_hex(c: char) -> bool {
    is_digit(c) || ('a' <= c && c <= 'f') || ('A' <= c && c <= 'F')
}

/// Value of one hexadecimal digit.
pub open spec fn hex_val(c: char) -> int {
    if is_digit(c) {
        c as int - 48
    } else if 'a' <= c && c <= 'f' {
        c as int - 87
    } else if 'A' <= c && c <= 'F' {
        c as int - 55
    } else {
        0
    }
}

/// The character for a decoded byte.
pub open spec fn byte_char(b: int) -> char {
    (b as u8) as char
}

/// Percent decoding with `+` for space: `%xx` with two hexadecimal digits
/// becomes the character of that byte value, a malformed `%` stays as it
/// is.
pub open spec fn pct_decode(s: Seq<char>) -> Seq<char>
    decreases s.len(),
{
    if s.len() == 0 {
        Seq::empty()
    } else if s[0] == '+' {
        seq![' '] + pct_decode(s.skip(1))
    } else if s[0] == '%' && s.len() >= 3 && is_hex(s[1]) && is_hex(s[2]) {
        seq![byte_char(hex_val(s[1]) * 16 + hex_val(s[2]))] + pct_decode(s.skip(3))
    } else {
        seq![s[0]] + pct_decode(s.skip(1))
    }
}

/// The raw segments between `&` separators, with the text read so far of
/// the current segment.
pub open spec fn segments_acc(s: Seq<char>, cur: Seq<char>) -> Seq<Seq<char>>
    decreases s.len(),
{
    if s.len() == 0 {
        seq![cur]
    } else if s[0] == '&' {
        seq![cur] + segments_acc(s.skip(1), Seq::empty())
    } else {
        segments_acc(s.skip(1), cur.push(s[0]))
    }
}

pub open spec fn segments(s: Seq<char>) -> Seq<Seq<char>> {
    segments_acc(s, Seq::empty())
}

/// Splits one segment at its first `=`: key before, value after; without
/// `=` the whole segment is the key and the value is empty.
pub open spec fn seg_pair_acc(s: Seq<char>, k: Seq<char>) -> (Seq<char>, Seq<char>)
    decreases s.len(),
{
    if s.len() == 0 {
        (k, Seq::empty())
    } else if s[0] == '=' {
        (k, s.skip(1))
    } else {
        seg_pair_acc(s.skip(1), k.push(s[0]))
    }
}

/// The decoded key/value pair of one segment.
pub open spec fn decoded_pair(g: Seq<char>) -> (Seq<char>, Seq<char>) {
    let p = seg_pair_acc(g, Seq::empty());
    (pct_decode(p.0), pct_decode(p.1))
}

/// The decoded pairs of a segment list; empty segments yield no pair.
pub open spec fn pairs_of_segments(gs: Seq<Seq<char>>) -> Seq<(Seq<char>, Seq<char>)>
    decreases gs.len(),
{
    if gs.len() == 0 {
        Seq::empty()
    } else {
        let rest = pairs_of_segments(gs.drop_last());
        if gs.last().len() == 0 {
            rest
        } else {
            rest.push(decoded_pair(gs.last()))
        }
    }
}

/// All decoded key/value pairs of a query string.
pub open spec fn query_pairs(s: Seq<char>) -> Seq<(Seq<char>, Seq<char>)> {
    pairs_of_segments(segments(s))
}

/// Value of a digit string, most significant first.
pub open spec fn digits_val(s: Seq<char>) -> int
    decreases s.len(),
{
    if s.len() == 0 {
        0
    } else {
        digits_val(s.drop_last()) * 10 + (s.last() as int - 48)
    }
}

pub open spec fn all_digits(s: Seq<char>) -> bool {
    forall|i: int| 0 <= i < s.len() ==> is_digit(#[trigger] s[i])
}

/// A decimal `i32` with an optional sign; anything else, and any value out
/// of range, is rejected.
pub open spec fn parse_i32(s: Seq<char>) -> Option<i32> {
    let neg = s.len() > 0 && s[0] == '-';
    let ds = if s.len() > 0 && (s[0] == '-' || s[0] == '+') {
        s.skip(1)
    } else {
        s
    };
    if ds.len() == 0 || !all_digits(ds) {
        Option::None
    } else {
        let v = digits_val(ds);
        if neg {
            if v <= 2147483648 {
                Option::Some((-v) as i32)
            } else {
                Option::None
            }
        } else {
            if v <= 2147483647 {
                Option::Some(v as i32)
            } else {
                Option::None
            }
        }
    }
}

/// A digit prefix never exceeds the whole digit string's value.
proof fn lemma_digits_val_mono(s: Seq<char>, i: int)
    requires
        all_digits(s),
        0 <= i <= s.len(),
    ensures
        0 <= digits_val(s.take(i)) <= digits_val(s),
        digits_val(s.take(s.len() as int)) == digits_val(s),
    decreases s.len() - i, s.len(),
{
    if i == s.len() {
        assert(s.take(i) =~= s);
        if s.len() > 0 {
            assert(all_digits(s.drop_last())) by {
                assert(forall|j: int|
                    0 <= j < s.drop_last().len() ==> #[trigger] s.drop_last()[j] == s[j]);
            }
            lemma_digits_val_mono(s.drop_last(), s.drop_last().len() as int);
        }
    } else {
        lemma_digits_val_mono(s, i + 1);
        assert(s.take(i + 1).drop_last() =~= s.take(i));
        assert(s.take(i + 1).last() == s[i]);
        assert(digits_val(s.take(i + 1)) == digits_val(s.take(i)) * 10 + (s[i] as int - 48));
    }
}

/// Folding the pairs into the parameter set: unknown keys are ignored, a
/// repeated key or an unreadable `limit` is an error.
pub open spec fn fold_query(ps: Seq<(Seq<char>, Seq<char>)>) -> Option<QueryModel>
    decreases ps.len(),
{
    if ps.len() == 0 {
        Option::Some(QueryModel { limit: Option::None, orderby: Option::None })
    } else {
        match fold_query(ps.drop_last()) {
            Option::None => Option::None,
            Option::Some(q) => fold_step(q, ps.last()),
        }
    }
}

pub open spec fn fold_step(q: QueryModel, p: (Seq<char>, Seq<char>)) -> Option<QueryModel> {
    if p.0 == "limit"@ {
        if q.limit is Some {
            Option::None
        } else {
            match parse_i32(p.1) {
                Option::None => Option::None,
                Option::Some(v) => Option::Some(QueryModel { limit: Option::Some(v), ..q }),
            }
        }
    } else if p.0 == "orderby"@ {
        if q.orderby is Some {
            Option::None
        } else {
            Option::Some(QueryModel { orderby: Option::Some(p.1), ..q })
        }
    } else {
        Option::Some(q)
    }
}

/// The whole decode of a raw query string.
pub open spec fn parse_query(s: Seq<char>) -> Option<QueryModel> {
    fold_query(query_pairs(s))
}

/// Hexadecimal digit value, executable.
pub fn hex_val_exec(c: char) -> (r: u32)
    requires
        is_hex(c),
    ensures
        r == hex_val(c),
        r < 16,
{
    if '0' <= c && c <= '9' {
        (c as u32) - 48
    } else if 'a' <= c && c <= 'f' {
        (c as u32) - 87
    } else {
        (c as u32) - 55
    }
}

pub fn is_hex_exec(c: char) -> (r: bool)
    ensures
        r == is_hex(c),
{
    ('0' <= c && c <= '9') || ('a' <= c && c <= 'f') || ('A' <= c && c <= 'F')
}

/// Percent decoding, executable.
pub fn pct_decode_exec(s: &Vec<char>) -> (r: Vec<char>)
    ensures
        r@ == pct_decode(s@),
{
    let n: usize = s.len();
    let mut out: Vec<char> = Vec::new();
    let mut i: usize = 0;
    proof {
        assert(s@.skip(0) =~= s@);
    }
    while i < n
        invariant
            n == s@.len(),
            i <= n,
            pct_decode(s@) == out@ + pct_decode(s@.skip(i as int)),
        decreases n - i,
    {
        let ghost rem = s@.skip(i as int);
        proof {
            assert(rem[0] == s@[i as int]);
            assert(rem.skip(1) =~= s@.skip(i + 1));
        }
        let c = s[i];
        if c == '+' {
            out.push(' ');
            i = i + 1;
        } else if c == '%' && n - i >= 3 && is_hex_exec(s[i + 1]) && is_hex_exec(s[i + 2]) {
            proof {
                assert(rem.len() >= 3);
                assert(rem[1] == s@[i + 1]);
                assert(rem[2] == s@[i + 2]);
                assert(rem.skip(3) =~= s@.skip(i + 3));
            }
            let b: u32 = hex_val_exec(s[i + 1]) * 16 + hex_val_exec(s[i + 2]);
            out.push((b as u8) as char);
            i = i + 3;
        } else {
            out.push(c);
            i = i + 1;
        }
        proof {
            assert(pct_decode(s@) =~= out@ + pct_decode(s@.skip(i as int)));
        }
    }
    proof {
        assert(s@.skip(n as int) =~= Seq::<char>::empty());
        assert(pct_decode(s@) =~= out@);
    }
    out
}

/// View of a vector of character vectors.
pub open spec fn char_seqs(vs: Seq<Vec<char>>) -> Seq<Seq<char>> {
    vs.map_values(|v: Vec<char>| v@)
}

/// Splits a query string at `&`, executable.
pub fn segments_exec(s: &Vec<char>) -> (r: Vec<Vec<char>>)
    ensures
        char_seqs(r@) == segments(s@),
{
    let n: usize = s.len();
    let mut out: Vec<Vec<char>> = Vec::new();
    let mut cur: Vec<char> = Vec::new();
    let mut i: usize = 0;
    proof {
        assert(s@.skip(0) =~= s@);
        assert(char_seqs(out@) =~= Seq::<Seq<char>>::empty());
    }
    while i < n
        invariant
            n == s@.len(),
            i <= n,
            segments(s@) == char_seqs(out@) + segments_acc(s@.skip(i as int), cur@),
        decreases n - i,
    {
        let ghost rem = s@.skip(i as int);
        proof {
            assert(rem[0] == s@[i as int]);
            assert(rem.skip(1) =~= s@.skip(i + 1));
        }
        let c = s[i];
        if c == '&' {
            let done = cur;
            cur = Vec::new();
            out.push(done);
            proof {
                assert(char_seqs(out@) =~= char_seqs(out@.drop_last()).push(done@));
            }
        } else {
            cur.push(c);
        }
        i = i + 1;
        proof {
            assert(segments(s@) =~= char_seqs(out@) + segments_acc(s@.skip(i as int), cur@));
        }
    }
    out.push(cur);
    proof {
        assert(s@.skip(n as int) =~= Seq::<char>::empty());
        assert(char_seqs(out@) =~= char_seqs(out@.drop_last()).push(out@.last()@));
        assert(char_seqs(out@) =~= segments(s@));
    }
    out
}

/// Splits one segment into its raw key and value, executable.
pub fn seg_split_exec(g: &Vec<char>) -> (r: (Vec<char>, Vec<char>))
    ensures
        (r.0@, r.1@) == seg_pair_acc(g@, Seq::<char>::empty()),
{
    let n: usize = g.len();
    let mut k: Vec<char> = Vec::new();
    let mut j: usize = 0;
    proof {
        assert(g@.skip(0) =~= g@);
    }
    while j < n
        invariant
            n == g@.len(),
            j <= n,
            seg_pair_acc(g@, Seq::<char>::empty()) == seg_pair_acc(g@.skip(j as int), k@),
        decreases n - j,
    {
        let ghost rem = g@.skip(j as int);
        proof {
            assert(rem[0] == g@[j as int]);
            assert(rem.skip(1) =~= g@.skip(j + 1));
        }
        let c = g[j];
        if c == '=' {
            let mut v: Vec<char> = Vec::new();
            let mut l: usize = j + 1;
            while l < n
                invariant
                    n == g@.len(),
                    j < l <= n,
                    v@ == g@.subrange(j + 1, l as int),
                decreases n - l,
            {
                v.push(g[l]);
                proof {
                    assert(v@ =~= g@.subrange(j + 1, l + 1));
                }
                l = l + 1;
            }
            proof {
                assert(v@ =~= g@.skip(j as int).skip(1));
            }
            return (k, v);
        }
        k.push(c);
        j = j + 1;
    }
    proof {
        assert(g@.skip(n as int) =~= Seq::<char>::empty());
    }
    (k, Vec::new())
}

/// View of a vector of pairs of character vectors.
pub open spec fn pair_views(ps: Seq<(Vec<char>, Vec<char>)>) -> Seq<(Seq<char>, Seq<char>)> {
    ps.map_values(|p: (Vec<char>, Vec<char>)| (p.0@, p.1@))
}

/// All decoded pairs of a query string, executable.
pub fn query_pairs_exec(s: &Vec<char>) -> (r: Vec<(Vec<char>, Vec<char>)>)
    ensures
        pair_views(r@) == query_pairs(s@),
{
    let gs = segments_exec(s);
    let mut out: Vec<(Vec<char>, Vec<char>)> = Vec::new();
    let n: usize = gs.len();
    let mut i: usize = 0;
    proof {
        assert(char_seqs(gs@).take(0) =~= Seq::<Seq<char>>::empty());
        assert(pair_views(out@) =~= Seq::<(Seq<char>, Seq<char>)>::empty());
    }
    while i < n
        invariant
            n == gs@.len(),
            i <= n,
            char_seqs(gs@) == segments(s@),
            pair_views(out@) == pairs_of_segments(char_seqs(gs@).take(i as int)),
        decreases n - i,
    {
        let g = &gs[i];
        proof {
            assert(char_seqs(gs@).take(i + 1).drop_last() =~= char_seqs(gs@).take(i as int));
            assert(char_seqs(gs@).take(i + 1).last() == g@);
        }
        if g.len() > 0 {
            let kv = seg_split_exec(g);
            let dk = pct_decode_exec(&kv.0);
            let dv = pct_decode_exec(&kv.1);
            out.push((dk, dv));
            proof {
                assert(pair_views(out@) =~= pair_views(out@.drop_last()).push((dk@, dv@)));
                assert((dk@, dv@) == decoded_pair(g@));
            }
        }
        proof {
            assert(pair_views(out@) =~= pairs_of_segments(char_seqs(gs@).take(i + 1)));
        }
        i = i + 1;
    }
    proof {
        assert(char_seqs(gs@).take(n as int) =~= char_seqs(gs@));
    }
    out
}

/// Decimal `i32` parsing, executable.
pub fn parse_i32_exec(s: &Vec<char>) -> (r: Option<i32>)
    ensures
        r == parse_i32(s@),
{
    let n: usize = s.len();
    let neg = n > 0 && s[0] == '-';
    let signed = n > 0 && (s[0] == '-' || s[0] == '+');
    let start: usize = if signed { 1 } else { 0 };
    let ghost ds = if signed { s@.skip(1) } else { s@ };
    proof {
        if !signed {
            assert(s@.skip(0) =~= s@);
        }
    }
    if n == start {
        return None;
    }
    let mut acc: u64 = 0;
    let mut i: usize = start;
    proof {
        assert(ds.take(0) =~= Seq::<char>::empty());
    }
    while i < n
        invariant
            n == s@.len(),
            start <= i <= n,
            signed == (s@.len() > 0 && (s@[0] == '-' || s@[0] == '+')),
            neg == (s@.len() > 0 && s@[0] == '-'),
            start == (if signed { 1int } else { 0int }),
            ds == (if signed { s@.skip(1) } else { s@ }),
            ds.len() == n - start,
            forall|j: int| 0 <= j < i - start ==> is_digit(#[trigger] ds[j]),
            acc == digits_val(ds.take(i - start)),
            acc <= 2147483648,
        decreases n - i,
    {
        let c = s[i];
        proof {
            assert(ds[i - start] == s@[i as int]);
        }
        if !('0' <= c && c <= '9') {
            proof {
                assert(!is_digit(ds[i - start]));
                assert(!all_digits(ds));
                assert(parse_i32(s@) is None);
            }
            return None;
        }
        let d: u64 = (c as u32 as u64) - 48;
        proof {
            assert(ds.take(i - start + 1).drop_last() =~= ds.take(i - start));
            assert(ds.take(i - start + 1).last() == ds[i - start]);
        }
        if acc > 214748364 || (acc == 214748364 && d > 8) {
            // the value can only grow from here on
            proof {
                let pre = i - start + 1;
                assert(digits_val(ds.take(pre)) == acc * 10 + d);
                if all_digits(ds) {
                    lemma_digits_val_mono(ds, pre);
                    assert(digits_val(ds) >= digits_val(ds.take(pre)));
                    assert(digits_val(ds) > 2147483648);
                }
                assert(parse_i32(s@) is None);
            }
            return None;
        }
        acc = acc * 10 + d;
        i = i + 1;
    }
    proof {
        assert(ds.take(n - start) =~= ds);
        assert(all_digits(ds));
    }
    if neg {
        if acc == 2147483648 {
            Some(i32::MIN)
        } else {
            Some(-(acc as i32))
        }
    } else {
        if acc == 2147483648 {
            None
        } else {
            Some(acc as i32)
        }
    }
}

/// Spec view of the optional result.
pub open spec fn query_result_view(r: Option<QueryParams>) -> Option<QueryModel> {
    match r {
        Option::None => Option::None,
        Option::Some(q) => Option::Some(q@),
    }
}

/// Decodes a raw query string into the typed parameter set; `None` is the
/// validation error.
pub fn parse_query_exec(s: &Vec<char>) -> (r: Option<QueryParams>)
    ensures
        query_result_view(r) == parse_query(s@),
{
    let ps = query_pairs_exec(s);
    let n: usize = ps.len();
    let mut q = QueryParams { limit: None, orderby: None };
    let mut i: usize = 0;
    proof {
        assert(pair_views(ps@).take(0) =~= Seq::<(Seq<char>, Seq<char>)>::empty());
    }
    while i < n
        invariant
            n == ps@.len(),
            i <= n,
            pair_views(ps@) == query_pairs(s@),
            fold_query(pair_views(ps@).take(i as int)) == Option::Some(q@),
        decreases n - i,
    {
        proof {
            assert(pair_views(ps@).take(i + 1).drop_last() =~= pair_views(ps@).take(i as int));
            assert(pair_views(ps@).take(i + 1).last() == (ps@[i as int].0@, ps@[i as int].1@));
        }
        let key = &ps[i].0;
        if crate::chars::eq_str(key, "limit") {
            if q.limit.is_some() {
                proof {
                    lemma_fold_query_none(pair_views(ps@), i + 1);
                }
                return None;
            }
            match parse_i32_exec(&ps[i].1) {
                None => {
                    proof {
                        lemma_fold_query_none(pair_views(ps@), i + 1);
                    }
                    return None;
                },
                Some(v) => {
                    q.limit = Some(v);
                },
            }
        } else if crate::chars::eq_str(key, "orderby") {
            if q.orderby.is_some() {
                proof {
                    lemma_fold_query_none(pair_views(ps@), i + 1);
                }
                return None;
            }
            let ob = ps[i].1.clone();
            q.orderby = Some(ob);
        }
        i = i + 1;
    }
    proof {
        assert(pair_views(ps@).take(n as int) =~= pair_views(ps@));
    }
    Some(q)
}

/// Once the fold has failed on a prefix it fails on the whole.
proof fn lemma_fold_query_none(ps: Seq<(Seq<char>, Seq<char>)>, i: int)
    requires
        0 <= i <= ps.len(),
        fold_query(ps.take(i)) is None,
    ensures
        fold_query(ps) is None,
    decreases ps.len() - i,
{
    if i == ps.len() {
        assert(ps.take(i) =~= ps);
    } else {
        assert(ps.take(i + 1).drop_last() =~= ps.take(i));
        lemma_fold_query_none(ps, i + 1);
    }
}

} // verus!
