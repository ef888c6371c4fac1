//! JSON encoding of products: decimal numbers, string escaping, compact and
//! pretty-printed lists, and the error payload.

use vstd::prelude::*;
use crate::product::{Product, ProductModel};

verus! {

/// The decimal digit character for `d < 10`.
pub open spec fn digit_char(d: nat) -> char {
    ((48 + d) as u8) as char
}

/// The lower-case hexadecimal digit character for `d < 16`.
pub open spec fn hex_char(d: nat) -> char {
    if d < 10 {
        ((48 + d) as u8) as char
    } else {
        ((87 + d) as u8) as char
    }
}

/// Decimal digits of `n`, most significant first, no leading zeros
/// (a single `0` for zero).
pub open spec fn dec_digits(n: nat) -> Seq<char>
    decreases n,
{
    if n < 10 {
        seq![digit_char(n)]
    } else {
        dec_digits(n / 10) + seq![digit_char(n % 10)]
    }
}

/// A price in cents rendered as a decimal with exactly two fraction digits.
pub open spec fn price_text(c: u64) -> Seq<char> {
    dec_digits((c / 100) as nat) + seq!['.', digit_char(((c / 10) % 10) as nat), digit_char(
        (c % 10) as nat,
    )]
}

/// JSON escape of one character: quote, backslash and the common control
/// characters get short escapes, other control characters `\u00..`.
pub open spec fn esc_char(c: char) -> Seq<char> {
    if c == '"' {
        seq!['\\', '"']
    } else if c == '\\' {
        seq!['\\', '\\']
    } else if c == '\n' {
        seq!['\\', 'n']
    } else if c == '\r' {
        seq!['\\', 'r']
    } else if c == '\t' {
        seq!['\\', 't']
    } else if (c as u32) < 32 {
        seq!['\\', 'u', '0', '0', hex_char(((c as u32) / 16) as nat), hex_char(
            ((c as u32) % 16) as nat,
        )]
    } else {
        seq![c]
    }
}

/// JSON escape of a character sequence.
pub open spec fn esc(s: Seq<char>) -> Seq<char>
    decreases s.len(),
{
    if s.len() == 0 {
        Seq::empty()
    } else {
        esc(s.drop_last()) + esc_char(s.last())
    }
}

/// The `id` field: `null` or the number.
pub open spec fn id_text(id: Option<u32>) -> Seq<char> {
    match id {
        Option::None => "null"@,
        Option::Some(n) => dec_digits(n as nat),
    }
}

/// Compact JSON object for one product.
pub open spec fn product_json(p: ProductModel) -> Seq<char> {
    "{\"id\":"@ + id_text(p.id) + ",\"name\":\""@ + esc(p.name) + "\",\"image_url\":\""@ + esc(
        p.image_url,
    ) + "\",\"price\":"@ + price_text(p.price_cents) + "}"@
}

/// Comma-joined compact objects.
pub open spec fn products_json_items(s: Seq<ProductModel>) -> Seq<char>
    decreases s.len(),
{
    if s.len() == 0 {
        Seq::empty()
    } else if s.len() == 1 {
        product_json(s[0])
    } else {
        products_json_items(s.drop_last()) + ","@ + product_json(s.last())
    }
}

/// Compact JSON array of products.
pub open spec fn products_json(s: Seq<ProductModel>) -> Seq<char> {
    "["@ + products_json_items(s) + "]"@
}

/// Pretty JSON object for one product, as an element of a pretty array
/// (two-space indentation).
pub open spec fn product_json_pretty(p: ProductModel) -> Seq<char> {
    "  {\n    \"id\": "@ + id_text(p.id) + ",\n    \"name\": \""@ + esc(p.name)
        + "\",\n    \"image_url\": \""@ + esc(p.image_url) + "\",\n    \"price\": "@ + price_text(
        p.price_cents,
    ) + "\n  }"@
}

/// The pretty objects joined by `,\n`.
pub open spec fn products_json_pretty_items(s: Seq<ProductModel>) -> Seq<char>
    decreases s.len(),
{
    if s.len() == 0 {
        Seq::empty()
    } else if s.len() == 1 {
        product_json_pretty(s[0])
    } else {
        products_json_pretty_items(s.drop_last()) + ",\n"@ + product_json_pretty(s.last())
    }
}

/// Pretty JSON array of products.
pub open spec fn products_json_pretty(s: Seq<ProductModel>) -> Seq<char> {
    if s.len() == 0 {
        "[]"@
    } else {
        "[\n"@ + products_json_pretty_items(s) + "\n]"@
    }
}

/// The structured error payload `{"error": "<reason>"}`.
pub open spec fn error_payload(msg: Seq<char>) -> Seq<char> {
    "{\"error\": \""@ + esc(msg) + "\"}"@
}

/// Appends the decimal digit character for `d`.
pub fn push_digit(out: &mut Vec<char>, d: u64)
    requires
        d < 10,
    ensures
        final(out)@ == old(out)@ + seq![digit_char(d as nat)],
{
    out.push(((48 + d) as u8) as char);
    proof {
        assert(out@ =~= old(out)@ + seq![digit_char(d as nat)]);
    }
}

/// Appends the decimal digits of `n`.
pub fn push_u64(out: &mut Vec<char>, n: u64)
    ensures
        final(out)@ == old(out)@ + dec_digits(n as nat),
    decreases n,
{
    if n < 10 {
        push_digit(out, n);
    } else {
        push_u64(out, n / 10);
        push_digit(out, n % 10);
        proof {
            assert(out@ =~= old(out)@ + dec_digits(n as nat));
        }
    }
}

/// Appends a price in cents as a decimal with two fraction digits.
pub fn push_price(out: &mut Vec<char>, c: u64)
    ensures
        final(out)@ == old(out)@ + price_text(c),
{
    push_u64(out, c / 100);
    out.push('.');
    push_digit(out, (c / 10) % 10);
    push_digit(out, c % 10);
    proof {
        assert(out@ =~= old(out)@ + price_text(c));
    }
}

/// Appends the JSON escape of one character.
pub fn push_esc_char(out: &mut Vec<char>, c: char)
    ensures
        final(out)@ == old(out)@ + esc_char(c),
{
    if c == '"' {
        out.push('\\');
        out.push('"');
    } else if c == '\\' {
        out.push('\\');
        out.push('\\');
    } else if c == '\n' {
        out.push('\\');
        out.push('n');
    } else if c == '\r' {
        out.push('\\');
        out.push('r');
    } else if c == '\t' {
        out.push('\\');
        out.push('t');
    } else if (c as u32) < 32 {
        out.push('\\');
        out.push('u');
        out.push('0');
        out.push('0');
        let hi: u32 = (c as u32) / 16;
        let lo: u32 = (c as u32) % 16;
        if hi < 10 {
            out.push(((48 + hi) as u8) as char);
        } else {
            out.push(((87 + hi) as u8) as char);
        }
        if lo < 10 {
            out.push(((48 + lo) as u8) as char);
        } else {
            out.push(((87 + lo) as u8) as char);
        }
    } else {
        out.push(c);
    }
    proof {
        assert(out@ =~= old(out)@ + esc_char(c));
    }
}

/// Appends the JSON escape of a whole sequence.
pub fn push_escaped(out: &mut Vec<char>, s: &Vec<char>)
    ensures
        final(out)@ == old(out)@ + esc(s@),
{
    let n: usize = s.len();
    let mut i: usize = 0;
    proof {
        assert(out@ =~= old(out)@ + esc(s@.take(0)));
    }
    while i < n
        invariant
            n == s@.len(),
            i <= n,
            out@ == old(out)@ + esc(s@.take(i as int)),
        decreases n - i,
    {
        push_esc_char(out, s[i]);
        proof {
            assert(s@.take(i + 1).drop_last() =~= s@.take(i as int));
            assert(s@.take(i + 1).last() == s@[i as int]);
            assert(out@ =~= old(out)@ + esc(s@.take(i + 1)));
        }
        i = i + 1;
    }
    proof {
        assert(s@.take(n as int) =~= s@);
    }
}

/// Appends the JSON escape of a string's characters.
pub fn push_escaped_str(out: &mut Vec<char>, s: &str)
    ensures
        final(out)@ == old(out)@ + esc(s@),
{
    let cs = crate::chars::string_chars(s);
    push_escaped(out, &cs);
}

/// Appends `null` or the decimal id.
pub fn push_id(out: &mut Vec<char>, id: &Option<u32>)
    ensures
        final(out)@ == old(out)@ + id_text(*id),
{
    match id {
        Option::None => {
            crate::chars::push_str(out, "null");
        },
        Option::Some(n) => {
            push_u64(out, *n as u64);
            proof {
                assert(out@ =~= old(out)@ + id_text(*id));
            }
        },
    }
}

/// Appends the compact JSON object for one product.
pub fn push_product_json(out: &mut Vec<char>, p: &Product)
    ensures
        final(out)@ == old(out)@ + product_json(p@),
{
    crate::chars::push_str(out, "{\"id\":");
    push_id(out, &p.id);
    crate::chars::push_str(out, ",\"name\":\"");
    push_escaped_str(out, p.name.as_str());
    crate::chars::push_str(out, "\",\"image_url\":\"");
    push_escaped_str(out, p.image_url.as_str());
    crate::chars::push_str(out, "\",\"price\":");
    push_price(out, p.price_cents);
    crate::chars::push_str(out, "}");
    proof {
        assert(out@ =~= old(out)@ + product_json(p@));
    }
}

/// Builds the compact JSON array for a product list.
pub fn products_json_exec(list: &Vec<Product>) -> (r: Vec<char>)
    ensures
        r@ == products_json(crate::product_models(list@)),
{
    let ghost m = crate::product_models(list@);
    let mut out: Vec<char> = Vec::new();
    crate::chars::push_str(&mut out, "[");
    let n: usize = list.len();
    let mut i: usize = 0;
    proof {
        assert(out@ =~= "["@ + products_json_items(m.take(0)));
    }
    while i < n
        invariant
            n == list@.len(),
            m == crate::product_models(list@),
            i <= n,
            out@ == "["@ + products_json_items(m.take(i as int)),
        decreases n - i,
    {
        if i > 0 {
            crate::chars::push_str(&mut out, ",");
        }
        push_product_json(&mut out, &list[i]);
        proof {
            assert(m.take(i + 1).drop_last() =~= m.take(i as int));
            assert(m.take(i + 1).last() == m[i as int]);
            assert(m[i as int] == list@[i as int]@);
            assert(out@ =~= "["@ + products_json_items(m.take(i + 1)));
        }
        i = i + 1;
    }
    crate::chars::push_str(&mut out, "]");
    proof {
        assert(m.take(n as int) =~= m);
        assert(out@ =~= products_json(m));
    }
    out
}

/// Appends the pretty JSON object for one product.
pub fn push_product_json_pretty(out: &mut Vec<char>, p: &Product)
    ensures
        final(out)@ == old(out)@ + product_json_pretty(p@),
{
    crate::chars::push_str(out, "  {\n    \"id\": ");
    push_id(out, &p.id);
    crate::chars::push_str(out, ",\n    \"name\": \"");
    push_escaped_str(out, p.name.as_str());
    crate::chars::push_str(out, "\",\n    \"image_url\": \"");
    push_escaped_str(out, p.image_url.as_str());
    crate::chars::push_str(out, "\",\n    \"price\": ");
    push_price(out, p.price_cents);
    crate::chars::push_str(out, "\n  }");
    proof {
        assert(out@ =~= old(out)@ + product_json_pretty(p@));
    }
}

/// Builds the pretty JSON array for a product list.
pub fn products_json_pretty_exec(list: &Vec<Product>) -> (r: Vec<char>)
    ensures
        r@ == products_json_pretty(crate::product_models(list@)),
{
    let ghost m = crate::product_models(list@);
    let mut out: Vec<char> = Vec::new();
    let n: usize = list.len();
    if n == 0 {
        crate::chars::push_str(&mut out, "[]");
        proof {
            assert(out@ =~= products_json_pretty(m));
        }
        return out;
    }
    crate::chars::push_str(&mut out, "[\n");
    let mut i: usize = 0;
    proof {
        assert(out@ =~= "[\n"@ + products_json_pretty_items(m.take(0)));
    }
    while i < n
        invariant
            n == list@.len(),
            m == crate::product_models(list@),
            i <= n,
            out@ == "[\n"@ + products_json_pretty_items(m.take(i as int)),
        decreases n - i,
    {
        if i > 0 {
            crate::chars::push_str(&mut out, ",\n");
        }
        push_product_json_pretty(&mut out, &list[i]);
        proof {
            assert(m.take(i + 1).drop_last() =~= m.take(i as int));
            assert(m.take(i + 1).last() == m[i as int]);
            assert(m[i as int] == list@[i as int]@);
            assert(out@ =~= "[\n"@ + products_json_pretty_items(m.take(i + 1)));
        }
        i = i + 1;
    }
    crate::chars::push_str(&mut out, "\n]");
    proof {
        assert(m.take(n as int) =~= m);
        assert(out@ =~= products_json_pretty(m));
    }
    out
}

/// Builds the error payload `{"error": "<reason>"}` from a character
/// vector.
pub fn error_payload_chars(msg: &Vec<char>) -> (r: Vec<char>)
    ensures
        r@ == error_payload(msg@),
{
    let mut out: Vec<char> = Vec::new();
    crate::chars::push_str(&mut out, "{\"error\": \"");
    push_escaped(&mut out, msg);
    crate::chars::push_str(&mut out, "\"}");
    proof {
        assert(out@ =~= error_payload(msg@));
    }
    out
}

/// Builds the error payload `{"error": "<reason>"}`.
pub fn error_payload_exec(msg: &str) -> (r: Vec<char>)
    ensures
        r@ == error_payload(msg@),
{
    let mut out: Vec<char> = Vec::new();
    crate::chars::push_str(&mut out, "{\"error\": \"");
    push_escaped_str(&mut out, msg);
    crate::chars::push_str(&mut out, "\"}");
    proof {
        assert(out@ =~= error_payload(msg@));
    }
    out
}

} // verus!
