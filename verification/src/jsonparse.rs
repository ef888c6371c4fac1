//! Decoding one product from a JSON object body.
//!
//! The accepted grammar: optional whitespace, one object whose known
//! fields are `name`, `image_url`, `price` and `id`, in any order, each at
//! most once, then optional whitespace to the end. Unknown fields are read
//! and ignored, whatever shape their value takes. Strings know the short
//! escapes (`\" \\ \/ \n \r \t \b \f`) and `\uXXXX` for code points
//! outside the surrogate range (surrogate pairs are not combined: they
//! are decode errors). `price` is an unsigned decimal whose fraction is
//! read to cents, further fraction digits being truncated; a sign or an
//! exponent on `price` is an error, since a negative or scaled price has
//! no place in the cents model, though skipped unknown numbers may carry
//! both. `id` is an unsigned integer or `null`, and may be absent.
//! `name`, `image_url` and `price` are required. Anything else is a
//! decode error.

use vstd::prelude::*;
use crate::product::{Product, ProductModel};
use crate::query::{is_digit, digits_val, is_hex, hex_val};

verus! {

pub open spec fn is_ws(c: char) -> bool {
    c == ' ' || c == '\t' || c == '\n' || c == '\r'
}

/// First index at or after `i` that does not hold whitespace.
pub open spec fn ws(s: Seq<char>, i: int) -> int
    decreases s.len() - i,
{
    if 0 <= i && i < s.len() && is_ws(s[i]) {
        ws(s, i + 1)
    } else {
        i
    }
}

/// First index at or after `i` that does not hold a digit.
pub open spec fn num_end(s: Seq<char>, i: int) -> int
    decreases s.len() - i,
{
    if 0 <= i && i < s.len() && is_digit(s[i]) {
        num_end(s, i + 1)
    } else {
        i
    }
}

/// What a short escape stands for; `None` is a decode error.
pub open spec fn esc_map(c: char) -> Option<char> {
    if c == '"' {
        Option::Some('"')
    } else if c == '\\' {
        Option::Some('\\')
    } else if c == '/' {
        Option::Some('/')
    } else if c == 'n' {
        Option::Some('\n')
    } else if c == 't' {
        Option::Some('\t')
    } else if c == 'r' {
        Option::Some('\r')
    } else if c == 'b' {
        Option::Some((8u8) as char)
    } else if c == 'f' {
        Option::Some((12u8) as char)
    } else {
        Option::None
    }
}

/// The characters of a string body read from index `i` (after the opening
/// quote) to the closing quote; the index returned is just past it.
pub open spec fn str_chars(s: Seq<char>, i: int) -> Option<(Seq<char>, int)>
    decreases s.len() - i,
{
    if i < 0 || i >= s.len() {
        Option::None
    } else if s[i] == '"' {
        Option::Some((Seq::empty(), i + 1))
    } else if s[i] == '\\' {
        if i + 1 >= s.len() {
            Option::None
        } else if s[i + 1] == 'u' {
            if i + 6 > s.len() || !is_hex(s[i + 2]) || !is_hex(s[i + 3]) || !is_hex(s[i + 4])
                || !is_hex(s[i + 5]) {
                Option::None
            } else {
                let v = hex_val(s[i + 2]) * 4096 + hex_val(s[i + 3]) * 256 + hex_val(s[i + 4]) * 16
                    + hex_val(s[i + 5]);
                if 0xD800 <= v && v < 0xE000 {
                    Option::None
                } else {
                    match str_chars(s, i + 6) {
                        Option::None => Option::None,
                        Option::Some((t, j)) => Option::Some((seq![((v as u32) as char)] + t, j)),
                    }
                }
            }
        } else {
            match esc_map(s[i + 1]) {
                Option::None => Option::None,
                Option::Some(c) => match str_chars(s, i + 2) {
                    Option::None => Option::None,
                    Option::Some((t, j)) => Option::Some((seq![c] + t, j)),
                },
            }
        }
    } else {
        match str_chars(s, i + 1) {
            Option::None => Option::None,
            Option::Some((t, j)) => Option::Some((seq![s[i]] + t, j)),
        }
    }
}

/// A quoted string starting at `i`.
pub open spec fn parse_string(s: Seq<char>, i: int) -> Option<(Seq<char>, int)> {
    if 0 <= i && i < s.len() && s[i] == '"' {
        str_chars(s, i + 1)
    } else {
        Option::None
    }
}

/// An unsigned decimal starting at `i`, read to cents; a fraction needs at
/// least one digit, digits past the second are truncated, and a value
/// beyond `u64` is an error.
pub open spec fn parse_number(s: Seq<char>, i: int) -> Option<(u64, int)> {
    if i < 0 || i >= s.len() || !is_digit(s[i]) {
        Option::None
    } else {
        let e = num_end(s, i);
        let v = digits_val(s.subrange(i, e));
        if e < s.len() && s[e] == '.' {
            let f = num_end(s, e + 1);
            if f == e + 1 {
                Option::None
            } else {
                let d1 = s[e + 1] as int - 48;
                let d2 = if f >= e + 3 {
                    s[e + 2] as int - 48
                } else {
                    0
                };
                let cents = v * 100 + d1 * 10 + d2;
                if cents > u64::MAX {
                    Option::None
                } else {
                    Option::Some((cents as u64, f))
                }
            }
        } else {
            let cents = v * 100;
            if cents > u64::MAX {
                Option::None
            } else {
                Option::Some((cents as u64, e))
            }
        }
    }
}

/// An `id` value: `null` or an unsigned integer within `u32`.
pub open spec fn parse_id(s: Seq<char>, i: int) -> Option<(Option<u32>, int)> {
    if 0 <= i && i + 4 <= s.len() && s[i] == 'n' && s[i + 1] == 'u' && s[i + 2] == 'l' && s[i + 3]
        == 'l' {
        Option::Some((Option::None, i + 4))
    } else if 0 <= i && i < s.len() && is_digit(s[i]) {
        let e = num_end(s, i);
        let v = digits_val(s.subrange(i, e));
        if v <= u32::MAX {
            Option::Some((Option::Some(v as u32), e))
        } else {
            Option::None
        }
    } else {
        Option::None
    }
}

/// End of an optional exponent part at `j`: `e`/`E`, an optional sign,
/// then at least one digit.
pub open spec fn skip_exponent(s: Seq<char>, j: int) -> Option<int> {
    if 0 <= j && j < s.len() && (s[j] == 'e' || s[j] == 'E') {
        let k = if j + 1 < s.len() && (s[j + 1] == '+' || s[j + 1] == '-') {
            j + 2
        } else {
            j + 1
        };
        if k < s.len() && is_digit(s[k]) {
            Option::Some(num_end(s, k))
        } else {
            Option::None
        }
    } else {
        Option::Some(j)
    }
}

/// End of a JSON number in any of its forms; the value is not kept. This
/// is only for skipping unknown fields: the known numeric fields have
/// their own stricter readers.
pub open spec fn skip_number(s: Seq<char>, i: int) -> Option<int> {
    let st = if 0 <= i && i < s.len() && s[i] == '-' {
        i + 1
    } else {
        i
    };
    if !(0 <= st && st < s.len() && is_digit(s[st])) {
        Option::None
    } else {
        let e = num_end(s, st);
        if e < s.len() && s[e] == '.' {
            let f = num_end(s, e + 1);
            if f == e + 1 {
                Option::None
            } else {
                skip_exponent(s, f)
            }
        } else {
            skip_exponent(s, e)
        }
    }
}

/// Skips one JSON value of any shape, for fields the product does not
/// know; the index returned is just past it.
pub open spec fn skip_value(s: Seq<char>, i: int, fuel: nat) -> Option<int>
    decreases fuel,
{
    if fuel == 0 {
        Option::None
    } else if i < 0 || i >= s.len() {
        Option::None
    } else if s[i] == '"' {
        match str_chars(s, i + 1) {
            Option::None => Option::None,
            Option::Some((t, j)) => Option::Some(j),
        }
    } else if s[i] == '{' {
        let j = ws(s, i + 1);
        if j < s.len() && s[j] == '}' {
            Option::Some(j + 1)
        } else {
            skip_members(s, j, (fuel - 1) as nat)
        }
    } else if s[i] == '[' {
        let j = ws(s, i + 1);
        if j < s.len() && s[j] == ']' {
            Option::Some(j + 1)
        } else {
            skip_elements(s, j, (fuel - 1) as nat)
        }
    } else if s[i] == 't' {
        if i + 4 <= s.len() && s[i + 1] == 'r' && s[i + 2] == 'u' && s[i + 3] == 'e' {
            Option::Some(i + 4)
        } else {
            Option::None
        }
    } else if s[i] == 'f' {
        if i + 5 <= s.len() && s[i + 1] == 'a' && s[i + 2] == 'l' && s[i + 3] == 's' && s[i + 4]
            == 'e' {
            Option::Some(i + 5)
        } else {
            Option::None
        }
    } else if s[i] == 'n' {
        if i + 4 <= s.len() && s[i + 1] == 'u' && s[i + 2] == 'l' && s[i + 3] == 'l' {
            Option::Some(i + 4)
        } else {
            Option::None
        }
    } else {
        skip_number(s, i)
    }
}

/// Skips `key: value` members from the first key to the closing brace.
pub open spec fn skip_members(s: Seq<char>, i: int, fuel: nat) -> Option<int>
    decreases fuel,
{
    if fuel == 0 {
        Option::None
    } else {
        match parse_string(s, i) {
            Option::None => Option::None,
            Option::Some((k, j)) => {
                let j2 = ws(s, j);
                if !(j2 < s.len() && s[j2] == ':') {
                    Option::None
                } else {
                    match skip_value(s, ws(s, j2 + 1), (fuel - 1) as nat) {
                        Option::None => Option::None,
                        Option::Some(j3) => {
                            let j4 = ws(s, j3);
                            if j4 < s.len() && s[j4] == ',' {
                                skip_members(s, ws(s, j4 + 1), (fuel - 1) as nat)
                            } else if j4 < s.len() && s[j4] == '}' {
                                Option::Some(j4 + 1)
                            } else {
                                Option::None
                            }
                        },
                    }
                }
            },
        }
    }
}

/// Skips array elements from the first element to the closing bracket.
pub open spec fn skip_elements(s: Seq<char>, i: int, fuel: nat) -> Option<int>
    decreases fuel,
{
    if fuel == 0 {
        Option::None
    } else {
        match skip_value(s, i, (fuel - 1) as nat) {
            Option::None => Option::None,
            Option::Some(j) => {
                let j2 = ws(s, j);
                if j2 < s.len() && s[j2] == ',' {
                    skip_elements(s, ws(s, j2 + 1), (fuel - 1) as nat)
                } else if j2 < s.len() && s[j2] == ']' {
                    Option::Some(j2 + 1)
                } else {
                    Option::None
                }
            },
        }
    }
}

/// The fields read so far of the object.
pub struct Fields {
    pub name: Option<Vec<char>>,
    pub image_url: Option<Vec<char>>,
    pub price: Option<u64>,
    pub id: Option<Option<u32>>,
}

/// Mathematical model of the field state.
pub struct FieldsModel {
    pub name: Option<Seq<char>>,
    pub image_url: Option<Seq<char>>,
    pub price: Option<u64>,
    pub id: Option<Option<u32>>,
}

impl View for Fields {
    type V = FieldsModel;

    open spec fn view(&self) -> FieldsModel {
        FieldsModel {
            name: match self.name {
                Option::None => Option::None,
                Option::Some(v) => Option::Some(v@),
            },
            image_url: match self.image_url {
                Option::None => Option::None,
                Option::Some(v) => Option::Some(v@),
            },
            price: self.price,
            id: self.id,
        }
    }
}

/// One known `key: value` binding applied to the state; a repeated key
/// is an error. Unknown keys never reach this function: the field reader
/// skips their values instead.
pub open spec fn apply_field(
    st: FieldsModel,
    key: Seq<char>,
    s: Seq<char>,
    i: int,
) -> Option<(FieldsModel, int)> {
    if key == "name"@ {
        if st.name is Some {
            Option::None
        } else {
            match parse_string(s, i) {
                Option::None => Option::None,
                Option::Some((v, j)) => Option::Some(
                    (
                        FieldsModel {
                            name: Option::Some(v),
                            image_url: st.image_url,
                            price: st.price,
                            id: st.id,
                        },
                        j,
                    ),
                ),
            }
        }
    } else if key == "image_url"@ {
        if st.image_url is Some {
            Option::None
        } else {
            match parse_string(s, i) {
                Option::None => Option::None,
                Option::Some((v, j)) => Option::Some(
                    (
                        FieldsModel {
                            name: st.name,
                            image_url: Option::Some(v),
                            price: st.price,
                            id: st.id,
                        },
                        j,
                    ),
                ),
            }
        }
    } else if key == "price"@ {
        if st.price is Some {
            Option::None
        } else {
            match parse_number(s, i) {
                Option::None => Option::None,
                Option::Some((c, j)) => Option::Some(
                    (
                        FieldsModel {
                            name: st.name,
                            image_url: st.image_url,
                            price: Option::Some(c),
                            id: st.id,
                        },
                        j,
                    ),
                ),
            }
        }
    } else if key == "id"@ {
        if st.id is Some {
            Option::None
        } else {
            match parse_id(s, i) {
                Option::None => Option::None,
                Option::Some((v, j)) => Option::Some(
                    (
                        FieldsModel {
                            name: st.name,
                            image_url: st.image_url,
                            price: st.price,
                            id: Option::Some(v),
                        },
                        j,
                    ),
                ),
            }
        }
    } else {
        Option::None
    }
}

/// The field list from index `i` (after `{` or a `,`) to the closing
/// brace; the index returned is just past it.
pub open spec fn parse_fields(s: Seq<char>, i: int, st: FieldsModel, fuel: nat) -> Option<
    (FieldsModel, int),
>
    decreases fuel,
{
    if fuel == 0 {
        Option::None
    } else {
        let j = ws(s, i);
        match parse_string(s, j) {
            Option::None => Option::None,
            Option::Some((key, j2)) => {
                let j3 = ws(s, j2);
                if !(j3 < s.len() && s[j3] == ':') {
                    Option::None
                } else {
                    let j4 = ws(s, j3 + 1);
                    let stepped = if key == "name"@ || key == "image_url"@ || key == "price"@
                        || key == "id"@ {
                        apply_field(st, key, s, j4)
                    } else {
                        match skip_value(s, j4, fuel) {
                            Option::None => Option::None,
                            Option::Some(j5) => Option::Some((st, j5)),
                        }
                    };
                    match stepped {
                        Option::None => Option::None,
                        Option::Some((st2, j5)) => {
                            let j6 = ws(s, j5);
                            if j6 < s.len() && s[j6] == ',' {
                                parse_fields(s, j6 + 1, st2, (fuel - 1) as nat)
                            } else if j6 < s.len() && s[j6] == '}' {
                                Option::Some((st2, j6 + 1))
                            } else {
                                Option::None
                            }
                        },
                    }
                }
            },
        }
    }
}

/// The whole body as one product; `None` is the decode error.
pub open spec fn parse_product(s: Seq<char>) -> Option<ProductModel> {
    let i0 = ws(s, 0);
    if !(i0 < s.len() && s[i0] == '{') {
        Option::None
    } else {
        match parse_fields(
            s,
            i0 + 1,
            FieldsModel {
                name: Option::None,
                image_url: Option::None,
                price: Option::None,
                id: Option::None,
            },
            s.len() as nat,
        ) {
            Option::None => Option::None,
            Option::Some((st, e)) => {
                if ws(s, e) != s.len() {
                    Option::None
                } else {
                    match (st.name, st.image_url, st.price) {
                        (Option::Some(nm), Option::Some(iu), Option::Some(pc)) => Option::Some(
                            ProductModel {
                                id: match st.id {
                                    Option::None => Option::None,
                                    Option::Some(x) => x,
                                },
                                name: nm,
                                image_url: iu,
                                price_cents: pc,
                            },
                        ),
                        _ => Option::None,
                    }
                }
            },
        }
    }
}

fn is_ws_exec(c: char) -> (r: bool)
    ensures
        r == is_ws(c),
{
    c == ' ' || c == '\t' || c == '\n' || c == '\r'
}

fn is_digit_exec(c: char) -> (r: bool)
    ensures
        r == is_digit(c),
{
    '0' <= c && c <= '9'
}

/// Skips whitespace, executable.
pub fn ws_exec(s: &Vec<char>, i: usize) -> (r: usize)
    requires
        i <= s@.len(),
    ensures
        r == ws(s@, i as int),
        i <= r <= s@.len(),
{
    let n: usize = s.len();
    let mut j: usize = i;
    while j < n && is_ws_exec(s[j])
        invariant
            n == s@.len(),
            i <= j <= n,
            ws(s@, i as int) == ws(s@, j as int),
        decreases n - j,
    {
        j = j + 1;
    }
    j
}

/// Scans a digit run, accumulating its value up to `cap`.
/// Returns the end of the run and the value, or `None` past the cap.
fn scan_digits(s: &Vec<char>, i: usize, cap: u64) -> (r: (usize, Option<u64>))
    requires
        i <= s@.len(),
        cap <= 1844674407370955160,
    ensures
        r.0 == num_end(s@, i as int),
        i <= r.0 <= s@.len(),
        match r.1 {
            Option::Some(a) => a == digits_val(s@.subrange(i as int, r.0 as int)) && a <= cap,
            Option::None => digits_val(s@.subrange(i as int, r.0 as int)) > cap,
        },
{
    let n: usize = s.len();
    let mut j: usize = i;
    let mut acc: u64 = 0;
    let mut over: bool = false;
    proof {
        assert(s@.subrange(i as int, i as int) =~= Seq::<char>::empty());
    }
    while j < n && is_digit_exec(s[j])
        invariant
            n == s@.len(),
            i <= j <= n,
            cap <= 1844674407370955160,
            num_end(s@, i as int) == num_end(s@, j as int),
            !over ==> acc == digits_val(s@.subrange(i as int, j as int)) && acc <= cap,
            over ==> digits_val(s@.subrange(i as int, j as int)) > cap,
        decreases n - j,
    {
        let d: u64 = ((s[j] as u32) - 48) as u64;
        proof {
            assert(s@.subrange(i as int, j + 1).drop_last() =~= s@.subrange(i as int, j as int));
            assert(s@.subrange(i as int, j + 1).last() == s@[j as int]);
        }
        if !over {
            let next: u64 = acc * 10 + d;
            if next > cap {
                over = true;
            } else {
                acc = next;
            }
        }
        j = j + 1;
    }
    if over {
        (j, None)
    } else {
        (j, Some(acc))
    }
}

/// Spec view of an optional string result.
pub open spec fn sp_view(r: Option<(Vec<char>, usize)>) -> Option<(Seq<char>, int)> {
    match r {
        Option::None => Option::None,
        Option::Some(p) => Option::Some((p.0@, p.1 as int)),
    }
}

/// Relies on std `char::from_u32`: `Some` exactly for code points that
/// are not surrogates and not beyond the Unicode maximum, holding the
/// character with that code.
#[verifier::external_body]
fn char_from_code(v: u32) -> (r: Option<char>)
    ensures
        r matches Some(c) ==> c == (v as char),
        (r is Some) <==> (v < 0xD800 || (0xE000 <= v && v <= 0x10FFFF)),
{
    char::from_u32(v)
}

/// The characters of a string body, executable.
fn str_chars_exec(s: &Vec<char>, i: usize) -> (r: Option<(Vec<char>, usize)>)
    requires
        i <= s@.len(),
    ensures
        sp_view(r) == str_chars(s@, i as int),
        r matches Some(p) ==> i < p.1 <= s@.len(),
    decreases s@.len() - i,
{
    let n: usize = s.len();
    if i >= n {
        return None;
    }
    let c = s[i];
    if c == '"' {
        let out: Vec<char> = Vec::new();
        return Some((out, i + 1));
    }
    if c == '\\' {
        if i + 1 >= n {
            return None;
        }
        let e = s[i + 1];
        if e == 'u' {
            if n - i < 6 {
                return None;
            }
            if !crate::query::is_hex_exec(s[i + 2]) || !crate::query::is_hex_exec(s[i + 3])
                || !crate::query::is_hex_exec(s[i + 4]) || !crate::query::is_hex_exec(s[i + 5]) {
                return None;
            }
            let v: u32 = crate::query::hex_val_exec(s[i + 2]) * 4096 + crate::query::hex_val_exec(
                s[i + 3],
            ) * 256 + crate::query::hex_val_exec(s[i + 4]) * 16 + crate::query::hex_val_exec(
                s[i + 5],
            );
            if 0xD800 <= v && v < 0xE000 {
                return None;
            }
            let c2: char = match char_from_code(v) {
                Some(c2) => c2,
                None => {
                    proof {
                        assert(false);
                    }
                    return None;
                },
            };
            return match str_chars_exec(s, i + 6) {
                None => None,
                Some(p) => {
                    let mut t = p.0;
                    t.insert(0, c2);
                    proof {
                        assert(t@ =~= seq![c2] + t@.skip(1));
                    }
                    Some((t, p.1))
                },
            };
        }
        let m: Option<char> = if e == '"' {
            Some('"')
        } else if e == '\\' {
            Some('\\')
        } else if e == '/' {
            Some('/')
        } else if e == 'n' {
            Some('\n')
        } else if e == 't' {
            Some('\t')
        } else if e == 'r' {
            Some('\r')
        } else if e == 'b' {
            Some((8u8) as char)
        } else if e == 'f' {
            Some((12u8) as char)
        } else {
            None
        };
        proof {
            assert(m == esc_map(s@[i + 1]));
        }
        match m {
            None => None,
            Some(c2) => {
                match str_chars_exec(s, i + 2) {
                    None => None,
                    Some(p) => {
                        let mut t = p.0;
                        t.insert(0, c2);
                        proof {
                            assert(t@ =~= seq![c2] + t@.skip(1));
                        }
                        Some((t, p.1))
                    },
                }
            },
        }
    } else {
        match str_chars_exec(s, i + 1) {
            None => None,
            Some(p) => {
                let mut t = p.0;
                t.insert(0, c);
                proof {
                    assert(t@ =~= seq![s@[i as int]] + t@.skip(1));
                }
                Some((t, p.1))
            },
        }
    }
}

/// A quoted string, executable.
pub fn parse_string_exec(s: &Vec<char>, i: usize) -> (r: Option<(Vec<char>, usize)>)
    requires
        i <= s@.len(),
    ensures
        sp_view(r) == parse_string(s@, i as int),
        r matches Some(p) ==> i < p.1 <= s@.len(),
{
    if i < s.len() {
        let c = s[i];
        if c == '"' {
            return str_chars_exec(s, i + 1);
        }
    }
    None
}

/// Spec view of an optional number result.
pub open spec fn num_view(r: Option<(u64, usize)>) -> Option<(u64, int)> {
    match r {
        Option::None => Option::None,
        Option::Some(p) => Option::Some((p.0, p.1 as int)),
    }
}

/// An unsigned decimal read to cents, executable.
pub fn parse_number_exec(s: &Vec<char>, i: usize) -> (r: Option<(u64, usize)>)
    requires
        i <= s@.len(),
    ensures
        num_view(r) == parse_number(s@, i as int),
        r matches Some(p) ==> i < p.1 <= s@.len(),
{
    let n: usize = s.len();
    if i >= n || !is_digit_exec(s[i]) {
        return None;
    }
    let scan = scan_digits(s, i, 184467440737095516);
    let e = scan.0;
    proof {
        lemma_num_end_bounds(s@, i + 1);
        assert(num_end(s@, i as int) == num_end(s@, i + 1));
    }
    match scan.1 {
        None => {
            // the integer part alone already overflows cents
            proof {
                let v = digits_val(s@.subrange(i as int, e as int));
                assert(v * 100 > u64::MAX) by (nonlinear_arith)
                    requires
                        v > 184467440737095516,
                ;
                if e < s@.len() && s@[e as int] == '.' {
                    lemma_num_end_bounds(s@, e + 1);
                    let f = num_end(s@, e + 1);
                    if f != e + 1 {
                        lemma_num_end_digits(s@, e + 1, e + 1);
                        assert(is_digit(s@[e + 1]));
                        let d1 = s@[e + 1] as int - 48;
                        if f >= e + 3 {
                            lemma_num_end_digits(s@, e + 1, e + 2);
                        }
                        let d2 = if f >= e + 3 {
                            s@[e + 2] as int - 48
                        } else {
                            0
                        };
                        assert(d1 >= 0 && d2 >= 0);
                        assert(v * 100 + d1 * 10 + d2 > u64::MAX);
                    }
                }
            }
            None
        },
        Some(v) => {
            let cents: u64 = v * 100;
            if e < n && s[e] == '.' {
                let fscan = scan_digits(s, e + 1, 1844674407370955160);
                let f = fscan.0;
                if f == e + 1 {
                    return None;
                }
                proof {
                    lemma_num_end_bounds(s@, e + 1);
                    assert(num_end(s@, e + 1) > e + 1);
                    lemma_num_end_digits(s@, e + 1, e + 1);
                    assert(is_digit(s@[e + 1]));
                    if f >= e + 3 {
                        lemma_num_end_digits(s@, e + 1, e + 2);
                    }
                }
                let d1: u64 = ((s[e + 1] as u32) - 48) as u64;
                let d2: u64 = if f - e >= 3 {
                    ((s[e + 2] as u32) - 48) as u64
                } else {
                    0
                };
                let total: u128 = (cents as u128) + ((d1 * 10 + d2) as u128);
                if total > u64::MAX as u128 {
                    return None;
                }
                Some((total as u64, f))
            } else {
                Some((cents, e))
            }
        },
    }
}

/// `num_end` never moves backwards nor past the end.
proof fn lemma_num_end_bounds(s: Seq<char>, i: int)
    requires
        0 <= i <= s.len(),
    ensures
        i <= num_end(s, i) <= s.len(),
    decreases s.len() - i,
{
    if i < s.len() && is_digit(s[i]) {
        lemma_num_end_bounds(s, i + 1);
    }
}

/// Every position of a digit run up to `num_end` holds a digit.
proof fn lemma_num_end_digits(s: Seq<char>, i: int, l: int)
    requires
        i <= l < num_end(s, i),
        0 <= i,
    ensures
        is_digit(s[l]),
    decreases l - i,
{
    if i < num_end(s, i) {
        if l > i {
            lemma_num_end_digits(s, i + 1, l);
        }
    }
}

/// Spec view of an optional id result.
pub open spec fn id_view(r: Option<(Option<u32>, usize)>) -> Option<(Option<u32>, int)> {
    match r {
        Option::None => Option::None,
        Option::Some(p) => Option::Some((p.0, p.1 as int)),
    }
}

/// An `id` value, executable.
pub fn parse_id_exec(s: &Vec<char>, i: usize) -> (r: Option<(Option<u32>, usize)>)
    requires
        i <= s@.len(),
    ensures
        id_view(r) == parse_id(s@, i as int),
        r matches Some(p) ==> i < p.1 <= s@.len(),
{
    let n: usize = s.len();
    if n - i >= 4 && s[i] == 'n' && s[i + 1] == 'u' && s[i + 2] == 'l' && s[i + 3] == 'l' {
        return Some((None, i + 4));
    }
    if i >= n || !is_digit_exec(s[i]) {
        return None;
    }
    let scan = scan_digits(s, i, 4294967295);
    proof {
        lemma_num_end_bounds(s@, i + 1);
        assert(num_end(s@, i as int) == num_end(s@, i + 1));
    }
    match scan.1 {
        None => None,
        Some(v) => Some((Some(v as u32), scan.0)),
    }
}

/// Spec view of an optional index.
pub open spec fn idx_view(r: Option<usize>) -> Option<int> {
    match r {
        Option::None => Option::None,
        Option::Some(j) => Option::Some(j as int),
    }
}

/// An optional exponent part, executable.
fn skip_exponent_exec(s: &Vec<char>, j: usize) -> (r: Option<usize>)
    requires
        j <= s@.len(),
    ensures
        idx_view(r) == skip_exponent(s@, j as int),
        r matches Some(x) ==> x <= s@.len(),
{
    let n: usize = s.len();
    if j < n && (s[j] == 'e' || s[j] == 'E') {
        let k: usize = if j + 1 < n && (s[j + 1] == '+' || s[j + 1] == '-') {
            j + 2
        } else {
            j + 1
        };
        if k < n && is_digit_exec(s[k]) {
            let scan = scan_digits(s, k, 0);
            Some(scan.0)
        } else {
            None
        }
    } else {
        Some(j)
    }
}

/// A number of any form, skipped, executable.
fn skip_number_exec(s: &Vec<char>, i: usize) -> (r: Option<usize>)
    requires
        i <= s@.len(),
    ensures
        idx_view(r) == skip_number(s@, i as int),
        r matches Some(x) ==> x <= s@.len(),
{
    let n: usize = s.len();
    let st: usize = if i < n && s[i] == '-' {
        i + 1
    } else {
        i
    };
    if !(st < n && is_digit_exec(s[st])) {
        return None;
    }
    let scan = scan_digits(s, st, 0);
    let e = scan.0;
    if e < n && s[e] == '.' {
        let fscan = scan_digits(s, e + 1, 0);
        let f = fscan.0;
        if f == e + 1 {
            return None;
        }
        skip_exponent_exec(s, f)
    } else {
        skip_exponent_exec(s, e)
    }
}

/// One JSON value of any shape, skipped, executable.
fn skip_value_exec(s: &Vec<char>, i: usize, fuel: usize) -> (r: Option<usize>)
    requires
        i <= s@.len(),
    ensures
        idx_view(r) == skip_value(s@, i as int, fuel as nat),
        r matches Some(x) ==> x <= s@.len(),
    decreases fuel,
{
    if fuel == 0 {
        return None;
    }
    let n: usize = s.len();
    if i >= n {
        return None;
    }
    let c = s[i];
    if c == '"' {
        match str_chars_exec(s, i + 1) {
            None => None,
            Some(p) => Some(p.1),
        }
    } else if c == '{' {
        let j = ws_exec(s, i + 1);
        if j < n && s[j] == '}' {
            Some(j + 1)
        } else {
            skip_members_exec(s, j, fuel - 1)
        }
    } else if c == '[' {
        let j = ws_exec(s, i + 1);
        if j < n && s[j] == ']' {
            Some(j + 1)
        } else {
            skip_elements_exec(s, j, fuel - 1)
        }
    } else if c == 't' {
        if n - i >= 4 && s[i + 1] == 'r' && s[i + 2] == 'u' && s[i + 3] == 'e' {
            Some(i + 4)
        } else {
            None
        }
    } else if c == 'f' {
        if n - i >= 5 && s[i + 1] == 'a' && s[i + 2] == 'l' && s[i + 3] == 's' && s[i + 4] == 'e' {
            Some(i + 5)
        } else {
            None
        }
    } else if c == 'n' {
        if n - i >= 4 && s[i + 1] == 'u' && s[i + 2] == 'l' && s[i + 3] == 'l' {
            Some(i + 4)
        } else {
            None
        }
    } else {
        skip_number_exec(s, i)
    }
}

/// Object members, skipped, executable.
fn skip_members_exec(s: &Vec<char>, i: usize, fuel: usize) -> (r: Option<usize>)
    requires
        i <= s@.len(),
    ensures
        idx_view(r) == skip_members(s@, i as int, fuel as nat),
        r matches Some(x) ==> x <= s@.len(),
    decreases fuel,
{
    if fuel == 0 {
        return None;
    }
    let n: usize = s.len();
    match parse_string_exec(s, i) {
        None => None,
        Some(p) => {
            let j2 = ws_exec(s, p.1);
            if !(j2 < n && s[j2] == ':') {
                return None;
            }
            let w = ws_exec(s, j2 + 1);
            match skip_value_exec(s, w, fuel - 1) {
                None => None,
                Some(j3) => {
                    let j4 = ws_exec(s, j3);
                    if j4 < n && s[j4] == ',' {
                        let w2 = ws_exec(s, j4 + 1);
                        skip_members_exec(s, w2, fuel - 1)
                    } else if j4 < n && s[j4] == '}' {
                        Some(j4 + 1)
                    } else {
                        None
                    }
                },
            }
        },
    }
}

/// Array elements, skipped, executable.
fn skip_elements_exec(s: &Vec<char>, i: usize, fuel: usize) -> (r: Option<usize>)
    requires
        i <= s@.len(),
    ensures
        idx_view(r) == skip_elements(s@, i as int, fuel as nat),
        r matches Some(x) ==> x <= s@.len(),
    decreases fuel,
{
    if fuel == 0 {
        return None;
    }
    let n: usize = s.len();
    match skip_value_exec(s, i, fuel - 1) {
        None => None,
        Some(j) => {
            let j2 = ws_exec(s, j);
            if j2 < n && s[j2] == ',' {
                let w2 = ws_exec(s, j2 + 1);
                skip_elements_exec(s, w2, fuel - 1)
            } else if j2 < n && s[j2] == ']' {
                Some(j2 + 1)
            } else {
                None
            }
        },
    }
}

/// Spec view of an optional field-state result.
pub open spec fn pf_view(r: Option<(Fields, usize)>) -> Option<(FieldsModel, int)> {
    match r {
        Option::None => Option::None,
        Option::Some(p) => Option::Some((p.0@, p.1 as int)),
    }
}

/// The field list, executable.
pub fn parse_fields_exec(s: &Vec<char>, i: usize, st: Fields, fuel: usize) -> (r: Option<
    (Fields, usize),
>)
    requires
        i <= s@.len(),
    ensures
        pf_view(r) == parse_fields(s@, i as int, st@, fuel as nat),
        r matches Some(p) ==> p.1 <= s@.len(),
    decreases fuel,
{
    if fuel == 0 {
        return None;
    }
    let n: usize = s.len();
    let j = ws_exec(s, i);
    let ks = parse_string_exec(s, j);
    match ks {
        None => None,
        Some(kp) => {
            let key = kp.0;
            let j2 = kp.1;
            let j3 = ws_exec(s, j2);
            if !(j3 < n && s[j3] == ':') {
                return None;
            }
            let j4 = ws_exec(s, j3 + 1);
            let stepped: Option<(Fields, usize)> = if crate::chars::eq_str(&key, "name") {
                if st.name.is_some() {
                    None
                } else {
                    match parse_string_exec(s, j4) {
                        None => None,
                        Some(vp) => Some(
                            (
                                Fields {
                                    name: Some(vp.0),
                                    image_url: st.image_url,
                                    price: st.price,
                                    id: st.id,
                                },
                                vp.1,
                            ),
                        ),
                    }
                }
            } else if crate::chars::eq_str(&key, "image_url") {
                if st.image_url.is_some() {
                    None
                } else {
                    match parse_string_exec(s, j4) {
                        None => None,
                        Some(vp) => Some(
                            (
                                Fields {
                                    name: st.name,
                                    image_url: Some(vp.0),
                                    price: st.price,
                                    id: st.id,
                                },
                                vp.1,
                            ),
                        ),
                    }
                }
            } else if crate::chars::eq_str(&key, "price") {
                if st.price.is_some() {
                    None
                } else {
                    match parse_number_exec(s, j4) {
                        None => None,
                        Some(vp) => Some(
                            (
                                Fields {
                                    name: st.name,
                                    image_url: st.image_url,
                                    price: Some(vp.0),
                                    id: st.id,
                                },
                                vp.1,
                            ),
                        ),
                    }
                }
            } else if crate::chars::eq_str(&key, "id") {
                if st.id.is_some() {
                    None
                } else {
                    match parse_id_exec(s, j4) {
                        None => None,
                        Some(vp) => Some(
                            (
                                Fields {
                                    name: st.name,
                                    image_url: st.image_url,
                                    price: st.price,
                                    id: Some(vp.0),
                                },
                                vp.1,
                            ),
                        ),
                    }
                }
            } else {
                match skip_value_exec(s, j4, fuel) {
                    None => None,
                    Some(j5) => Some((st, j5)),
                }
            };
            proof {
                if key@ == "name"@ || key@ == "image_url"@ || key@ == "price"@ || key@ == "id"@ {
                    assert(pf_view(stepped) == apply_field(st@, key@, s@, j4 as int));
                }
            }
            match stepped {
                None => None,
                Some(sp) => {
                    let st2 = sp.0;
                    let j5 = sp.1;
                    let j6 = ws_exec(s, j5);
                    if j6 < n && s[j6] == ',' {
                        parse_fields_exec(s, j6 + 1, st2, fuel - 1)
                    } else if j6 < n && s[j6] == '}' {
                        Some((st2, j6 + 1))
                    } else {
                        None
                    }
                },
            }
        },
    }
}

/// Spec view of an optional product.
pub open spec fn product_view(r: Option<Product>) -> Option<ProductModel> {
    match r {
        Option::None => Option::None,
        Option::Some(p) => Option::Some(p@),
    }
}

/// Decodes one product from a body, executable; `None` is the decode
/// error.
pub fn parse_product_exec(s: &Vec<char>) -> (r: Option<Product>)
    ensures
        product_view(r) == parse_product(s@),
{
    let n: usize = s.len();
    let i0 = ws_exec(s, 0);
    if !(i0 < n && s[i0] == '{') {
        return None;
    }
    let st0 = Fields { name: None, image_url: None, price: None, id: None };
    match parse_fields_exec(s, i0 + 1, st0, n) {
        None => None,
        Some(p) => {
            let e2 = ws_exec(s, p.1);
            if e2 != n {
                return None;
            }
            let st = p.0;
            match (st.name, st.image_url, st.price) {
                (Some(nm), Some(iu), Some(pc)) => {
                    let id: Option<u32> = match st.id {
                        None => None,
                        Some(x) => x,
                    };
                    let name = crate::chars::chars_string(&nm);
                    let image_url = crate::chars::chars_string(&iu);
                    Some(Product { id, name, image_url, price_cents: pc })
                },
                _ => None,
            }
        },
    }
}

} // verus!
