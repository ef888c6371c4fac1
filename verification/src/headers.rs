//! Header lookup: the request's header pairs with case-insensitive
//! get-by-name, first match first.

use vstd::prelude::*;
use crate::chars::eq_ignore_case;

verus! {

/// Model of the header pairs.
pub open spec fn headers_model(h: Seq<(String, String)>) -> Seq<(Seq<char>, Seq<char>)> {
    h.map_values(|p: (String, String)| (p.0@, p.1@))
}

/// The value of the first header whose name matches up to ASCII case.
pub open spec fn header_get(h: Seq<(Seq<char>, Seq<char>)>, name: Seq<char>) -> Option<Seq<char>>
    decreases h.len(),
{
    if h.len() == 0 {
        Option::None
    } else if eq_ignore_case(h[0].0, name) {
        Option::Some(h[0].1)
    } else {
        header_get(h.skip(1), name)
    }
}

/// Spec view of an optional owned string.
pub open spec fn opt_string_view(r: Option<String>) -> Option<Seq<char>> {
    match r {
        Option::None => Option::None,
        Option::Some(s) => Option::Some(s@),
    }
}

/// Case-insensitive header lookup, executable.
pub fn header_get_exec(h: &Vec<(String, String)>, name: &str) -> (r: Option<String>)
    ensures
        opt_string_view(r) == header_get(headers_model(h@), name@),
{
    let ghost hm = headers_model(h@);
    let want = crate::chars::string_chars(name);
    let n: usize = h.len();
    let mut i: usize = 0;
    proof {
        assert(hm.skip(0) =~= hm);
    }
    while i < n
        invariant
            n == h@.len(),
            i <= n,
            hm == headers_model(h@),
            want@ == name@,
            header_get(hm, name@) == header_get(hm.skip(i as int), name@),
        decreases n - i,
    {
        proof {
            assert(hm.skip(i as int)[0] == hm[i as int]);
            assert(hm.skip(i as int).skip(1) =~= hm.skip(i + 1));
        }
        let key = crate::chars::string_chars(h[i].0.as_str());
        if crate::chars::eq_ignore_case_exec(&key, &want) {
            let v = h[i].1.clone();
            return Some(v);
        }
        i = i + 1;
    }
    proof {
        assert(hm.skip(n as int) =~= Seq::<(Seq<char>, Seq<char>)>::empty());
    }
    None
}

} // verus!
