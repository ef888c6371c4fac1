//! Rendering of a fetched grocery list into an HTML fragment.
//!
//! The outbound fetch itself is the host shell's work; the verified core
//! receives the decoded items as plain values, the price already rendered
//! as text, and builds the fragment.

use vstd::prelude::*;

verus! {

/// One fetched grocery item.
pub struct Grocery {
    pub name: String,
    pub price: String,
    pub location: String,
}

/// Mathematical model of a grocery item.
pub struct GroceryModel {
    pub name: Seq<char>,
    pub price: Seq<char>,
    pub location: Seq<char>,
}

impl View for Grocery {
    type V = GroceryModel;

    open spec fn view(&self) -> GroceryModel {
        GroceryModel { name: self.name@, price: self.price@, location: self.location@ }
    }
}

/// Sequence of models of a sequence of groceries.
pub open spec fn grocery_models(s: Seq<Grocery>) -> Seq<GroceryModel> {
    s.map_values(|g: Grocery| g@)
}

/// The list item rendered for one grocery.
pub open spec fn grocery_li(g: GroceryModel) -> Seq<char> {
    "<li>\n    <strong>"@ + g.name + "</strong>\n    can be found in "@ + g.location
        + ":\n    <strong>£"@ + g.price + "</strong>\n</li>"@
}

/// The list items joined by a newline.
pub open spec fn groceries_items(s: Seq<GroceryModel>) -> Seq<char>
    decreases s.len(),
{
    if s.len() == 0 {
        Seq::empty()
    } else if s.len() == 1 {
        grocery_li(s[0])
    } else {
        groceries_items(s.drop_last()) + "\n"@ + grocery_li(s.last())
    }
}

/// The whole fragment: a wrapper element around the items.
pub open spec fn groceries_html(s: Seq<GroceryModel>) -> Seq<char> {
    "<div class=\"groceries\">\n<h1>Fetch json example</h1>\n<ul>"@ + groceries_items(s)
        + "</ul>\n</div>"@
}

/// Appends the list item for one grocery.
fn push_grocery_li(out: &mut Vec<char>, g: &Grocery)
    ensures
        final(out)@ == old(out)@ + grocery_li(g@),
{
    crate::chars::push_str(out, "<li>\n    <strong>");
    crate::chars::push_str(out, g.name.as_str());
    crate::chars::push_str(out, "</strong>\n    can be found in ");
    crate::chars::push_str(out, g.location.as_str());
    crate::chars::push_str(out, ":\n    <strong>£");
    crate::chars::push_str(out, g.price.as_str());
    crate::chars::push_str(out, "</strong>\n</li>");
    proof {
        assert(out@ =~= old(out)@ + grocery_li(g@));
    }
}

/// Builds the HTML fragment for a grocery list.
pub fn groceries_html_exec(list: &Vec<Grocery>) -> (r: Vec<char>)
    ensures
        r@ == groceries_html(grocery_models(list@)),
{
    let ghost m = grocery_models(list@);
    let mut out: Vec<char> = Vec::new();
    crate::chars::push_str(&mut out, "<div class=\"groceries\">\n<h1>Fetch json example</h1>\n<ul>");
    let ghost head = out@;
    let n: usize = list.len();
    let mut i: usize = 0;
    proof {
        assert(out@ =~= head + groceries_items(m.take(0)));
    }
    while i < n
        invariant
            n == list@.len(),
            m == grocery_models(list@),
            i <= n,
            head == "<div class=\"groceries\">\n<h1>Fetch json example</h1>\n<ul>"@,
            out@ == head + groceries_items(m.take(i as int)),
        decreases n - i,
    {
        if i > 0 {
            crate::chars::push_str(&mut out, "\n");
        }
        push_grocery_li(&mut out, &list[i]);
        proof {
            assert(m.take(i + 1).drop_last() =~= m.take(i as int));
            assert(m.take(i + 1).last() == m[i as int]);
            assert(m[i as int] == list@[i as int]@);
            assert(out@ =~= head + groceries_items(m.take(i + 1)));
        }
        i = i + 1;
    }
    crate::chars::push_str(&mut out, "</ul>\n</div>");
    proof {
        assert(m.take(n as int) =~= m);
        assert(out@ =~= groceries_html(m));
    }
    out
}

} // verus!
