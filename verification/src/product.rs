//! The product record and the seed list every handler call starts from.

use vstd::prelude::*;

verus! {

/// One product record. The price is held in cents, so ordering and
/// arithmetic on it are exact.
pub struct Product {
    pub id: Option<u32>,
    pub name: String,
    pub image_url: String,
    pub price_cents: u64,
}

/// Mathematical model of a product: strings as character sequences.
pub struct ProductModel {
    pub id: Option<u32>,
    pub name: Seq<char>,
    pub image_url: Seq<char>,
    pub price_cents: u64,
}

impl View for Product {
    type V = ProductModel;

    open spec fn view(&self) -> ProductModel {
        ProductModel {
            id: self.id,
            name: self.name@,
            image_url: self.image_url@,
            price_cents: self.price_cents,
        }
    }
}

/// The seed list, as a model sequence.
pub open spec fn seed_model() -> Seq<ProductModel> {
    seq![
        ProductModel {
            id: Some(1u32),
            name: "Lorem ipsum dolor"@,
            image_url: "https://picsum.photos/210/300"@,
            price_cents: 3999u64,
        },
        ProductModel {
            id: Some(2u32),
            name: "Donec rutrum dui"@,
            image_url: "https://picsum.photos/220/300"@,
            price_cents: 5999u64,
        },
        ProductModel {
            id: Some(3u32),
            name: "Mauris imperdiet massa"@,
            image_url: "https://picsum.photos/230/300"@,
            price_cents: 2999u64,
        },
        ProductModel {
            id: Some(4u32),
            name: "Sed tristique tellus"@,
            image_url: "https://picsum.photos/240/300"@,
            price_cents: 999u64,
        },
        ProductModel {
            id: Some(5u32),
            name: "Vivamus tempus"@,
            image_url: "https://picsum.photos/250/300"@,
            price_cents: 4999u64,
        },
        ProductModel {
            id: Some(6u32),
            name: "Aliquam rutrum viverra"@,
            image_url: "https://picsum.photos/260/300"@,
            price_cents: 1999u64,
        },
    ]
}

/// Builds the seed list afresh; there is no store behind it.
pub fn seed_products() -> (r: Vec<Product>)
    ensures
        crate::product_models(r@) == seed_model(),
{
    let mut v: Vec<Product> = Vec::new();
    v.push(Product {
        id: Some(1),
        name: String::from_str("Lorem ipsum dolor"),
        image_url: String::from_str("https://picsum.photos/210/300"),
        price_cents: 3999,
    });
    v.push(Product {
        id: Some(2),
        name: String::from_str("Donec rutrum dui"),
        image_url: String::from_str("https://picsum.photos/220/300"),
        price_cents: 5999,
    });
    v.push(Product {
        id: Some(3),
        name: String::from_str("Mauris imperdiet massa"),
        image_url: String::from_str("https://picsum.photos/230/300"),
        price_cents: 2999,
    });
    v.push(Product {
        id: Some(4),
        name: String::from_str("Sed tristique tellus"),
        image_url: String::from_str("https://picsum.photos/240/300"),
        price_cents: 999,
    });
    v.push(Product {
        id: Some(5),
        name: String::from_str("Vivamus tempus"),
        image_url: String::from_str("https://picsum.photos/250/300"),
        price_cents: 4999,
    });
    v.push(Product {
        id: Some(6),
        name: String::from_str("Aliquam rutrum viverra"),
        image_url: String::from_str("https://picsum.photos/260/300"),
        price_cents: 1999,
    });
    proof {
        assert(crate::product_models(v@) =~= seed_model());
    }
    v
}

} // verus!
