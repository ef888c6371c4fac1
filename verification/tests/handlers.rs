use arp_skeleton::groceries::Grocery;
use arp_skeleton::{about, free, groceries, products_get, products_post, routes};

fn hdrs(pairs: &[(&str, &str)]) -> Vec<(String, String)> {
    pairs.iter().map(|p| (p.0.to_string(), p.1.to_string())).collect()
}

fn get_products(query: &str) -> Option<String> {
    let h = hdrs(&[("x-raw-query", query)]);
    let body = String::new();
    products_get(Some(&h), Some(&body))
}

fn parsed(out: &str) -> serde_json::Value {
    serde_json::from_str(out).expect("output must be valid JSON")
}

#[test]
fn routes_is_valid_json_array_of_handlers() {
    let out = routes();
    let v = parsed(&out);
    let arr = v.as_array().expect("routes() must be a JSON array");
    assert_eq!(arr.len(), 4);
    let implemented = ["groceries", "products_get", "products_post", "about"];
    for entry in arr {
        let f = entry["function"].as_str().expect("function must be a string");
        assert!(implemented.contains(&f), "unknown handler name {}", f);
    }
}

#[test]
fn routes_exact_text() {
    let expected = "[\n  {\n    \"path\": \"/groceries\",\n    \"function\": \"groceries\",\n    \"method_router\": \"post\",\n    \"response_type\": \"html\"\n  },\n  {\n    \"path\": \"/products\",\n    \"function\": \"products_get\",\n    \"method_router\": \"get\",\n    \"response_type\": \"json\"\n  },\n  {\n    \"path\": \"/products\",\n    \"function\": \"products_post\",\n    \"method_router\": \"post\",\n    \"response_type\": \"json\"\n  },\n  {\n    \"path\": \"/about\",\n    \"function\": \"about\",\n    \"method_router\": \"get\",\n    \"response_type\": \"text\"\n  }\n]";
    assert_eq!(routes(), expected);
}

#[test]
fn products_get_every_limit_in_range() {
    let seed_names = [
        "Lorem ipsum dolor",
        "Donec rutrum dui",
        "Mauris imperdiet massa",
        "Sed tristique tellus",
        "Vivamus tempus",
        "Aliquam rutrum viverra",
    ];
    for limit in 0..=6usize {
        let out = get_products(&format!("limit={}", limit)).unwrap();
        let v = parsed(&out);
        let arr = v.as_array().unwrap();
        assert_eq!(arr.len(), limit);
        assert!(arr.len() <= 6);
        for entry in arr {
            let name = entry["name"].as_str().unwrap();
            assert!(seed_names.contains(&name));
        }
    }
}

#[test]
fn products_get_default_limit_is_four() {
    let out = get_products("").unwrap();
    let v = parsed(&out);
    assert_eq!(v.as_array().unwrap().len(), 4);
}

#[test]
fn products_get_limit_clamped_to_seed_size() {
    let out = get_products("limit=100").unwrap();
    let v = parsed(&out);
    assert_eq!(v.as_array().unwrap().len(), 6);
}

#[test]
fn products_get_negative_limit_clamps_to_empty() {
    let out = get_products("limit=-1").unwrap();
    assert_eq!(out, "[]");
}

#[test]
fn products_get_sorted_by_name() {
    let out = get_products("limit=6&orderby=name").unwrap();
    let v = parsed(&out);
    let names: Vec<&str> = v.as_array().unwrap().iter().map(|e| e["name"].as_str().unwrap()).collect();
    let mut sorted = names.clone();
    sorted.sort();
    assert_eq!(names, sorted);
}

#[test]
fn products_get_sorted_by_price() {
    let out = get_products("limit=6&orderby=price").unwrap();
    let v = parsed(&out);
    let prices: Vec<f64> = v.as_array().unwrap().iter().map(|e| e["price"].as_f64().unwrap()).collect();
    assert_eq!(prices, vec![9.99, 19.99, 29.99, 39.99, 49.99, 59.99]);
}

#[test]
fn products_get_unknown_orderby_falls_back_to_id() {
    let out = get_products("limit=6&orderby=weight").unwrap();
    let v = parsed(&out);
    let ids: Vec<u64> = v.as_array().unwrap().iter().map(|e| e["id"].as_u64().unwrap()).collect();
    assert_eq!(ids, vec![1, 2, 3, 4, 5, 6]);
}

#[test]
fn products_get_three_cheapest() {
    let out = get_products("limit=3&orderby=price").unwrap();
    let expected = "[{\"id\":4,\"name\":\"Sed tristique tellus\",\"image_url\":\"https://picsum.photos/240/300\",\"price\":9.99},{\"id\":6,\"name\":\"Aliquam rutrum viverra\",\"image_url\":\"https://picsum.photos/260/300\",\"price\":19.99},{\"id\":3,\"name\":\"Mauris imperdiet massa\",\"image_url\":\"https://picsum.photos/230/300\",\"price\":29.99}]";
    assert_eq!(out, expected);
}

#[test]
fn products_get_percent_decoding() {
    let out = get_products("limit=6&orderby=pr%69ce").unwrap();
    let v = parsed(&out);
    let prices: Vec<f64> = v.as_array().unwrap().iter().map(|e| e["price"].as_f64().unwrap()).collect();
    assert_eq!(prices, vec![9.99, 19.99, 29.99, 39.99, 49.99, 59.99]);
}

#[test]
fn products_get_malformed_limit_is_error_payload() {
    let out = get_products("limit=abc").unwrap();
    assert_eq!(out, "{\"error\": \"Malformed query string\"}");
}

#[test]
fn products_get_duplicate_key_is_error_payload() {
    let out = get_products("limit=1&limit=2").unwrap();
    assert_eq!(out, "{\"error\": \"Malformed query string\"}");
}

#[test]
fn products_get_missing_query_header_means_defaults() {
    let h = hdrs(&[("accept", "application/json")]);
    let body = String::new();
    let out = products_get(Some(&h), Some(&body)).unwrap();
    let v = parsed(&out);
    assert_eq!(v.as_array().unwrap().len(), 4);
}

#[test]
fn products_get_header_lookup_is_case_insensitive() {
    let h = hdrs(&[("X-Raw-Query", "limit=2")]);
    let body = String::new();
    let out = products_get(Some(&h), Some(&body)).unwrap();
    let v = parsed(&out);
    assert_eq!(v.as_array().unwrap().len(), 2);
}

#[test]
fn products_post_appends_product() {
    let h = hdrs(&[("content-type", "application/json")]);
    let body = "{\"name\":\"X\",\"image_url\":\"u\",\"price\":1.0}".to_string();
    let out = products_post(Some(&h), Some(&body)).unwrap();
    let v = parsed(&out);
    let arr = v.as_array().unwrap();
    assert_eq!(arr.len(), 7);
    let last = &arr[6];
    assert_eq!(last["id"].as_u64().unwrap(), 6);
    assert_eq!(last["name"].as_str().unwrap(), "X");
    assert_eq!(last["price"].as_f64().unwrap(), 1.0);
}

#[test]
fn products_post_accepts_any_field_order_and_null_id() {
    let h = hdrs(&[("content-type", "application/json")]);
    let body = " { \"price\" : 2.5 , \"id\" : null , \"name\" : \"Y\" , \"image_url\" : \"v\" } ".to_string();
    let out = products_post(Some(&h), Some(&body)).unwrap();
    let v = parsed(&out);
    let arr = v.as_array().unwrap();
    assert_eq!(arr.len(), 7);
    assert_eq!(arr[6]["name"].as_str().unwrap(), "Y");
    assert_eq!(arr[6]["id"].as_u64().unwrap(), 6);
    assert_eq!(arr[6]["price"].as_f64().unwrap(), 2.5);
}

#[test]
fn products_post_decodes_string_escapes() {
    let h = hdrs(&[("content-type", "application/json")]);
    let body = "{\"name\":\"a\\\"b\\\\c\",\"image_url\":\"u\",\"price\":0.5}".to_string();
    let out = products_post(Some(&h), Some(&body)).unwrap();
    let v = parsed(&out);
    assert_eq!(v.as_array().unwrap()[6]["name"].as_str().unwrap(), "a\"b\\c");
}

#[test]
fn products_post_ignores_unknown_fields() {
    let h = hdrs(&[("content-type", "application/json")]);
    let body = "{\"name\":\"X\",\"note\":{\"a\":[1, 2.5, {\"b\":\"c\"}], \"d\":-1.5e3},\"image_url\":\"u\",\"price\":1.0,\"extra\":true,\"more\":null,\"tag\":\"zz\"}".to_string();
    let out = products_post(Some(&h), Some(&body)).unwrap();
    let v = parsed(&out);
    let arr = v.as_array().unwrap();
    assert_eq!(arr.len(), 7);
    assert_eq!(arr[6]["name"].as_str().unwrap(), "X");
    assert_eq!(arr[6]["id"].as_u64().unwrap(), 6);
}

#[test]
fn products_post_decodes_unicode_escapes() {
    let h = hdrs(&[("content-type", "application/json")]);
    let body = "{\"name\":\"\\u0041\\u00e9\\u20ac\",\"image_url\":\"u\",\"price\":1.0}".to_string();
    let out = products_post(Some(&h), Some(&body)).unwrap();
    let v = parsed(&out);
    assert_eq!(v.as_array().unwrap()[6]["name"].as_str().unwrap(), "A\u{e9}\u{20ac}");
}

#[test]
fn products_post_surrogate_escape_is_error_payload() {
    let h = hdrs(&[("content-type", "application/json")]);
    let body = "{\"name\":\"\\ud83d\\ude00\",\"image_url\":\"u\",\"price\":1.0}".to_string();
    let out = products_post(Some(&h), Some(&body)).unwrap();
    assert_eq!(out, "{\"error\": \"Malformed product\"}");
}

#[test]
fn products_post_wrong_content_type_is_error_payload() {
    let h = hdrs(&[("content-type", "text/plain")]);
    let body = "this is not even json".to_string();
    let out = products_post(Some(&h), Some(&body)).unwrap();
    assert_eq!(out, "{\"error\": \"Invalid content type: text/plain\"}");
}

#[test]
fn products_post_missing_content_type_is_error_payload() {
    let h = hdrs(&[("accept", "application/json")]);
    let body = "{}".to_string();
    let out = products_post(Some(&h), Some(&body)).unwrap();
    assert_eq!(out, "{\"error\": \"No content type\"}");
}

#[test]
fn products_post_malformed_body_is_error_payload() {
    let h = hdrs(&[("content-type", "application/json")]);
    for body in ["", "{}", "{\"name\":\"X\"}", "[1,2]", "{\"name\":\"X\",\"image_url\":\"u\",\"price\":1.0} trailing"] {
        let body = body.to_string();
        let out = products_post(Some(&h), Some(&body)).unwrap();
        assert_eq!(out, "{\"error\": \"Malformed product\"}");
    }
}

#[test]
fn products_post_duplicate_field_is_error_payload() {
    let h = hdrs(&[("content-type", "application/json")]);
    let body = "{\"name\":\"X\",\"name\":\"Z\",\"image_url\":\"u\",\"price\":1.0}".to_string();
    let out = products_post(Some(&h), Some(&body)).unwrap();
    assert_eq!(out, "{\"error\": \"Malformed product\"}");
}

#[test]
fn about_exact_text() {
    let h = hdrs(&[]);
    let body = String::new();
    let out = about(Some(&h), Some(&body)).unwrap();
    let expected = "Name: arp-skeleton\nVersion: 0.1.0\nauthors = \"Henrique Dias <mrhdias@gmail.com>\"\nDescription: Shared library skeleton\nLicense: MIT";
    assert_eq!(out, expected);
}

#[test]
fn groceries_renders_fragment() {
    let h = hdrs(&[]);
    let body = String::new();
    let items = vec![
        Grocery { name: "Apple".to_string(), price: "0.5".to_string(), location: "aisle 3".to_string() },
        Grocery { name: "Bread".to_string(), price: "1.2".to_string(), location: "bakery".to_string() },
    ];
    let out = groceries(Some(&h), Some(&body), Some(&items)).unwrap();
    let expected = "<div class=\"groceries\">\n<h1>Fetch json example</h1>\n<ul><li>\n    <strong>Apple</strong>\n    can be found in aisle 3:\n    <strong>\u{a3}0.5</strong>\n</li>\n<li>\n    <strong>Bread</strong>\n    can be found in bakery:\n    <strong>\u{a3}1.2</strong>\n</li></ul>\n</div>";
    assert_eq!(out, expected);
}

#[test]
fn groceries_failed_fetch_is_error_payload() {
    let h = hdrs(&[]);
    let body = String::new();
    let out = groceries(Some(&h), Some(&body), None).unwrap();
    assert_eq!(out, "{\"error\": \"The grocery list could not be fetched\"}");
}

#[test]
fn free_with_absent_handle_is_noop() {
    free(None);
    free(Some("a buffer".to_string()));
}

#[test]
fn null_handles_yield_sentinel() {
    let h = hdrs(&[]);
    let body = String::new();
    assert!(products_get(None, Some(&body)).is_none());
    assert!(products_get(Some(&h), None).is_none());
    assert!(products_post(None, Some(&body)).is_none());
    assert!(products_post(Some(&h), None).is_none());
    assert!(about(None, Some(&body)).is_none());
    assert!(about(Some(&h), None).is_none());
    assert!(groceries(None, Some(&body), Some(&Vec::new())).is_none());
    assert!(groceries(Some(&h), None, Some(&Vec::new())).is_none());
}
