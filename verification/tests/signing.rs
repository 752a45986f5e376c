use ecpay::check_mac::{compute_check_mac_value, text_to_sign};
use ecpay::digest::digest_text;
use ecpay::encoding::{ecpay_url_encode, ecpay_url_encode_full};
use ecpay::params::ParamMap;
use ecpay::text::decimal_text;

const KEY: &str = "TestHashKey01";
const IV: &str = "TestHashIV02";

fn params(pairs: &[(&str, &str)]) -> ParamMap {
    let mut map = ParamMap::new();
    for (name, value) in pairs {
        map.insert(name.to_string(), value.to_string());
    }
    map
}

#[test]
fn encoding_keeps_letters_digits_and_marks() {
    assert_eq!(ecpay_url_encode("AZaz09-_.!*()~"), "AZaz09-_.!*()~");
    assert_eq!(ecpay_url_encode(""), "");
}

#[test]
fn encoding_escapes_the_rest() {
    assert_eq!(
        ecpay_url_encode("a b~/(x)!*-_.'&=%\u{e9}\u{81fa}"),
        "a+b~%2F(x)!*-_.%27%26%3D%25%C3%A9%E8%87%BA"
    );
    assert_eq!(ecpay_url_encode("+\0\u{7f}"), "%2B%00%7F");
}

#[test]
fn encoding_does_not_undo_escapes_in_its_input() {
    assert_eq!(ecpay_url_encode("%21%7E%252D"), "%2521%257E%25252D");
}

#[test]
fn both_encodings_agree() {
    for text in ["", "a b", "x=1&y=(2)", "100%~", "\u{4fc3}\u{92b7}"] {
        assert_eq!(ecpay_url_encode(text), ecpay_url_encode_full(text));
    }
}

#[test]
fn encoding_is_part_by_part_and_one_to_one() {
    let whole = ecpay_url_encode("left right");
    assert_eq!(whole, format!("{}{}", ecpay_url_encode("left "), ecpay_url_encode("right")));
    assert_ne!(ecpay_url_encode("a b"), ecpay_url_encode("a+b"));
    assert_ne!(ecpay_url_encode("%20"), ecpay_url_encode(" "));
}

#[test]
fn encoding_never_holds_separators() {
    let encoded = ecpay_url_encode("a&b=c?d#e;f,g");
    assert!(!encoded.contains('&') && !encoded.contains('='));
}

#[test]
fn encodings_agree_up_to_case_exactly_where_the_texts_do() {
    let lower = |s: &str| ecpay_url_encode(s).to_ascii_lowercase();
    assert_eq!(lower("AbC /x"), lower("aBc /X"));
    assert_ne!(lower("a/b"), lower("a%2Fb"));
    assert_ne!(lower("\u{c9}"), lower("\u{e9}"));
}

#[test]
fn digest_is_capital_hexadecimal() {
    assert_eq!(digest_text(&[0x00, 0x0f, 0xa5, 0xff]), "000FA5FF");
    assert_eq!(digest_text(&[]), "");
}

#[test]
fn decimal_numbers() {
    assert_eq!(decimal_text(0), "0");
    assert_eq!(decimal_text(9), "9");
    assert_eq!(decimal_text(10), "10");
    assert_eq!(decimal_text(-7), "-7");
    assert_eq!(decimal_text(1_234_567_890), "1234567890");
    assert_eq!(decimal_text(i64::MAX), i64::MAX.to_string());
    assert_eq!(decimal_text(i64::MIN), i64::MIN.to_string());
}

#[test]
fn signed_text_is_sorted_encoded_and_small() {
    let map = params(&[
        ("TradeDesc", "\u{4fc3}\u{92b7}\u{65b9}\u{6848}"),
        ("MerchantID", "2000132"),
        ("b", "x y"),
    ]);
    assert_eq!(
        text_to_sign(&map, KEY, IV),
        "hashkey%3dtesthashkey01%26b%3dx%2by%26merchantid%3d2000132%26tradedesc%3d%25e4%25bf%2583%25e9%258a%25b7%25e6%2596%25b9%25e6%25a1%2588%26hashiv%3dtesthashiv02"
    );
}

#[test]
fn check_value_of_parameters() {
    let map = params(&[
        ("TradeDesc", "\u{4fc3}\u{92b7}\u{65b9}\u{6848}"),
        ("MerchantID", "2000132"),
        ("b", "x y"),
    ]);
    assert_eq!(
        compute_check_mac_value(&map, KEY, IV).unwrap(),
        "CD672489A2241423B9C012E109B20C2195ADBC372CD8D1F402C40BA5EF728F57"
    );
}

#[test]
fn check_value_without_parameters() {
    let map = ParamMap::new();
    assert_eq!(text_to_sign(&map, KEY, IV), "hashkey%3dtesthashkey01%26hashiv%3dtesthashiv02");
    assert_eq!(
        compute_check_mac_value(&map, KEY, IV).unwrap(),
        "815D706C9A275F369E31C4A678669F589F85DC02E6654A9F751ABE9520ACB589"
    );
}

#[test]
fn check_value_is_sixty_four_capital_digits() {
    let map = params(&[("x", "1")]);
    let value = compute_check_mac_value(&map, "", "").unwrap();
    assert_eq!(value.len(), 64);
    assert!(value.chars().all(|c| c.is_ascii_digit() || ('A'..='F').contains(&c)));
}

#[test]
fn check_value_does_not_depend_on_the_order_of_setting() {
    let a = params(&[("MerchantID", "1"), ("Action", "C"), ("TradeNo", "t")]);
    let b = params(&[("TradeNo", "t"), ("MerchantID", "1"), ("Action", "C")]);
    assert_eq!(
        compute_check_mac_value(&a, KEY, IV).unwrap(),
        compute_check_mac_value(&b, KEY, IV).unwrap()
    );
}

#[test]
fn names_that_differ_in_case_keep_their_order() {
    let a = params(&[("b", "1"), ("A", "2"), ("a", "3")]);
    assert_eq!(
        text_to_sign(&a, "k", "v"),
        "hashkey%3dk%26a%3d2%26a%3d3%26b%3d1%26hashiv%3dv"
    );
    let b = params(&[("b", "1"), ("a", "3"), ("A", "2")]);
    assert_eq!(
        text_to_sign(&b, "k", "v"),
        "hashkey%3dk%26a%3d3%26a%3d2%26b%3d1%26hashiv%3dv"
    );
}

#[test]
fn names_beyond_ascii_are_sorted_by_their_small_letters() {
    let map = params(&[
        ("\u{c9}", "1"),
        ("\u{ea}", "2"),
        ("z", "3"),
        ("Z1", "4"),
        ("\u{e9}", "5"),
    ]);
    assert_eq!(
        text_to_sign(&map, "k", "v"),
        "hashkey%3dk%26z%3d3%26z1%3d4%26%25c3%2589%3d1%26%25c3%25a9%3d5%26%25c3%25aa%3d2%26hashiv%3dv"
    );
}

#[test]
fn setting_a_name_anew_replaces_its_value() {
    let mut map = params(&[("x", "1"), ("y", "2")]);
    map.insert("x".to_string(), "3".to_string());
    assert_eq!(text_to_sign(&map, "k", "v"), "hashkey%3dk%26x%3d3%26y%3d2%26hashiv%3dv");
    let fresh = params(&[("x", "3"), ("y", "2")]);
    assert_eq!(
        compute_check_mac_value(&map, KEY, IV).unwrap(),
        compute_check_mac_value(&fresh, KEY, IV).unwrap()
    );
}

#[test]
fn check_value_ignores_the_case_of_ascii_letters() {
    let a = params(&[("name", "Some Value/\u{e9}")]);
    let b = params(&[("name", "sOME vALUE/\u{e9}")]);
    let c = params(&[("name", "Some Value/\u{c9}")]);
    let value = compute_check_mac_value(&a, "Key", "Iv").unwrap();
    assert_eq!(value, compute_check_mac_value(&b, "kEY", "iV").unwrap());
    assert_ne!(value, compute_check_mac_value(&c, "Key", "Iv").unwrap());
}

#[test]
fn check_value_ignores_the_case_of_ascii_names() {
    let a = params(&[("MerchantID", "M1"), ("Action", "C"), ("b_1", "x")]);
    let b = params(&[("mERCHANTid", "m1"), ("aCTION", "c"), ("B_1", "X")]);
    let c = params(&[("B_1", "X"), ("mERCHANTid", "m1"), ("aCTION", "c")]);
    let value = compute_check_mac_value(&a, "Key", "Iv").unwrap();
    assert_eq!(value, compute_check_mac_value(&b, "kEY", "iV").unwrap());
    assert_eq!(value, compute_check_mac_value(&c, "kEY", "iV").unwrap());
}

#[test]
fn check_value_ignores_the_case_of_ascii_letters_in_any_name() {
    let a = params(&[
        ("Caf\u{c9}", "1"),
        ("caf\u{ea}", "2"),
        ("A\u{3a3}", "3"),
        ("\u{3a3}A", "4"),
        ("b\u{3a3}. C", "5"),
    ]);
    let b = params(&[
        ("\u{3a3}a", "4"),
        ("B\u{3a3}. c", "5"),
        ("cAF\u{c9}", "1"),
        ("a\u{3a3}", "3"),
        ("CAF\u{ea}", "2"),
    ]);
    assert_eq!(text_to_sign(&a, "Key", "Iv"), text_to_sign(&b, "kEY", "iV"));
    assert_eq!(
        compute_check_mac_value(&a, "Key", "Iv").unwrap(),
        compute_check_mac_value(&b, "kEY", "iV").unwrap()
    );
}

#[test]
fn signed_text_tells_parameters_up_to_case() {
    let a = params(&[("a", "1"), ("b", "2")]);
    let b = params(&[("A", "1"), ("B", "2")]);
    let c = params(&[("a", "2"), ("b", "1")]);
    let d = params(&[("a", "1")]);
    assert_eq!(text_to_sign(&a, KEY, IV), text_to_sign(&b, KEY, IV));
    assert_ne!(text_to_sign(&a, KEY, IV), text_to_sign(&c, KEY, IV));
    assert_ne!(text_to_sign(&a, KEY, IV), text_to_sign(&d, KEY, IV));
}

#[test]
fn query_text_tells_names_from_values() {
    let a = params(&[("a", "1&b=2")]);
    let b = params(&[("a", "1"), ("b", "2")]);
    assert_ne!(text_to_sign(&a, KEY, IV), text_to_sign(&b, KEY, IV));
}
