use kv_stores::text::{join_strings, split_pair, str_eq, str_less, wrap};

fn names(list: &[&str]) -> Vec<String> {
    list.iter().map(|s| s.to_string()).collect()
}

#[test]
fn str_less_orders_by_code_point() {
    assert!(str_less("kv1", "kv2"));
    assert!(!str_less("kv2", "kv1"));
    assert!(str_less("kv", "kv1"));
    assert!(!str_less("kv1", "kv"));
    assert!(str_less("kv10", "kv2"));
    assert!(str_less("Zed", "apple"));
    assert!(str_less("z", "\u{e9}"));
    assert!(str_less("\u{e9}", "\u{4e2d}"));
    assert!(str_less("\u{ffff}", "\u{10000}"));
}

#[test]
fn str_less_never_puts_a_text_before_itself() {
    assert!(!str_less("", ""));
    assert!(!str_less("kv1", "kv1"));
    assert!(str_less("", "a"));
    assert!(!str_less("a", ""));
}

#[test]
fn str_less_agrees_with_the_order_of_the_standard_library() {
    let samples = ["", "a", "A", "ab", "b", "kv1", "kv10", "kv2", "\u{e9}", "z\u{e9}", "\u{10000}"];
    for a in samples {
        for b in samples {
            assert_eq!(str_less(a, b), a < b);
            assert_eq!(str_eq(a, b), a == b);
        }
    }
}

#[test]
fn str_eq_compares_every_character() {
    assert!(str_eq("", ""));
    assert!(str_eq("shop", "shop"));
    assert!(!str_eq("shop", "shoP"));
    assert!(!str_eq("shop", "shops"));
    assert!(!str_eq("shops", "shop"));
}

#[test]
fn join_strings_puts_the_separator_between_neighbours() {
    assert_eq!(join_strings(&names(&[]), ", "), "");
    assert_eq!(join_strings(&names(&["kv1"]), ", "), "kv1");
    assert_eq!(join_strings(&names(&["kv1", "kv2", "kv3"]), ", "), "kv1, kv2, kv3");
    assert_eq!(join_strings(&names(&["", ""]), "-"), "-");
}

#[test]
fn wrap_writes_three_texts_in_order() {
    assert_eq!(wrap("<", "kv1", ">"), "<kv1>");
    assert_eq!(wrap("", "", ""), "");
}

#[test]
fn split_pair_splits_at_the_first_equals_sign() {
    assert_eq!(split_pair("key=value"), Some(("key".to_string(), "value".to_string())));
    assert_eq!(split_pair("a=b=c"), Some(("a".to_string(), "b=c".to_string())));
    assert_eq!(split_pair("=value"), Some(("".to_string(), "value".to_string())));
    assert_eq!(split_pair("key="), Some(("key".to_string(), "".to_string())));
    assert_eq!(split_pair("="), Some(("".to_string(), "".to_string())));
    assert_eq!(
        split_pair("cl\u{e9}=va\u{4e2d}ue"),
        Some(("cl\u{e9}".to_string(), "va\u{4e2d}ue".to_string()))
    );
    assert_eq!(split_pair("key"), None);
    assert_eq!(split_pair(""), None);
}
