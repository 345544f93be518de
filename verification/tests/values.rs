use dom_renderer::number::NumberValue;
use dom_renderer::number::duration_str;
use dom_renderer::node::PropValue;
use dom_renderer::node::to_string;
use dom_renderer::node::not;
use dom_renderer::node::is_nan;
use dom_renderer::strutil::to_ascii_lowercase;
use dom_renderer::strutil::str_eq;
use dom_renderer::escape::escape_html;
use dom_renderer::escape::escape_text_content_for_browser;
use dom_renderer::escape::quote_attribute_value_for_browser;
use dom_renderer::validation::ValidationCache;
use dom_renderer::validation::check_attr_name;
use dom_renderer::validation::check_tag_name;
use dom_renderer::validation::is_attribute_name_safe;
use dom_renderer::validation::validate_dangerous_tag;

fn num(negative: bool, int_part: u64, frac: Vec<u8>) -> NumberValue {
    NumberValue { negative, int_part, frac }
}

#[test]
fn number_literal_integer() {
    assert_eq!(num(false, 10, vec![]).to_literal(), "10");
    assert_eq!(num(false, 0, vec![]).to_literal(), "0");
    assert_eq!(num(false, 1234567890, vec![]).to_literal(), "1234567890");
}

#[test]
fn number_literal_fraction_and_sign() {
    assert_eq!(num(false, 0, vec![5]).to_literal(), "0.5");
    assert_eq!(num(true, 3, vec![2, 5]).to_literal(), "-3.25");
}

#[test]
fn number_is_zero() {
    assert!(num(false, 0, vec![]).is_zero());
    assert!(num(false, 0, vec![0, 0]).is_zero());
    assert!(!num(false, 0, vec![5]).is_zero());
    assert!(!num(false, 2, vec![]).is_zero());
}

#[test]
fn number_trunc() {
    assert_eq!(num(false, 10, vec![5]).trunc_u32(), 10);
    assert_eq!(num(true, 10, vec![5]).trunc_u32(), 0);
    assert_eq!(num(false, 1 << 40, vec![]).trunc_u32(), u32::MAX);
}

#[test]
fn js_to_string_forms() {
    assert_eq!(to_string(&PropValue::Null), "null");
    assert_eq!(to_string(&PropValue::Undefined), "undefined");
    assert_eq!(to_string(&PropValue::Bool(true)), "true");
    assert_eq!(to_string(&PropValue::Bool(false)), "false");
    assert_eq!(to_string(&PropValue::Number(num(false, 7, vec![]))), "7");
    assert_eq!(to_string(&PropValue::Text(String::from("hi"))), "hi");
    assert_eq!(to_string(&PropValue::Object(vec![])), "[object Object]");
}

#[test]
fn falsiness() {
    assert!(not(&PropValue::Null));
    assert!(not(&PropValue::Undefined));
    assert!(not(&PropValue::Bool(false)));
    assert!(!not(&PropValue::Bool(true)));
    assert!(not(&PropValue::Number(num(false, 0, vec![]))));
    assert!(!not(&PropValue::Number(num(false, 1, vec![]))));
    assert!(not(&PropValue::Text(String::new())));
    assert!(!not(&PropValue::Text(String::from("x"))));
    assert!(!not(&PropValue::Object(vec![])));
}

#[test]
fn nan_is_everything_but_numbers() {
    assert!(!is_nan(&PropValue::Number(num(false, 1, vec![]))));
    assert!(is_nan(&PropValue::Text(String::from("1"))));
    assert!(is_nan(&PropValue::Null));
}

#[test]
fn escape_covers_exactly_the_five() {
    assert_eq!(escape_html("a<b>&'\""), "a&lt;b&gt;&amp;&#x27;&quot;");
    assert_eq!(escape_html("plain text 123"), "plain text 123");
    assert_eq!(escape_html(""), "");
}

#[test]
fn quote_escapes_and_wraps() {
    let v = PropValue::Text(String::from("a\"b"));
    assert_eq!(quote_attribute_value_for_browser(&v), "\"a&quot;b\"");
}

#[test]
fn escaped_text_content_keeps_number_and_bool_literals() {
    assert_eq!(
        escape_text_content_for_browser(&PropValue::Number(num(false, 4, vec![2]))),
        "4.2"
    );
    assert_eq!(escape_text_content_for_browser(&PropValue::Bool(true)), "true");
    assert_eq!(
        escape_text_content_for_browser(&PropValue::Text(String::from("<x>"))),
        "&lt;x&gt;"
    );
}

#[test]
fn attribute_name_grammar() {
    assert!(check_attr_name("data-foo"));
    assert!(check_attr_name(":ns:attr"));
    assert!(check_attr_name("_x"));
    assert!(!check_attr_name(""));
    assert!(!check_attr_name("2bad"));
    assert!(!check_attr_name("has space"));
    assert!(!check_attr_name("a=b"));
}

#[test]
fn tag_name_grammar() {
    assert!(check_tag_name("div"));
    assert!(check_tag_name("my-widget"));
    assert!(check_tag_name("a1:b.c_d"));
    assert!(!check_tag_name("1div"));
    assert!(!check_tag_name("-x"));
    assert!(!check_tag_name(""));
}

#[test]
fn attribute_cache_is_idempotent() {
    let mut cache = ValidationCache::new();
    assert!(cache.is_valid_attribute_name("data-x"));
    assert!(cache.is_valid_attribute_name("data-x"));
    assert!(!cache.is_valid_attribute_name("9no"));
    assert!(!cache.is_valid_attribute_name("9no"));
    assert!(cache.is_valid_attribute_name("data-x"));
    assert!(is_attribute_name_safe(&mut cache, "aria-label"));
    assert!(!is_attribute_name_safe(&mut cache, "bad name"));
}

#[test]
fn tag_cache_is_idempotent() {
    let mut cache = ValidationCache::new();
    assert!(cache.is_valid_tag_name("div"));
    assert!(cache.is_valid_tag_name("div"));
    assert!(!validate_dangerous_tag(&mut cache, "<script"));
    assert!(validate_dangerous_tag(&mut cache, "span"));
}

#[test]
fn ascii_lowercase_and_equality() {
    assert_eq!(to_ascii_lowercase("DiV"), "div");
    assert_eq!(to_ascii_lowercase("foreignObject"), "foreignobject");
    assert!(str_eq("abc", "abc"));
    assert!(!str_eq("abc", "abd"));
    assert!(!str_eq("abc", "ab"));
}

#[test]
fn duration_formatting() {
    assert_eq!(duration_str(2, 1_500_000), "2s1.500ms");
    assert_eq!(duration_str(0, 999_999_999), "999.999ms");
    assert_eq!(duration_str(3, 0), "3s");
    assert_eq!(duration_str(0, 0), "");
}

#[test]
fn quoting_is_a_pure_function_of_its_input() {
    let v = PropValue::Text(String::from("a&b"));
    let first = quote_attribute_value_for_browser(&v);
    let second = quote_attribute_value_for_browser(&v);
    assert_eq!(first, "\"a&amp;b\"");
    assert_eq!(first, second);
}
