use dom_renderer::css::StyleNameCache;
use dom_renderer::css::dangerous_style_value;
use dom_renderer::css::hyphenate;
use dom_renderer::css::hyphenate_style_name;
use dom_renderer::css::is_unitless_property;
use dom_renderer::css::prefix_key;
use dom_renderer::css::trim_str;
use dom_renderer::dom_namespaces::DomNamespace;
use dom_renderer::dom_namespaces::get_child_namespace;
use dom_renderer::dom_namespaces::get_intrinsic_namespace;
use dom_renderer::dom_namespaces::namespace_uri;
use dom_renderer::dom_property::DomPropertyConfig;
use dom_renderer::dom_property::PropertyRegistry;
use dom_renderer::dom_property::check_mask;
use dom_renderer::dom_property::get_property_info;
use dom_renderer::dom_property::inject_dom_property_config;
use dom_renderer::dom_property::is_reserved_prop;
use dom_renderer::dom_property::should_attribute_accept_boolean_value;
use dom_renderer::dom_property::should_set_attribute;
use dom_renderer::dom_property::HAS_BOOLEAN_VALUE;
use dom_renderer::dom_property::HAS_NUMERIC_VALUE;
use dom_renderer::markup::create_markup_for_custom_attribute;
use dom_renderer::markup::create_markup_for_id;
use dom_renderer::markup::create_markup_for_property;
use dom_renderer::markup::create_markup_for_root;
use dom_renderer::markup::create_markup_for_styles;
use dom_renderer::markup::is_customer_component;
use dom_renderer::markup::is_newline_eating_tag;
use dom_renderer::markup::is_omitted_close_tag;
use dom_renderer::node::PropValue;
use dom_renderer::number::NumberValue;
use dom_renderer::standard::standard_property_registry;
use dom_renderer::svg_config::camelize;
use dom_renderer::validation::ValidationCache;

fn whole(n: u64) -> PropValue {
    PropValue::Number(NumberValue { negative: false, int_part: n, frac: vec![] })
}

fn frac(int_part: u64, digits: Vec<u8>) -> PropValue {
    PropValue::Number(NumberValue { negative: false, int_part, frac: digits })
}

fn text(s: &str) -> PropValue {
    PropValue::Text(String::from(s))
}

#[test]
fn hyphenation() {
    assert_eq!(hyphenate("backgroundColor"), "background-color");
    assert_eq!(hyphenate_style_name("backgroundColor"), "background-color");
    assert_eq!(hyphenate_style_name("MozTransition"), "-moz-transition");
    assert_eq!(hyphenate_style_name("msTransition"), "-ms-transition");
    assert_eq!(hyphenate_style_name("--custom"), "--custom");
}

#[test]
fn prefixing() {
    assert_eq!(prefix_key("Webkit", "opacity"), "WebkitOpacity");
    assert_eq!(prefix_key("ms", "lineClamp"), "msLineClamp");
    assert_eq!(prefix_key("O", ""), "O");
}

#[test]
fn camelization() {
    assert_eq!(camelize("stroke-width"), "strokeWidth");
    assert_eq!(camelize("xlink:href"), "xlinkHref");
    assert_eq!(camelize("accent-height"), "accentHeight");
    assert_eq!(camelize("plain"), "plain");
}

#[test]
fn unitless_set_with_prefixes() {
    assert!(is_unitless_property("opacity"));
    assert!(is_unitless_property("lineClamp"));
    assert!(is_unitless_property("WebkitLineClamp"));
    assert!(is_unitless_property("msFlex"));
    assert!(!is_unitless_property("margin"));
    assert!(!is_unitless_property("width"));
}

#[test]
fn trimming() {
    assert_eq!(trim_str("  a b \t\n"), "a b");
    assert_eq!(trim_str("x"), "x");
    assert_eq!(trim_str("   "), "");
}

#[test]
fn style_value_formatting() {
    assert_eq!(dangerous_style_value("margin", &whole(10), false), "10px");
    assert_eq!(dangerous_style_value("margin", &whole(0), false), "0");
    assert_eq!(dangerous_style_value("margin", &frac(10, vec![5]), false), "10px");
    assert_eq!(dangerous_style_value("opacity", &frac(0, vec![5]), false), "0.5");
    assert_eq!(dangerous_style_value("--x", &whole(5), true), "5");
    assert_eq!(dangerous_style_value("color", &text("  red  "), false), "red");
    assert_eq!(dangerous_style_value("color", &text(""), false), "");
    assert_eq!(dangerous_style_value("color", &PropValue::Bool(true), false), "");
    assert_eq!(dangerous_style_value("color", &PropValue::Null, false), "");
}

#[test]
fn styles_markup_units() {
    let mut cache = StyleNameCache::new();
    let styles = vec![
        (String::from("opacity"), frac(0, vec![5])),
        (String::from("margin"), whole(10)),
        (String::from("--x"), whole(5)),
    ];
    let out = create_markup_for_styles(&mut cache, &styles);
    assert_eq!(out, Some(String::from("opacity:0.5;margin:10px;--x:5")));
}

#[test]
fn styles_markup_zero_keeps_no_suffix() {
    let mut cache = StyleNameCache::new();
    let styles = vec![(String::from("margin"), whole(0))];
    let out = create_markup_for_styles(&mut cache, &styles).unwrap();
    assert!(out.contains("margin:0"));
    assert!(!out.contains("px"));
}

#[test]
fn styles_markup_skips_null_and_hyphenates() {
    let mut cache = StyleNameCache::new();
    let styles = vec![
        (String::from("backgroundColor"), text("red")),
        (String::from("border"), PropValue::Null),
        (String::from("zIndex"), whole(3)),
    ];
    let out = create_markup_for_styles(&mut cache, &styles);
    assert_eq!(out, Some(String::from("background-color:red;z-index:3")));
}

#[test]
fn styles_markup_empty_gives_none() {
    let mut cache = StyleNameCache::new();
    let styles: Vec<(String, PropValue)> = vec![];
    assert_eq!(create_markup_for_styles(&mut cache, &styles), None);
    let all_null = vec![(String::from("color"), PropValue::Null)];
    assert_eq!(create_markup_for_styles(&mut cache, &all_null), None);
}

#[test]
fn registry_lookup_and_overrides() {
    let reg = standard_property_registry().unwrap();
    let class = get_property_info(&reg, "className").unwrap();
    assert_eq!(class.attribute_name, "class");
    let html_for = get_property_info(&reg, "htmlFor").unwrap();
    assert_eq!(html_for.attribute_name, "for");
    let disabled = get_property_info(&reg, "disabled").unwrap();
    assert!(disabled.has_boolean_value);
    let xlink = get_property_info(&reg, "xlinkHref").unwrap();
    assert_eq!(xlink.attribute_name, "xlink:href");
    assert_eq!(
        xlink.attribute_namespace.as_deref(),
        Some("http://www.w3.org/1999/xlink")
    );
    assert!(get_property_info(&reg, "notAThing").is_none());
}

#[test]
fn registry_rejects_duplicates() {
    let mut reg = PropertyRegistry::new();
    let config = DomPropertyConfig {
        properties: vec![
            (String::from("alpha"), 0u32),
            (String::from("alpha"), HAS_BOOLEAN_VALUE),
        ],
        dom_attribute_names: vec![],
        dom_attribute_namespaces: vec![],
    };
    assert!(!inject_dom_property_config(&mut reg, &config));
    assert!(get_property_info(&reg, "alpha").is_none());
}

#[test]
fn registry_rejects_conflicting_flags() {
    let mut reg = PropertyRegistry::new();
    let config = DomPropertyConfig {
        properties: vec![(String::from("beta"), HAS_BOOLEAN_VALUE | HAS_NUMERIC_VALUE)],
        dom_attribute_names: vec![],
        dom_attribute_namespaces: vec![],
    };
    assert!(!inject_dom_property_config(&mut reg, &config));
}

#[test]
fn masks_and_reserved_props() {
    assert!(check_mask(0x5, 0x4));
    assert!(!check_mask(0x2, 0x4));
    assert!(is_reserved_prop("children"));
    assert!(is_reserved_prop("style"));
    assert!(!is_reserved_prop("title"));
}

#[test]
fn boolean_acceptance() {
    let reg = standard_property_registry().unwrap();
    assert!(should_attribute_accept_boolean_value(&reg, "disabled"));
    assert!(should_attribute_accept_boolean_value(&reg, "data-on"));
    assert!(should_attribute_accept_boolean_value(&reg, "ARIA-hidden"));
    assert!(!should_attribute_accept_boolean_value(&reg, "title"));
    assert!(should_attribute_accept_boolean_value(&reg, "children"));
}

#[test]
fn attribute_admission() {
    let reg = standard_property_registry().unwrap();
    assert!(!should_set_attribute(&reg, "children", &text("x")));
    assert!(!should_set_attribute(&reg, "onClick", &text("x")));
    assert!(!should_set_attribute(&reg, "ONmouseup", &text("x")));
    assert!(should_set_attribute(&reg, "on", &text("x")));
    assert!(should_set_attribute(&reg, "title", &text("x")));
    assert!(should_set_attribute(&reg, "data-on", &PropValue::Bool(true)));
    assert!(!should_set_attribute(&reg, "title", &PropValue::Bool(true)));
}

#[test]
fn property_markup_forms() {
    let reg = standard_property_registry().unwrap();
    assert_eq!(
        create_markup_for_property(&reg, "className", &text("box")),
        Some(String::from("class=\"box\""))
    );
    assert_eq!(
        create_markup_for_property(&reg, "disabled", &PropValue::Bool(true)),
        Some(String::from("disabled=\"\""))
    );
    assert_eq!(
        create_markup_for_property(&reg, "disabled", &PropValue::Bool(false)),
        Some(String::new())
    );
    assert_eq!(
        create_markup_for_property(&reg, "download", &PropValue::Bool(true)),
        Some(String::from("download=\"\""))
    );
    assert_eq!(
        create_markup_for_property(&reg, "download", &PropValue::Bool(false)),
        Some(String::new())
    );
    assert_eq!(
        create_markup_for_property(&reg, "rowSpan", &text("3")),
        Some(String::new())
    );
    assert_eq!(
        create_markup_for_property(&reg, "cols", &whole(0)),
        Some(String::new())
    );
    assert_eq!(
        create_markup_for_property(&reg, "cols", &whole(4)),
        Some(String::from("cols=\"4\""))
    );
    assert_eq!(
        create_markup_for_property(&reg, "title", &text("a&b")),
        Some(String::from("title=\"a&amp;b\""))
    );
    assert_eq!(create_markup_for_property(&reg, "onClick", &text("x")), None);
    assert_eq!(
        create_markup_for_property(&reg, "title", &PropValue::Null),
        Some(String::new())
    );
}

#[test]
fn custom_attribute_markup() {
    let mut cache = ValidationCache::new();
    assert_eq!(
        create_markup_for_custom_attribute(&mut cache, "x-data", &text("1")),
        "x-data=\"1\""
    );
    assert_eq!(
        create_markup_for_custom_attribute(&mut cache, "bad name", &text("1")),
        ""
    );
    assert_eq!(
        create_markup_for_custom_attribute(&mut cache, "x-data", &PropValue::Null),
        ""
    );
}

#[test]
fn root_and_id_markup() {
    assert_eq!(create_markup_for_root(), "data-reactroot=\"\"");
    assert_eq!(create_markup_for_id(&text("a<b")), "data-reactid=\"a&lt;b\"");
}

#[test]
fn custom_component_detection() {
    let bag = PropValue::Object(vec![]);
    assert!(is_customer_component("my-widget", &bag));
    assert!(!is_customer_component("font-face", &bag));
    assert!(!is_customer_component("annotation-xml", &bag));
    assert!(!is_customer_component("div", &bag));
    assert!(is_customer_component("div", &text("s")));
}

#[test]
fn tag_sets() {
    assert!(is_omitted_close_tag("br"));
    assert!(is_omitted_close_tag("img"));
    assert!(!is_omitted_close_tag("div"));
    assert!(is_newline_eating_tag("pre"));
    assert!(is_newline_eating_tag("textarea"));
    assert!(!is_newline_eating_tag("span"));
}

#[test]
fn namespace_propagation() {
    assert_eq!(get_intrinsic_namespace("svg"), DomNamespace::Svg);
    assert_eq!(get_intrinsic_namespace("math"), DomNamespace::MathMl);
    assert_eq!(get_intrinsic_namespace("div"), DomNamespace::Html);
    assert_eq!(get_child_namespace(None, "svg"), DomNamespace::Svg);
    assert_eq!(
        get_child_namespace(Some(DomNamespace::Html), "math"),
        DomNamespace::MathMl
    );
    assert_eq!(
        get_child_namespace(Some(DomNamespace::Svg), "foreignObject"),
        DomNamespace::Html
    );
    assert_eq!(
        get_child_namespace(Some(DomNamespace::Svg), "rect"),
        DomNamespace::Svg
    );
    assert_eq!(namespace_uri(DomNamespace::Svg), "http://www.w3.org/2000/svg");
}
