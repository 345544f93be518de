use dom_renderer::dom_string_renderer::render_to_static_markup;
use dom_renderer::dom_string_renderer::render_to_string;
use dom_renderer::node::Node;
use dom_renderer::node::PropValue;
use dom_renderer::node::get_children;
use dom_renderer::number::NumberValue;
use dom_renderer::partial_renderer::DomServerRenderer;
use dom_renderer::partial_renderer::ReadSize;
use dom_renderer::resolver::TableResolver;
use dom_renderer::standard::standard_property_registry;
use dom_renderer::tree_resolver::RenderError;

fn text(s: &str) -> Node {
    Node::Text(String::from(s))
}

fn host(tag: &str, props: Vec<(String, PropValue)>, children: Vec<Node>) -> Node {
    Node::Host { tag: String::from(tag), props, children }
}

fn prop(name: &str, v: PropValue) -> (String, PropValue) {
    (String::from(name), v)
}

fn render_static(root: Node) -> String {
    let reg = standard_property_registry().unwrap();
    render_to_static_markup(reg, TableResolver::new(), root).unwrap()
}

fn render_full(root: Node) -> String {
    let reg = standard_property_registry().unwrap();
    render_to_string(reg, TableResolver::new(), root).unwrap()
}

#[test]
fn void_element_self_closes() {
    assert_eq!(render_static(host("br", vec![], vec![])), "<br/>");
    assert_eq!(render_static(host("div", vec![], vec![])), "<div></div>");
}

#[test]
fn root_marker_only_without_static_markup() {
    let full = render_full(host("div", vec![], vec![]));
    assert_eq!(full, "<div data-reactroot=\"\"></div>");
    let stat = render_static(host("div", vec![], vec![]));
    assert!(!stat.contains("data-reactroot"));
}

#[test]
fn adjacent_text_children_get_a_separator() {
    let out = render_static(host("div", vec![], vec![text("a"), text("b")]));
    assert_eq!(out, "<div>a<!-- -->b</div>");
}

#[test]
fn intervening_element_suppresses_the_separator() {
    let out = render_static(host(
        "div",
        vec![],
        vec![text("a"), host("br", vec![], vec![]), text("b")],
    ));
    assert_eq!(out, "<div>a<br/>b</div>");
}

#[test]
fn single_text_child_is_inlined_and_escaped() {
    let out = render_static(host("p", vec![], vec![text("a<b")]));
    assert_eq!(out, "<p>a&lt;b</p>");
}

#[test]
fn number_child_renders_as_literal() {
    let child = Node::Number(NumberValue { negative: false, int_part: 3, frac: vec![1, 4] });
    let out = render_static(host("p", vec![], vec![child]));
    assert_eq!(out, "<p>3.14</p>");
}

#[test]
fn skipped_leaves_render_as_nothing() {
    let out = render_static(host(
        "div",
        vec![],
        vec![Node::Bool(true), Node::Null, text("x"), Node::Undefined],
    ));
    assert_eq!(out, "<div>x</div>");
}

#[test]
fn fragments_flatten_one_level() {
    let out = render_static(host(
        "div",
        vec![],
        vec![
            text("a"),
            Node::Fragment(vec![text("b"), Node::Null]),
            Node::Bool(false),
            text("c"),
        ],
    ));
    assert_eq!(out, "<div>a<!-- -->b<!-- -->c</div>");
}

#[test]
fn deeply_nested_fragment_is_a_shape_error() {
    let reg = standard_property_registry().unwrap();
    let root = host(
        "div",
        vec![],
        vec![Node::Fragment(vec![Node::Fragment(vec![text("x")])])],
    );
    let err = render_to_static_markup(reg, TableResolver::new(), root).unwrap_err();
    assert_eq!(err, RenderError::InvalidNodeShape);
}

#[test]
fn get_children_splices_and_filters() {
    let flat = get_children(vec![
        text("a"),
        Node::Fragment(vec![text("b"), Node::Null]),
        Node::Bool(true),
        text("c"),
    ]);
    assert_eq!(flat.len(), 4);
    assert!(matches!(flat[0], Node::Text(_)));
    assert!(matches!(flat[2], Node::Null));
}

#[test]
fn attributes_render_inside_the_open_tag() {
    let out = render_static(host(
        "a",
        vec![
            prop("className", PropValue::Text(String::from("link"))),
            prop("href", PropValue::Text(String::from("/x"))),
        ],
        vec![text("go")],
    ));
    assert_eq!(out, "<a class=\"link\" href=\"/x\">go</a>");
}

#[test]
fn style_prop_is_serialized() {
    let style = PropValue::Object(vec![
        (
            String::from("backgroundColor"),
            PropValue::Text(String::from("red")),
        ),
        (
            String::from("margin"),
            PropValue::Number(NumberValue { negative: false, int_part: 4, frac: vec![] }),
        ),
    ]);
    let out = render_static(host("div", vec![prop("style", style)], vec![]));
    assert_eq!(out, "<div style=\"background-color:red;margin:4px\"></div>");
}

#[test]
fn empty_style_object_is_dropped() {
    let style = PropValue::Object(vec![]);
    let out = render_static(host("div", vec![prop("style", style)], vec![]));
    assert_eq!(out, "<div></div>");
}

#[test]
fn inner_markup_takes_priority_over_children() {
    let inner = PropValue::Object(vec![(
        String::from("__html"),
        PropValue::Text(String::from("<b>raw</b>")),
    )]);
    let out = render_static(host(
        "div",
        vec![prop("dangerouslySetInnerHTML", inner)],
        vec![text("ignored")],
    ));
    assert_eq!(out, "<div><b>raw</b></div>");
}

#[test]
fn newline_eating_tags_double_a_leading_newline() {
    let out = render_static(host("pre", vec![], vec![text("\nx")]));
    assert_eq!(out, "<pre>\n\nx</pre>");
    let plain = render_static(host("span", vec![], vec![text("\nx")]));
    assert_eq!(plain, "<span>\nx</span>");
}

#[test]
fn custom_element_renders_custom_attributes() {
    let out = render_static(host(
        "my-widget",
        vec![
            prop("level", PropValue::Text(String::from("3"))),
            prop("bad name", PropValue::Text(String::from("x"))),
        ],
        vec![],
    ));
    assert_eq!(out, "<my-widget level=\"3\"></my-widget>");
}

#[test]
fn composite_resolves_to_its_template() {
    let mut resolver = TableResolver::new();
    resolver.define(2, host("span", vec![], vec![text("hi")]));
    let reg = standard_property_registry().unwrap();
    let root = Node::Composite { component: 2, props: vec![] };
    let out = render_to_static_markup(reg, resolver, root).unwrap();
    assert_eq!(out, "<span>hi</span>");
}

#[test]
fn composite_chain_recurses_to_the_host_leaf() {
    let mut resolver = TableResolver::new();
    resolver.define(1, Node::Composite { component: 2, props: vec![] });
    resolver.define(2, Node::Composite { component: 3, props: vec![] });
    resolver.define(3, host("em", vec![], vec![text("leaf")]));
    let reg = standard_property_registry().unwrap();
    let root = Node::Composite { component: 1, props: vec![] };
    let out = render_to_static_markup(reg, resolver, root).unwrap();
    assert_eq!(out, "<em>leaf</em>");
}

#[test]
fn composite_root_keeps_the_root_marker() {
    let mut resolver = TableResolver::new();
    resolver.define(1, host("div", vec![], vec![]));
    let reg = standard_property_registry().unwrap();
    let root = Node::Composite { component: 1, props: vec![] };
    let out = render_to_string(reg, resolver, root).unwrap();
    assert_eq!(out, "<div data-reactroot=\"\"></div>");
}

#[test]
fn unknown_component_fails_the_render() {
    let reg = standard_property_registry().unwrap();
    let root = Node::Composite { component: 9, props: vec![] };
    let err = render_to_static_markup(reg, TableResolver::new(), root).unwrap_err();
    assert_eq!(err, RenderError::ComponentFailure);
}

#[test]
fn cyclic_component_hits_the_resolve_budget() {
    let mut resolver = TableResolver::new();
    resolver.define(1, Node::Composite { component: 1, props: vec![] });
    let reg = standard_property_registry().unwrap();
    let root = Node::Composite { component: 1, props: vec![] };
    let err = render_to_static_markup(reg, resolver, root).unwrap_err();
    assert_eq!(err, RenderError::ResolveDepthExceeded);
}

#[test]
fn chunked_reads_concatenate_to_the_full_markup() {
    let tree = host(
        "div",
        vec![prop("className", PropValue::Text(String::from("c")))],
        vec![text("one"), host("br", vec![], vec![]), text("two")],
    );
    let expected = {
        let reg = standard_property_registry().unwrap();
        render_to_string(reg, TableResolver::new(), tree).unwrap()
    };
    let tree2 = host(
        "div",
        vec![prop("className", PropValue::Text(String::from("c")))],
        vec![text("one"), host("br", vec![], vec![]), text("two")],
    );
    let reg = standard_property_registry().unwrap();
    let mut renderer = DomServerRenderer::new(reg, TableResolver::new(), tree2, false);
    let mut collected = String::new();
    loop {
        match renderer.read(ReadSize::Size(3)).unwrap() {
            Some(chunk) => collected.push_str(&chunk),
            None => break,
        }
    }
    assert_eq!(collected, expected);
}

#[test]
fn read_after_exhaustion_returns_none() {
    let reg = standard_property_registry().unwrap();
    let mut renderer =
        DomServerRenderer::new(reg, TableResolver::new(), host("br", vec![], vec![]), true);
    let first = renderer.read(ReadSize::Infinity).unwrap();
    assert_eq!(first, Some(String::from("<br/>")));
    assert_eq!(renderer.read(ReadSize::Infinity).unwrap(), None);
    assert_eq!(renderer.read(ReadSize::Size(1)).unwrap(), None);
}

#[test]
fn read_size_ordering() {
    assert!(ReadSize::Size(3) < ReadSize::Infinity);
    assert!(ReadSize::Size(3) < ReadSize::Size(5));
    assert!(ReadSize::Infinity <= ReadSize::Infinity);
    assert!(ReadSize::Infinity > ReadSize::Size(usize::MAX));
}

#[test]
fn svg_subtree_renders_with_namespaced_attributes() {
    let use_el = host(
        "use",
        vec![prop("xlinkHref", PropValue::Text(String::from("#icon")))],
        vec![],
    );
    let out = render_static(host("svg", vec![], vec![use_el]));
    assert_eq!(out, "<svg><use xlink:href=\"#icon\"></use></svg>");
}

#[test]
fn text_root_renders_as_escaped_text() {
    assert_eq!(render_static(text("a<b")), "a&lt;b");
    assert_eq!(render_static(Node::Null), "");
}

#[test]
fn duplicated_tree_renders_identically() {
    let tree = host(
        "div",
        vec![prop("title", PropValue::Text(String::from("t")))],
        vec![text("a"), host("br", vec![], vec![])],
    );
    let copy = dom_renderer::node::dup_node(&tree);
    assert_eq!(render_static(tree), render_static(copy));
}

#[test]
fn zero_size_read_returns_an_empty_chunk() {
    let reg = standard_property_registry().unwrap();
    let mut renderer =
        DomServerRenderer::new(reg, TableResolver::new(), host("div", vec![], vec![]), true);
    let chunk = renderer.read(ReadSize::Size(0)).unwrap().unwrap();
    assert_eq!(chunk, "");
    let rest = renderer.read(ReadSize::Infinity).unwrap().unwrap();
    assert_eq!(rest, "<div></div>");
}

#[test]
fn boolean_data_attribute_renders_its_literal() {
    let out = render_static(host(
        "div",
        vec![prop("data-on", PropValue::Bool(true))],
        vec![],
    ));
    assert_eq!(out, "<div data-on=\"true\"></div>");
}

#[test]
fn null_prop_leaves_no_trace() {
    let out = render_static(host("div", vec![prop("title", PropValue::Null)], vec![]));
    assert_eq!(out, "<div></div>");
}

#[test]
fn ignored_boolean_prop_leaves_no_trace() {
    let out = render_static(host(
        "div",
        vec![prop("hidden", PropValue::Bool(false))],
        vec![],
    ));
    assert_eq!(out, "<div></div>");
}
