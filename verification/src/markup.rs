//! The markup encoder: attribute, style and open-tag fragments.

use vstd::prelude::*;
use vstd::string::StrSliceExecFns;
use vstd::string::StringExecFns;
use crate::strutil::str_eq;
use crate::escape::escape_seq;
use crate::escape::quoted_value;
use crate::escape::quote_attribute_value_for_browser;
use crate::number::number_literal;
use crate::node::PropValue;
use crate::node::PropValueV;
use crate::node::NodeV;
use crate::node::Node;
use crate::node::js_string;
use crate::node::js_falsy;
use crate::node::values_view;
use crate::node::nodes_view;
use crate::node::lemma_values_view_elems;
use crate::node::lemma_nodes_view_elems;
use crate::node::to_string;
use crate::css::StyleNameCache;
use crate::css::hyphenate_style_seq;
use crate::css::process_style_name;
use crate::css::style_value_text;
use crate::css::dangerous_style_value;
use crate::dom_property::PropertyRegistry;
use crate::dom_property::PropertyInfoV;
use crate::dom_property::get_property_info;
use crate::dom_property::should_set;
use crate::dom_property::should_set_attribute;
use crate::dom_property::accepts_boolean;
use crate::dom_property::should_attribute_accept_boolean_value;
use crate::validation::ValidationCache;
use crate::validation::attr_name_valid;
use crate::validation::is_attribute_name_safe;

verus! {

/// Whether a tag has no closing form and self-closes at open time.
pub open spec fn omitted_close_tag(tag: Seq<char>) -> bool {
    ||| tag == "area"@
    ||| tag == "base"@
    ||| tag == "br"@
    ||| tag == "col"@
    ||| tag == "embed"@
    ||| tag == "hr"@
    ||| tag == "img"@
    ||| tag == "input"@
    ||| tag == "keygen"@
    ||| tag == "link"@
    ||| tag == "meta"@
    ||| tag == "param"@
    ||| tag == "source"@
    ||| tag == "track"@
    ||| tag == "wbr"@
}

/// Tests a tag against the omitted-close set.
pub fn is_omitted_close_tag(tag: &str) -> (r: bool)
    ensures
        r == omitted_close_tag(tag@),
{
    str_eq(tag, "area") || str_eq(tag, "base") || str_eq(tag, "br") || str_eq(tag, "col")
        || str_eq(tag, "embed") || str_eq(tag, "hr") || str_eq(tag, "img") || str_eq(tag, "input")
        || str_eq(tag, "keygen") || str_eq(tag, "link") || str_eq(tag, "meta") || str_eq(
        tag,
        "param",
    ) || str_eq(tag, "source") || str_eq(tag, "track") || str_eq(tag, "wbr")
}

/// Whether a tag swallows a leading newline of its content.
pub open spec fn newline_eating_tag(tag: Seq<char>) -> bool {
    ||| tag == "listing"@
    ||| tag == "pre"@
    ||| tag == "textarea"@
}

/// Tests a tag against the newline-eating set.
pub fn is_newline_eating_tag(tag: &str) -> (r: bool)
    ensures
        r == newline_eating_tag(tag@),
{
    str_eq(tag, "listing") || str_eq(tag, "pre") || str_eq(tag, "textarea")
}

/// Whether a prop never becomes a custom attribute.
pub open spec fn custom_markup_reserved(name: Seq<char>) -> bool {
    ||| name == "children"@
    ||| name == "dangerouslySetInnerHTML"@
    ||| name == "suppressContentEditableWarning"@
    ||| name == "suppressHydrationWarning"@
}

/// Tests a prop name against the custom-attribute reserved set.
pub fn is_custom_markup_reserved(name: &str) -> (r: bool)
    ensures
        r == custom_markup_reserved(name@),
{
    str_eq(name, "children") || str_eq(name, "dangerouslySetInnerHTML") || str_eq(
        name,
        "suppressContentEditableWarning",
    ) || str_eq(name, "suppressHydrationWarning")
}

/// The reserved compound element names of foreign content, which are
/// never custom elements despite their hyphen.
pub open spec fn reserved_compound_tag(tag: Seq<char>) -> bool {
    ||| tag == "annotation-xml"@
    ||| tag == "color-profile"@
    ||| tag == "font-face"@
    ||| tag == "font-face-src"@
    ||| tag == "font-face-uri"@
    ||| tag == "font-face-format"@
    ||| tag == "font-face-name"@
    ||| tag == "missing-glyph"@
}

/// Whether a host element is treated as a custom element: a hyphenated
/// tag outside the reserved compound names, or a plain-string prop bag
/// on an ordinary tag.
pub open spec fn is_custom_component(tag: Seq<char>, props: PropValueV) -> bool {
    if !(exists|i: int| 0 <= i < tag.len() && tag[i] == '-') {
        props is Text
    } else {
        !reserved_compound_tag(tag)
    }
}

/// Tests whether a tag with the given prop bag is a custom element.
pub fn is_customer_component(tag_name: &str, props: &PropValue) -> (r: bool)
    ensures
        r == is_custom_component(tag_name@, props@),
{
    let n = tag_name.unicode_len();
    let mut i: usize = 0;
    let mut has_hyphen = false;
    while i < n
        invariant
            n == tag_name@.len(),
            i <= n,
            has_hyphen == exists|j: int| 0 <= j < i && tag_name@[j] == '-',
        decreases n - i,
    {
        if tag_name.get_char(i) == '-' {
            has_hyphen = true;
        }
        i = i + 1;
    }
    if !has_hyphen {
        match props {
            PropValue::Text(_) => true,
            _ => false,
        }
    } else {
        !(str_eq(tag_name, "annotation-xml") || str_eq(tag_name, "color-profile") || str_eq(
            tag_name,
            "font-face",
        ) || str_eq(tag_name, "font-face-src") || str_eq(tag_name, "font-face-uri") || str_eq(
            tag_name,
            "font-face-format",
        ) || str_eq(tag_name, "font-face-name") || str_eq(tag_name, "missing-glyph"))
    }
}

/// The fixed root marker attribute.
pub open spec fn root_markup() -> Seq<char> {
    "data-reactroot=\"\""@
}

/// The root marker attribute, emitted on the document root when
/// hydration markers are wanted.
pub fn create_markup_for_root() -> (r: String)
    ensures
        r@ == root_markup(),
{
    String::from_str("data-reactroot=\"\"")
}

/// The identity attribute for a value.
pub open spec fn id_markup(v: PropValueV) -> Seq<char> {
    "data-reactid="@ + quoted_value(v)
}

/// Builds the identity attribute markup for an unescaped value.
pub fn create_markup_for_id(id: &PropValue) -> (r: String)
    ensures
        r@ == id_markup(id@),
{
    let mut out = String::from_str("data-reactid=");
    let quoted = quote_attribute_value_for_browser(id);
    out.append(quoted.as_str());
    out
}

/// Whether a registered property ignores this value: null, a falsy
/// boolean-flagged value, a non-number on a numeric property, below one
/// on a positive-numeric property, or false on an overloaded-boolean
/// property.
pub open spec fn should_ignore(info: PropertyInfoV, v: PropValueV) -> bool {
    ||| v is Null
    ||| (info.has_boolean_value && js_falsy(v))
    ||| (info.has_numeric_value && !(v is Number))
    ||| (info.has_positive_numeric_value && match v {
        PropValueV::Number(d) => d.negative || d.int_part == 0,
        _ => false,
    })
    ||| (info.has_overloaded_boolean_value && v == PropValueV::Bool(false))
}

/// The attribute markup of a property, when one is emitted: ignored
/// values give empty markup, boolean-style attributes render bare, and
/// everything else renders as an escaped quoted value. `None` means the
/// property is invalid here and nothing is written.
pub open spec fn markup_for_property(
    reg: Map<Seq<char>, PropertyInfoV>,
    name: Seq<char>,
    v: PropValueV,
) -> Option<Seq<char>> {
    if reg.contains_key(name) {
        let info = reg[name];
        if should_ignore(info, v) {
            Some(Seq::empty())
        } else if info.has_boolean_value || (info.has_overloaded_boolean_value && v
            == PropValueV::Bool(true)) {
            Some(info.attribute_name + "=\"\""@)
        } else if !(v is Bool) || accepts_boolean(reg, name) {
            Some(info.attribute_name + "="@ + quoted_value(v))
        } else {
            None
        }
    } else if should_set(reg, name, v) {
        if v is Null {
            Some(Seq::empty())
        } else {
            Some(name + "="@ + quoted_value(v))
        }
    } else {
        None
    }
}

/// Builds the attribute markup for a property, or nothing when the
/// property is invalid for markup.
pub fn create_markup_for_property(registry: &PropertyRegistry, name: &str, value: &PropValue) -> (r:
    Option<String>)
    requires
        registry.wf(),
    ensures
        match r {
            Some(s) => markup_for_property(registry@, name@, value@) == Some(s@),
            None => markup_for_property(registry@, name@, value@) is None,
        },
{
    let info = get_property_info(registry, name);
    match info {
        Some(info) => {
            let ignore = {
                let is_null = match value {
                    PropValue::Null => true,
                    _ => false,
                };
                let falsy = crate::node::not(value);
                let nan = crate::node::is_nan(value);
                let below_one = match value {
                    PropValue::Number(d) => d.negative || d.int_part == 0,
                    _ => false,
                };
                let bool_false = match value {
                    PropValue::Bool(b) => !*b,
                    _ => false,
                };
                is_null || (info.has_boolean_value && falsy) || (info.has_numeric_value && nan) || (
                info.has_positive_numeric_value && below_one) || (info.has_overloaded_boolean_value
                    && bool_false)
            };
            if ignore {
                return Some(String::new());
            }
            let is_boolean = match value {
                PropValue::Bool(_) => true,
                _ => false,
            };
            let bool_true = match value {
                PropValue::Bool(b) => *b,
                _ => false,
            };
            if info.has_boolean_value || (info.has_overloaded_boolean_value && bool_true) {
                let mut out = info.attribute_name.clone();
                out.append("=\"\"");
                proof {
                    assert(out@ =~= registry@[name@].attribute_name + "=\"\""@);
                }
                Some(out)
            } else if !is_boolean || should_attribute_accept_boolean_value(registry, name) {
                let mut out = info.attribute_name.clone();
                out.append("=");
                let quoted = quote_attribute_value_for_browser(value);
                out.append(quoted.as_str());
                proof {
                    assert(out@ =~= registry@[name@].attribute_name + "="@ + quoted_value(
                        value@,
                    ));
                }
                Some(out)
            } else {
                None
            }
        },
        None => {
            if should_set_attribute(registry, name, value) {
                match value {
                    PropValue::Null => Some(String::new()),
                    _ => {
                        let mut out = String::from_str(name);
                        out.append("=");
                        let quoted = quote_attribute_value_for_browser(value);
                        out.append(quoted.as_str());
                        proof {
                            assert(out@ =~= name@ + "="@ + quoted_value(value@));
                        }
                        Some(out)
                    },
                }
            } else {
                None
            }
        },
    }
}

/// The markup of a custom attribute: empty unless the name passes the
/// attribute grammar and the value is not null.
pub open spec fn markup_for_custom_attribute(name: Seq<char>, v: PropValueV) -> Seq<char> {
    if !attr_name_valid(name) || v is Null {
        Seq::empty()
    } else {
        name + "="@ + quoted_value(v)
    }
}

/// Builds the markup for a custom attribute; unsafe names and null
/// values give the empty string.
pub fn create_markup_for_custom_attribute(
    cache: &mut ValidationCache,
    name: &str,
    value: &PropValue,
) -> (r: String)
    requires
        old(cache).wf(),
    ensures
        final(cache).wf(),
        r@ == markup_for_custom_attribute(name@, value@),
{
    let is_null = match value {
        PropValue::Null => true,
        _ => false,
    };
    if !is_attribute_name_safe(cache, name) || is_null {
        String::new()
    } else {
        let mut out = String::from_str(name);
        out.append("=");
        let quoted = quote_attribute_value_for_browser(value);
        out.append(quoted.as_str());
        proof {
            assert(out@ =~= name@ + "="@ + quoted_value(value@));
        }
        out
    }
}

/// Whether a style key names a custom property (it starts `--`).
pub open spec fn is_custom_style_key(k: Seq<char>) -> bool {
    k.len() >= 2 && k[0] == '-' && k[1] == '-'
}

/// The serialized style list from position `i` on: null entries are
/// skipped, the first emitted entry carries no leading `;`.
pub open spec fn styles_markup(s: Seq<(Seq<char>, PropValueV)>, i: int, first: bool) -> Seq<char>
    decreases s.len() - i,
{
    if i < 0 || i >= s.len() {
        Seq::empty()
    } else {
        let (k, v) = s[i];
        if v is Null {
            styles_markup(s, i + 1, first)
        } else {
            (if first {
                Seq::<char>::empty()
            } else {
                ";"@
            }) + hyphenate_style_seq(k) + ":"@ + style_value_text(k, v, is_custom_style_key(k))
                + styles_markup(s, i + 1, false)
        }
    }
}

/// Serializes a style object; `None` when nothing was serialized.
pub fn create_markup_for_styles(style_cache: &mut StyleNameCache, styles: &Vec<(String, PropValue)>) -> (r:
    Option<String>)
    requires
        old(style_cache).wf(),
    ensures
        final(style_cache).wf(),
        match r {
            Some(s) => s@ == styles_markup(values_view(styles@), 0, true) && s@.len() > 0,
            None => styles_markup(values_view(styles@), 0, true).len() == 0,
        },
{
    proof {
        lemma_values_view_elems(styles@);
    }
    let ghost sv = values_view(styles@);
    let mut out = String::new();
    let mut is_first = true;
    let mut i: usize = 0;
    while i < styles.len()
        invariant
            style_cache.wf(),
            i <= styles@.len(),
            sv == values_view(styles@),
            sv.len() == styles@.len(),
            forall|j: int|
                0 <= j < styles@.len() ==> #[trigger] sv[j] == (
                    styles@[j].0@,
                    styles@[j].1@,
                ),
            out@ + styles_markup(sv, i as int, is_first) == styles_markup(sv, 0, true),
            is_first ==> out@.len() == 0,
        decreases styles@.len() - i,
    {
        let is_null = match &styles[i].1 {
            PropValue::Null => true,
            _ => false,
        };
        if !is_null {
            let key = styles[i].0.as_str();
            let is_custom = {
                let n = key.unicode_len();
                n >= 2 && key.get_char(0) == '-' && key.get_char(1) == '-'
            };
            if !is_first {
                out.append(";");
            }
            let name = process_style_name(style_cache, key);
            out.append(name.as_str());
            out.append(":");
            let value_text = dangerous_style_value(key, &styles[i].1, is_custom);
            out.append(value_text.as_str());
            is_first = false;
        }
        i = i + 1;
    }
    let n = out.as_str().unicode_len();
    if n > 0 {
        proof {
            assert(styles_markup(sv, styles@.len() as int, is_first) =~= Seq::<char>::empty());
            assert(out@ + Seq::<char>::empty() =~= out@);
        }
        Some(out)
    } else {
        proof {
            assert(styles_markup(sv, styles@.len() as int, is_first) =~= Seq::<char>::empty());
            assert(out@ + Seq::<char>::empty() =~= out@);
        }
        None
    }
}

/// The first value stored under a prop name, searching from `i`.
pub open spec fn prop_assoc_from(props: Seq<(Seq<char>, PropValueV)>, k: Seq<char>, i: int) -> Option<
    PropValueV,
>
    decreases props.len() - i,
{
    if i < 0 || i >= props.len() {
        None
    } else if props[i].0 == k {
        Some(props[i].1)
    } else {
        prop_assoc_from(props, k, i + 1)
    }
}

/// The first value stored under a prop name.
pub open spec fn prop_assoc(props: Seq<(Seq<char>, PropValueV)>, k: Seq<char>) -> Option<
    PropValueV,
> {
    prop_assoc_from(props, k, 0)
}

/// Looks a prop up by name.
pub fn find_prop<'a>(props: &'a Vec<(String, PropValue)>, k: &str) -> (r: Option<&'a PropValue>)
    ensures
        match r {
            Some(v) => prop_assoc(values_view(props@), k@) == Some(v@),
            None => prop_assoc(values_view(props@), k@) is None,
        },
{
    proof {
        lemma_values_view_elems(props@);
    }
    let ghost pv = values_view(props@);
    let mut i: usize = 0;
    while i < props.len()
        invariant
            i <= props@.len(),
            pv == values_view(props@),
            pv.len() == props@.len(),
            forall|j: int|
                0 <= j < props@.len() ==> #[trigger] pv[j] == (props@[j].0@, props@[j].1@),
            prop_assoc_from(pv, k@, 0) == prop_assoc_from(pv, k@, i as int),
        decreases props@.len() - i,
    {
        if str_eq(props[i].0.as_str(), k) {
            return Some(&props[i].1);
        }
        i = i + 1;
    }
    None
}

/// The direct inner markup of a host element, when it has one: a
/// stringified `dangerouslySetInnerHTML.__html` value takes priority,
/// else a single text or number child is inlined as escaped text.
pub open spec fn inner_markup(props: Seq<(Seq<char>, PropValueV)>, kids: Seq<NodeV>) -> Option<
    Seq<char>,
> {
    match prop_assoc(props, "dangerouslySetInnerHTML"@) {
        Some(PropValueV::Object(fields)) => match prop_assoc(fields, "__html"@) {
            Some(PropValueV::Null) => None,
            Some(h) => Some(js_string(h)),
            None => Some("undefined"@),
        },
        _ => {
            if kids.len() == 1 {
                match kids[0] {
                    NodeV::Text(s) => Some(escape_seq(s)),
                    NodeV::Number(d) => Some(number_literal(d)),
                    _ => None,
                }
            } else {
                None
            }
        },
    }
}

/// Finds the direct inner markup of a host element, when it has one.
pub fn get_non_children_inner_markup(props: &Vec<(String, PropValue)>, children: &Vec<Node>) -> (r:
    Option<String>)
    ensures
        match r {
            Some(s) => inner_markup(values_view(props@), nodes_view(children@)) == Some(s@),
            None => inner_markup(values_view(props@), nodes_view(children@)) is None,
        },
{
    proof {
        lemma_nodes_view_elems(children@);
    }
    match find_prop(props, "dangerouslySetInnerHTML") {
        Some(PropValue::Object(fields)) => {
            match find_prop(fields, "__html") {
                Some(h) => {
                    match h {
                        PropValue::Null => None,
                        _ => Some(to_string(h)),
                    }
                },
                None => Some(String::from_str("undefined")),
            }
        },
        _ => {
            if children.len() == 1 {
                match &children[0] {
                    Node::Text(s) => Some(crate::escape::escape_html(s.as_str())),
                    Node::Number(d) => Some(d.to_literal()),
                    _ => None,
                }
            } else {
                None
            }
        },
    }
}

/// Whether a tag alone makes the element custom (the open-tag encoder
/// always sees a structured prop bag, never a plain string).
pub open spec fn custom_element_tag(tag: Seq<char>) -> bool {
    if !(exists|i: int| 0 <= i < tag.len() && tag[i] == '-') {
        false
    } else {
        !reserved_compound_tag(tag)
    }
}

fn is_custom_element_tag(tag: &str) -> (r: bool)
    ensures
        r == custom_element_tag(tag@),
{
    let n = tag.unicode_len();
    let mut i: usize = 0;
    let mut has_hyphen = false;
    while i < n
        invariant
            n == tag@.len(),
            i <= n,
            has_hyphen == exists|j: int| 0 <= j < i && tag@[j] == '-',
        decreases n - i,
    {
        if tag.get_char(i) == '-' {
            has_hyphen = true;
        }
        i = i + 1;
    }
    if !has_hyphen {
        false
    } else {
        !(str_eq(tag, "annotation-xml") || str_eq(tag, "color-profile") || str_eq(tag, "font-face")
            || str_eq(tag, "font-face-src") || str_eq(tag, "font-face-uri") || str_eq(
            tag,
            "font-face-format",
        ) || str_eq(tag, "font-face-name") || str_eq(tag, "missing-glyph"))
    }
}

/// The markup one prop contributes inside an open tag: null values are
/// skipped, a style object is serialized first, and the encoded
/// fragment is preceded by a space when it is not empty.
pub open spec fn props_markup(
    reg: Map<Seq<char>, PropertyInfoV>,
    props: Seq<(Seq<char>, PropValueV)>,
    i: int,
    is_custom: bool,
) -> Seq<char>
    decreases props.len() - i,
{
    if i < 0 || i >= props.len() {
        Seq::empty()
    } else {
        let (k, v) = props[i];
        let piece = if v is Null {
            Seq::<char>::empty()
        } else {
            let v2 = if k == "style"@ && v is Object {
                if styles_markup(v->Object_0, 0, true).len() > 0 {
                    PropValueV::Text(styles_markup(v->Object_0, 0, true))
                } else {
                    PropValueV::Null
                }
            } else {
                v
            };
            let m = if is_custom {
                if custom_markup_reserved(k) {
                    Seq::<char>::empty()
                } else {
                    markup_for_custom_attribute(k, v2)
                }
            } else {
                match markup_for_property(reg, k, v2) {
                    Some(mm) => mm,
                    None => Seq::<char>::empty(),
                }
            };
            if m.len() > 0 {
                " "@ + m
            } else {
                Seq::<char>::empty()
            }
        };
        piece + props_markup(reg, props, i + 1, is_custom)
    }
}

/// The whole open-tag markup before its closing `>`: the tag, each
/// prop's fragment, and the root marker when hydration markers are on
/// and this is the document root.
pub open spec fn open_tag_markup(
    reg: Map<Seq<char>, PropertyInfoV>,
    tag: Seq<char>,
    tag_lc: Seq<char>,
    props: Seq<(Seq<char>, PropValueV)>,
    make_static: bool,
    is_root: bool,
) -> Seq<char> {
    "<"@ + tag + props_markup(reg, props, 0, custom_element_tag(tag_lc)) + (if !make_static
        && is_root {
        " "@ + root_markup()
    } else {
        Seq::<char>::empty()
    })
}

/// Builds the open-tag markup of a host element, up to but not
/// including the closing `>` or `/>`.
pub fn create_open_tag_markup(
    registry: &PropertyRegistry,
    cache: &mut ValidationCache,
    style_cache: &mut StyleNameCache,
    tag_verbatim: &str,
    tag_lowercase: &str,
    props: &Vec<(String, PropValue)>,
    make_static_markup: bool,
    is_root_element: bool,
) -> (r: String)
    requires
        registry.wf(),
        old(cache).wf(),
        old(style_cache).wf(),
    ensures
        final(cache).wf(),
        final(style_cache).wf(),
        r@ == open_tag_markup(
            registry@,
            tag_verbatim@,
            tag_lowercase@,
            values_view(props@),
            make_static_markup,
            is_root_element,
        ),
{
    proof {
        lemma_values_view_elems(props@);
    }
    let ghost pv = values_view(props@);
    let is_custom = is_custom_element_tag(tag_lowercase);
    let mut out = String::from_str("<");
    out.append(tag_verbatim);
    let mut i: usize = 0;
    while i < props.len()
        invariant
            registry.wf(),
            cache.wf(),
            style_cache.wf(),
            i <= props@.len(),
            pv == values_view(props@),
            pv.len() == props@.len(),
            forall|j: int|
                0 <= j < props@.len() ==> #[trigger] pv[j] == (props@[j].0@, props@[j].1@),
            is_custom == custom_element_tag(tag_lowercase@),
            out@ + props_markup(registry@, pv, i as int, is_custom) == "<"@ + tag_verbatim@
                + props_markup(registry@, pv, 0, is_custom),
        decreases props@.len() - i,
    {
        let key = props[i].0.as_str();
        let is_null = match &props[i].1 {
            PropValue::Null => true,
            _ => false,
        };
        if !is_null {
            let mut v2_owned: Option<PropValue> = None;
            let is_style_object = str_eq(key, "style") && match &props[i].1 {
                PropValue::Object(_) => true,
                _ => false,
            };
            if is_style_object {
                match &props[i].1 {
                    PropValue::Object(fields) => {
                        match create_markup_for_styles(style_cache, fields) {
                            Some(s) => {
                                v2_owned = Some(PropValue::Text(s));
                            },
                            None => {
                                v2_owned = Some(PropValue::Null);
                            },
                        }
                    },
                    _ => {},
                }
            }
            let v2: &PropValue = match &v2_owned {
                Some(x) => x,
                None => &props[i].1,
            };
            let ghost v2v = if pv[i as int].0 == "style"@ && pv[i as int].1 is Object {
                if styles_markup(pv[i as int].1->Object_0, 0, true).len() > 0 {
                    PropValueV::Text(styles_markup(pv[i as int].1->Object_0, 0, true))
                } else {
                    PropValueV::Null
                }
            } else {
                pv[i as int].1
            };
            proof {
                assert(v2@ == v2v);
            }
            if is_custom {
                if !is_custom_markup_reserved(key) {
                    let m = create_markup_for_custom_attribute(cache, key, v2);
                    if m.as_str().unicode_len() > 0 {
                        out.append(" ");
                        out.append(m.as_str());
                    }
                }
            } else {
                match create_markup_for_property(registry, key, v2) {
                    Some(m) => {
                        if m.as_str().unicode_len() > 0 {
                            out.append(" ");
                            out.append(m.as_str());
                        }
                    },
                    None => {},
                }
            }
        }
        i = i + 1;
    }
    proof {
        assert(props_markup(registry@, pv, props@.len() as int, is_custom) =~= Seq::<
            char,
        >::empty());
        assert(out@ + Seq::<char>::empty() =~= out@);
    }
    if !make_static_markup && is_root_element {
        out.append(" ");
        out.append("data-reactroot=\"\"");
        proof {
            assert(out@ =~= open_tag_markup(
                registry@,
                tag_verbatim@,
                tag_lowercase@,
                pv,
                make_static_markup,
                is_root_element,
            ));
        }
    } else {
        proof {
            assert(out@ =~= open_tag_markup(
                registry@,
                tag_verbatim@,
                tag_lowercase@,
                pv,
                make_static_markup,
                is_root_element,
            ));
        }
    }
    out
}


/// The hydration root marker is exactly the difference between full and
/// static markup: on the document root the open tag with markers is the
/// static open tag followed by a space and the marker, and off the root
/// (or in static mode) the marker never appears.
pub proof fn lemma_root_marker(
    reg: Map<Seq<char>, PropertyInfoV>,
    tag: Seq<char>,
    tag_lc: Seq<char>,
    props: Seq<(Seq<char>, PropValueV)>,
)
    ensures
        open_tag_markup(reg, tag, tag_lc, props, false, true) == open_tag_markup(
            reg,
            tag,
            tag_lc,
            props,
            true,
            true,
        ) + (" "@ + root_markup()),
        open_tag_markup(reg, tag, tag_lc, props, true, true) == open_tag_markup(
            reg,
            tag,
            tag_lc,
            props,
            true,
            false,
        ),
        open_tag_markup(reg, tag, tag_lc, props, false, false) == open_tag_markup(
            reg,
            tag,
            tag_lc,
            props,
            true,
            false,
        ),
{
    let body = "<"@ + tag + props_markup(reg, props, 0, custom_element_tag(tag_lc));
    assert(open_tag_markup(reg, tag, tag_lc, props, true, true) =~= body);
    assert(open_tag_markup(reg, tag, tag_lc, props, true, false) =~= body);
    assert(open_tag_markup(reg, tag, tag_lc, props, false, false) =~= body);
    assert(open_tag_markup(reg, tag, tag_lc, props, false, true) =~= body + (" "@ + root_markup()));
}

} // verus!
