//! The HTML attribute configuration table.

use vstd::prelude::*;
use vstd::string::StringExecFns;
use crate::dom_property::DomPropertyConfig;
use crate::dom_property::flag_pairs_view;
use crate::dom_property::str_pairs_view;
use crate::dom_property::lemma_flag_pairs_view_elems;
use crate::dom_property::lemma_str_pairs_view_elems;
use crate::dom_property::MUST_USE_PROPERTY;
use crate::dom_property::HAS_BOOLEAN_VALUE;
use crate::dom_property::HAS_NUMERIC_VALUE;
use crate::dom_property::HAS_POSITIVE_NUMERIC_VALUE;
use crate::dom_property::HAS_OVERLOADED_BOOLEAN_VALUE;
use crate::dom_property::HAS_STRING_BOOLEAN_VALUE;

verus! {

/// The flags of each HTML property name.
pub open spec fn html_properties_spec() -> Seq<(Seq<char>, u32)> {
    seq![
        ("allowFullScreen"@, HAS_BOOLEAN_VALUE),
        ("autoFocus"@, HAS_STRING_BOOLEAN_VALUE),
        ("async"@, HAS_BOOLEAN_VALUE),
        ("autoPlay"@, HAS_BOOLEAN_VALUE),
        ("capture"@, HAS_BOOLEAN_VALUE),
        ("checked"@, MUST_USE_PROPERTY | HAS_BOOLEAN_VALUE),
        ("cols"@, HAS_POSITIVE_NUMERIC_VALUE),
        ("contentEditable"@, HAS_STRING_BOOLEAN_VALUE),
        ("controls"@, HAS_BOOLEAN_VALUE),
        ("default"@, HAS_BOOLEAN_VALUE),
        ("defer"@, HAS_BOOLEAN_VALUE),
        ("disabled"@, HAS_BOOLEAN_VALUE),
        ("download"@, HAS_OVERLOADED_BOOLEAN_VALUE),
        ("draggable"@, HAS_STRING_BOOLEAN_VALUE),
        ("formNoValidate"@, HAS_BOOLEAN_VALUE),
        ("hidden"@, HAS_BOOLEAN_VALUE),
        ("loop"@, HAS_BOOLEAN_VALUE),
        ("multiple"@, MUST_USE_PROPERTY | HAS_BOOLEAN_VALUE),
        ("muted"@, MUST_USE_PROPERTY | HAS_BOOLEAN_VALUE),
        ("noValidate"@, HAS_BOOLEAN_VALUE),
        ("open"@, HAS_BOOLEAN_VALUE),
        ("playsInline"@, HAS_BOOLEAN_VALUE),
        ("readOnly"@, HAS_BOOLEAN_VALUE),
        ("required"@, HAS_BOOLEAN_VALUE),
        ("reversed"@, HAS_BOOLEAN_VALUE),
        ("rows"@, HAS_POSITIVE_NUMERIC_VALUE),
        ("rowSpan"@, HAS_NUMERIC_VALUE),
        ("scoped"@, HAS_BOOLEAN_VALUE),
        ("seamless"@, HAS_BOOLEAN_VALUE),
        ("selected"@, MUST_USE_PROPERTY | HAS_BOOLEAN_VALUE),
        ("size"@, HAS_POSITIVE_NUMERIC_VALUE),
        ("start"@, HAS_NUMERIC_VALUE),
        ("span"@, HAS_POSITIVE_NUMERIC_VALUE),
        ("spellCheck"@, HAS_STRING_BOOLEAN_VALUE),
        ("style"@, 0u32),
        ("tabIndex"@, 0u32),
        ("itemScope"@, HAS_BOOLEAN_VALUE),
        ("acceptCharset"@, 0u32),
        ("className"@, 0u32),
        ("htmlFor"@, 0u32),
        ("httpEquiv"@, 0u32),
        ("value"@, HAS_STRING_BOOLEAN_VALUE),
    ]
}

/// The attribute-name overrides for HTML properties.
pub open spec fn html_attribute_names_spec() -> Seq<(Seq<char>, Seq<char>)> {
    seq![
        ("acceptCharset"@, "accept-charset"@),
        ("className"@, "class"@),
        ("htmlFor"@, "for"@),
        ("httpEquiv"@, "http-equiv"@),
    ]
}

/// Builds the HTML configuration table.
pub fn html_dom_property_config() -> (c: DomPropertyConfig)
    ensures
        flag_pairs_view(c.properties@) == html_properties_spec(),
        str_pairs_view(c.dom_attribute_names@) == html_attribute_names_spec(),
        str_pairs_view(c.dom_attribute_namespaces@) == Seq::<(Seq<char>, Seq<char>)>::empty(),
{
    let mut properties: Vec<(String, u32)> = Vec::new();
    properties.push((String::from_str("allowFullScreen"), HAS_BOOLEAN_VALUE));
    properties.push((String::from_str("autoFocus"), HAS_STRING_BOOLEAN_VALUE));
    properties.push((String::from_str("async"), HAS_BOOLEAN_VALUE));
    properties.push((String::from_str("autoPlay"), HAS_BOOLEAN_VALUE));
    properties.push((String::from_str("capture"), HAS_BOOLEAN_VALUE));
    properties.push((String::from_str("checked"), MUST_USE_PROPERTY | HAS_BOOLEAN_VALUE));
    properties.push((String::from_str("cols"), HAS_POSITIVE_NUMERIC_VALUE));
    properties.push((String::from_str("contentEditable"), HAS_STRING_BOOLEAN_VALUE));
    properties.push((String::from_str("controls"), HAS_BOOLEAN_VALUE));
    properties.push((String::from_str("default"), HAS_BOOLEAN_VALUE));
    properties.push((String::from_str("defer"), HAS_BOOLEAN_VALUE));
    properties.push((String::from_str("disabled"), HAS_BOOLEAN_VALUE));
    properties.push((String::from_str("download"), HAS_OVERLOADED_BOOLEAN_VALUE));
    properties.push((String::from_str("draggable"), HAS_STRING_BOOLEAN_VALUE));
    properties.push((String::from_str("formNoValidate"), HAS_BOOLEAN_VALUE));
    properties.push((String::from_str("hidden"), HAS_BOOLEAN_VALUE));
    properties.push((String::from_str("loop"), HAS_BOOLEAN_VALUE));
    properties.push((String::from_str("multiple"), MUST_USE_PROPERTY | HAS_BOOLEAN_VALUE));
    properties.push((String::from_str("muted"), MUST_USE_PROPERTY | HAS_BOOLEAN_VALUE));
    properties.push((String::from_str("noValidate"), HAS_BOOLEAN_VALUE));
    properties.push((String::from_str("open"), HAS_BOOLEAN_VALUE));
    properties.push((String::from_str("playsInline"), HAS_BOOLEAN_VALUE));
    properties.push((String::from_str("readOnly"), HAS_BOOLEAN_VALUE));
    properties.push((String::from_str("required"), HAS_BOOLEAN_VALUE));
    properties.push((String::from_str("reversed"), HAS_BOOLEAN_VALUE));
    properties.push((String::from_str("rows"), HAS_POSITIVE_NUMERIC_VALUE));
    properties.push((String::from_str("rowSpan"), HAS_NUMERIC_VALUE));
    properties.push((String::from_str("scoped"), HAS_BOOLEAN_VALUE));
    properties.push((String::from_str("seamless"), HAS_BOOLEAN_VALUE));
    properties.push((String::from_str("selected"), MUST_USE_PROPERTY | HAS_BOOLEAN_VALUE));
    properties.push((String::from_str("size"), HAS_POSITIVE_NUMERIC_VALUE));
    properties.push((String::from_str("start"), HAS_NUMERIC_VALUE));
    properties.push((String::from_str("span"), HAS_POSITIVE_NUMERIC_VALUE));
    properties.push((String::from_str("spellCheck"), HAS_STRING_BOOLEAN_VALUE));
    properties.push((String::from_str("style"), 0u32));
    properties.push((String::from_str("tabIndex"), 0u32));
    properties.push((String::from_str("itemScope"), HAS_BOOLEAN_VALUE));
    properties.push((String::from_str("acceptCharset"), 0u32));
    properties.push((String::from_str("className"), 0u32));
    properties.push((String::from_str("htmlFor"), 0u32));
    properties.push((String::from_str("httpEquiv"), 0u32));
    properties.push((String::from_str("value"), HAS_STRING_BOOLEAN_VALUE));
    let mut names: Vec<(String, String)> = Vec::new();
    names.push((String::from_str("acceptCharset"), String::from_str("accept-charset")));
    names.push((String::from_str("className"), String::from_str("class")));
    names.push((String::from_str("htmlFor"), String::from_str("for")));
    names.push((String::from_str("httpEquiv"), String::from_str("http-equiv")));
    proof {
        lemma_flag_pairs_view_elems(properties@);
        lemma_str_pairs_view_elems(names@);
        assert(flag_pairs_view(properties@)[0] == html_properties_spec()[0]);
        assert(flag_pairs_view(properties@)[1] == html_properties_spec()[1]);
        assert(flag_pairs_view(properties@)[2] == html_properties_spec()[2]);
        assert(flag_pairs_view(properties@)[3] == html_properties_spec()[3]);
        assert(flag_pairs_view(properties@)[4] == html_properties_spec()[4]);
        assert(flag_pairs_view(properties@)[5] == html_properties_spec()[5]);
        assert(flag_pairs_view(properties@)[6] == html_properties_spec()[6]);
        assert(flag_pairs_view(properties@)[7] == html_properties_spec()[7]);
        assert(flag_pairs_view(properties@)[8] == html_properties_spec()[8]);
        assert(flag_pairs_view(properties@)[9] == html_properties_spec()[9]);
        assert(flag_pairs_view(properties@)[10] == html_properties_spec()[10]);
        assert(flag_pairs_view(properties@)[11] == html_properties_spec()[11]);
        assert(flag_pairs_view(properties@)[12] == html_properties_spec()[12]);
        assert(flag_pairs_view(properties@)[13] == html_properties_spec()[13]);
        assert(flag_pairs_view(properties@)[14] == html_properties_spec()[14]);
        assert(flag_pairs_view(properties@)[15] == html_properties_spec()[15]);
        assert(flag_pairs_view(properties@)[16] == html_properties_spec()[16]);
        assert(flag_pairs_view(properties@)[17] == html_properties_spec()[17]);
        assert(flag_pairs_view(properties@)[18] == html_properties_spec()[18]);
        assert(flag_pairs_view(properties@)[19] == html_properties_spec()[19]);
        assert(flag_pairs_view(properties@)[20] == html_properties_spec()[20]);
        assert(flag_pairs_view(properties@)[21] == html_properties_spec()[21]);
        assert(flag_pairs_view(properties@)[22] == html_properties_spec()[22]);
        assert(flag_pairs_view(properties@)[23] == html_properties_spec()[23]);
        assert(flag_pairs_view(properties@)[24] == html_properties_spec()[24]);
        assert(flag_pairs_view(properties@)[25] == html_properties_spec()[25]);
        assert(flag_pairs_view(properties@)[26] == html_properties_spec()[26]);
        assert(flag_pairs_view(properties@)[27] == html_properties_spec()[27]);
        assert(flag_pairs_view(properties@)[28] == html_properties_spec()[28]);
        assert(flag_pairs_view(properties@)[29] == html_properties_spec()[29]);
        assert(flag_pairs_view(properties@)[30] == html_properties_spec()[30]);
        assert(flag_pairs_view(properties@)[31] == html_properties_spec()[31]);
        assert(flag_pairs_view(properties@)[32] == html_properties_spec()[32]);
        assert(flag_pairs_view(properties@)[33] == html_properties_spec()[33]);
        assert(flag_pairs_view(properties@)[34] == html_properties_spec()[34]);
        assert(flag_pairs_view(properties@)[35] == html_properties_spec()[35]);
        assert(flag_pairs_view(properties@)[36] == html_properties_spec()[36]);
        assert(flag_pairs_view(properties@)[37] == html_properties_spec()[37]);
        assert(flag_pairs_view(properties@)[38] == html_properties_spec()[38]);
        assert(flag_pairs_view(properties@)[39] == html_properties_spec()[39]);
        assert(flag_pairs_view(properties@)[40] == html_properties_spec()[40]);
        assert(flag_pairs_view(properties@)[41] == html_properties_spec()[41]);
        assert(str_pairs_view(names@)[0] == html_attribute_names_spec()[0]);
        assert(str_pairs_view(names@)[1] == html_attribute_names_spec()[1]);
        assert(str_pairs_view(names@)[2] == html_attribute_names_spec()[2]);
        assert(str_pairs_view(names@)[3] == html_attribute_names_spec()[3]);
        assert(flag_pairs_view(properties@) =~= html_properties_spec());
        assert(str_pairs_view(names@) =~= html_attribute_names_spec());
    }
    DomPropertyConfig { properties, dom_attribute_names: names, dom_attribute_namespaces: Vec::new() }
}

} // verus!
