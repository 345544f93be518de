//! The SVG attribute configuration table: attribute names are
//! camelCased into logical property names.

use vstd::prelude::*;
use vstd::string::StrSliceExecFns;
use vstd::string::StringExecFns;
use crate::strutil::push_char;
use crate::strutil::upper_char;
use crate::dom_property::DomPropertyConfig;
use crate::dom_property::flag_pairs_view;
use crate::dom_property::str_pairs_view;
use crate::dom_property::lemma_flag_pairs_view_elems;
use crate::dom_property::lemma_str_pairs_view_elems;
use crate::dom_property::HAS_STRING_BOOLEAN_VALUE;

verus! {

pub const NS_XLINK: &'static str = "http://www.w3.org/1999/xlink";

pub const NS_XML: &'static str = "http://www.w3.org/XML/1998/namespace";

/// The xlink namespace.
pub open spec fn ns_xlink() -> &'static str {
    "http://www.w3.org/1999/xlink"
}

/// The xml namespace.
pub open spec fn ns_xml() -> &'static str {
    "http://www.w3.org/XML/1998/namespace"
}

/// The camelCased form of a hyphen- or colon-separated name: a `-` or
/// `:` followed by a lower-case letter becomes that letter upper-cased.
pub open spec fn camelize_seq(s: Seq<char>) -> Seq<char>
    decreases s.len(),
{
    if s.len() == 0 {
        Seq::empty()
    } else if (s[0] == '-' || s[0] == ':') && s.len() >= 2 && 'a' <= s[1] && s[1] <= 'z' {
        seq![upper_char(s[1])] + camelize_seq(s.subrange(2, s.len() as int))
    } else {
        seq![s[0]] + camelize_seq(s.drop_first())
    }
}

/// CamelCases a separated attribute name.
pub fn camelize(value: &str) -> (r: String)
    ensures
        r@ == camelize_seq(value@),
{
    let n = value.unicode_len();
    let mut out = String::new();
    let mut i: usize = 0;
    proof {
        assert(value@.subrange(0, n as int) =~= value@);
        assert(out@ + camelize_seq(value@) =~= camelize_seq(value@));
    }
    while i < n
        invariant
            n == value@.len(),
            i <= n,
            out@ + camelize_seq(value@.subrange(i as int, n as int)) == camelize_seq(value@),
        decreases n - i,
    {
        let c = value.get_char(i);
        let ghost prev = out@;
        proof {
            let rest = value@.subrange(i as int, n as int);
            assert(rest[0] == value@[i as int]);
            if rest.len() >= 2 {
                assert(rest[1] == value@[i as int + 1]);
            }
            assert(rest.drop_first() =~= value@.subrange(i as int + 1, n as int));
            if rest.len() >= 2 {
                assert(rest.subrange(2, rest.len() as int) =~= value@.subrange(i as int + 2, n as int));
            }
        }
        if (c == '-' || c == ':') && i + 1 < n {
            let d = value.get_char(i + 1);
            if 'a' <= d && d <= 'z' {
                push_char(&mut out, ((d as u8) - 0x20) as char);
                proof {
                    assert(out@ =~= prev + seq![upper_char(d)]);
                }
                i = i + 2;
            } else {
                push_char(&mut out, c);
                proof {
                    assert(out@ =~= prev + seq![c]);
                }
                i = i + 1;
            }
        } else {
            push_char(&mut out, c);
            proof {
                assert(out@ =~= prev + seq![c]);
            }
            i = i + 1;
        }
    }
    proof {
        assert(value@.subrange(n as int, n as int) =~= Seq::<char>::empty());
        assert(out@ + Seq::<char>::empty() =~= out@);
    }
    out
}

/// The SVG attribute names that need camelCasing, namespacing or
/// boolean handling.
pub open spec fn svg_attr_names() -> Seq<Seq<char>> {
    seq![
        "accent-height"@,
        "alignment-baseline"@,
        "arabic-form"@,
        "baseline-shift"@,
        "cap-height"@,
        "clip-path"@,
        "clip-rule"@,
        "color-interpolation"@,
        "color-interpolation-filters"@,
        "color-profile"@,
        "color-rendering"@,
        "dominant-baseline"@,
        "enable-background"@,
        "fill-opacity"@,
        "fill-rule"@,
        "flood-color"@,
        "flood-opacity"@,
        "font-family"@,
        "font-size"@,
        "font-size-adjust"@,
        "font-stretch"@,
        "font-style"@,
        "font-variant"@,
        "font-weight"@,
        "glyph-name"@,
        "glyph-orientation-horizontal"@,
        "glyph-orientation-vertical"@,
        "horiz-adv-x"@,
        "horiz-origin-x"@,
        "image-rendering"@,
        "letter-spacing"@,
        "lighting-color"@,
        "marker-end"@,
        "marker-mid"@,
        "marker-start"@,
        "overline-position"@,
        "overline-thickness"@,
        "paint-order"@,
        "panose-1"@,
        "pointer-events"@,
        "rendering-intent"@,
        "shape-rendering"@,
        "stop-color"@,
        "stop-opacity"@,
        "strikethrough-position"@,
        "strikethrough-thickness"@,
        "stroke-dasharray"@,
        "stroke-dashoffset"@,
        "stroke-linecap"@,
        "stroke-linejoin"@,
        "stroke-miterlimit"@,
        "stroke-opacity"@,
        "stroke-width"@,
        "text-anchor"@,
        "text-decoration"@,
        "text-rendering"@,
        "underline-position"@,
        "underline-thickness"@,
        "unicode-bidi"@,
        "unicode-range"@,
        "units-per-em"@,
        "v-alphabetic"@,
        "v-hanging"@,
        "v-ideographic"@,
        "v-mathematical"@,
        "vector-effect"@,
        "vert-adv-y"@,
        "vert-origin-x"@,
        "vert-origin-y"@,
        "word-spacing"@,
        "writing-mode"@,
        "x-height"@,
        "xlink:actuate"@,
        "xlink:arcrole"@,
        "xlink:href"@,
        "xlink:role"@,
        "xlink:show"@,
        "xlink:title"@,
        "xlink:type"@,
        "xml:base"@,
        "xmlns:xlink"@,
        "xml:lang"@,
        "xml:space"@,
    ]
}

#[verifier::rlimit(100)]
fn svg_attr_table_a() -> (v: Vec<&'static str>)
    ensures
        v@.len() == 42,
        forall|i: int| 0 <= i < 42 ==> (#[trigger] v@[i])@ == svg_attr_names()[0 + i],
{
    let mut v: Vec<&'static str> = Vec::new();
    v.push("accent-height");
    v.push("alignment-baseline");
    v.push("arabic-form");
    v.push("baseline-shift");
    v.push("cap-height");
    v.push("clip-path");
    v.push("clip-rule");
    v.push("color-interpolation");
    v.push("color-interpolation-filters");
    v.push("color-profile");
    v.push("color-rendering");
    v.push("dominant-baseline");
    v.push("enable-background");
    v.push("fill-opacity");
    v.push("fill-rule");
    v.push("flood-color");
    v.push("flood-opacity");
    v.push("font-family");
    v.push("font-size");
    v.push("font-size-adjust");
    v.push("font-stretch");
    v.push("font-style");
    v.push("font-variant");
    v.push("font-weight");
    v.push("glyph-name");
    v.push("glyph-orientation-horizontal");
    v.push("glyph-orientation-vertical");
    v.push("horiz-adv-x");
    v.push("horiz-origin-x");
    v.push("image-rendering");
    v.push("letter-spacing");
    v.push("lighting-color");
    v.push("marker-end");
    v.push("marker-mid");
    v.push("marker-start");
    v.push("overline-position");
    v.push("overline-thickness");
    v.push("paint-order");
    v.push("panose-1");
    v.push("pointer-events");
    v.push("rendering-intent");
    v.push("shape-rendering");
    proof {
        assert(v@[0]@ == svg_attr_names()[0]);
        assert(v@[1]@ == svg_attr_names()[1]);
        assert(v@[2]@ == svg_attr_names()[2]);
        assert(v@[3]@ == svg_attr_names()[3]);
        assert(v@[4]@ == svg_attr_names()[4]);
        assert(v@[5]@ == svg_attr_names()[5]);
        assert(v@[6]@ == svg_attr_names()[6]);
        assert(v@[7]@ == svg_attr_names()[7]);
        assert(v@[8]@ == svg_attr_names()[8]);
        assert(v@[9]@ == svg_attr_names()[9]);
        assert(v@[10]@ == svg_attr_names()[10]);
        assert(v@[11]@ == svg_attr_names()[11]);
        assert(v@[12]@ == svg_attr_names()[12]);
        assert(v@[13]@ == svg_attr_names()[13]);
        assert(v@[14]@ == svg_attr_names()[14]);
        assert(v@[15]@ == svg_attr_names()[15]);
        assert(v@[16]@ == svg_attr_names()[16]);
        assert(v@[17]@ == svg_attr_names()[17]);
        assert(v@[18]@ == svg_attr_names()[18]);
        assert(v@[19]@ == svg_attr_names()[19]);
        assert(v@[20]@ == svg_attr_names()[20]);
        assert(v@[21]@ == svg_attr_names()[21]);
        assert(v@[22]@ == svg_attr_names()[22]);
        assert(v@[23]@ == svg_attr_names()[23]);
        assert(v@[24]@ == svg_attr_names()[24]);
        assert(v@[25]@ == svg_attr_names()[25]);
        assert(v@[26]@ == svg_attr_names()[26]);
        assert(v@[27]@ == svg_attr_names()[27]);
        assert(v@[28]@ == svg_attr_names()[28]);
        assert(v@[29]@ == svg_attr_names()[29]);
        assert(v@[30]@ == svg_attr_names()[30]);
        assert(v@[31]@ == svg_attr_names()[31]);
        assert(v@[32]@ == svg_attr_names()[32]);
        assert(v@[33]@ == svg_attr_names()[33]);
        assert(v@[34]@ == svg_attr_names()[34]);
        assert(v@[35]@ == svg_attr_names()[35]);
        assert(v@[36]@ == svg_attr_names()[36]);
        assert(v@[37]@ == svg_attr_names()[37]);
        assert(v@[38]@ == svg_attr_names()[38]);
        assert(v@[39]@ == svg_attr_names()[39]);
        assert(v@[40]@ == svg_attr_names()[40]);
        assert(v@[41]@ == svg_attr_names()[41]);
    }
    v
}

#[verifier::rlimit(100)]
fn svg_attr_table_b() -> (v: Vec<&'static str>)
    ensures
        v@.len() == 41,
        forall|i: int| 0 <= i < 41 ==> (#[trigger] v@[i])@ == svg_attr_names()[42 + i],
{
    let mut v: Vec<&'static str> = Vec::new();
    v.push("stop-color");
    v.push("stop-opacity");
    v.push("strikethrough-position");
    v.push("strikethrough-thickness");
    v.push("stroke-dasharray");
    v.push("stroke-dashoffset");
    v.push("stroke-linecap");
    v.push("stroke-linejoin");
    v.push("stroke-miterlimit");
    v.push("stroke-opacity");
    v.push("stroke-width");
    v.push("text-anchor");
    v.push("text-decoration");
    v.push("text-rendering");
    v.push("underline-position");
    v.push("underline-thickness");
    v.push("unicode-bidi");
    v.push("unicode-range");
    v.push("units-per-em");
    v.push("v-alphabetic");
    v.push("v-hanging");
    v.push("v-ideographic");
    v.push("v-mathematical");
    v.push("vector-effect");
    v.push("vert-adv-y");
    v.push("vert-origin-x");
    v.push("vert-origin-y");
    v.push("word-spacing");
    v.push("writing-mode");
    v.push("x-height");
    v.push("xlink:actuate");
    v.push("xlink:arcrole");
    v.push("xlink:href");
    v.push("xlink:role");
    v.push("xlink:show");
    v.push("xlink:title");
    v.push("xlink:type");
    v.push("xml:base");
    v.push("xmlns:xlink");
    v.push("xml:lang");
    v.push("xml:space");
    proof {
        assert(v@[0]@ == svg_attr_names()[42]);
        assert(v@[1]@ == svg_attr_names()[43]);
        assert(v@[2]@ == svg_attr_names()[44]);
        assert(v@[3]@ == svg_attr_names()[45]);
        assert(v@[4]@ == svg_attr_names()[46]);
        assert(v@[5]@ == svg_attr_names()[47]);
        assert(v@[6]@ == svg_attr_names()[48]);
        assert(v@[7]@ == svg_attr_names()[49]);
        assert(v@[8]@ == svg_attr_names()[50]);
        assert(v@[9]@ == svg_attr_names()[51]);
        assert(v@[10]@ == svg_attr_names()[52]);
        assert(v@[11]@ == svg_attr_names()[53]);
        assert(v@[12]@ == svg_attr_names()[54]);
        assert(v@[13]@ == svg_attr_names()[55]);
        assert(v@[14]@ == svg_attr_names()[56]);
        assert(v@[15]@ == svg_attr_names()[57]);
        assert(v@[16]@ == svg_attr_names()[58]);
        assert(v@[17]@ == svg_attr_names()[59]);
        assert(v@[18]@ == svg_attr_names()[60]);
        assert(v@[19]@ == svg_attr_names()[61]);
        assert(v@[20]@ == svg_attr_names()[62]);
        assert(v@[21]@ == svg_attr_names()[63]);
        assert(v@[22]@ == svg_attr_names()[64]);
        assert(v@[23]@ == svg_attr_names()[65]);
        assert(v@[24]@ == svg_attr_names()[66]);
        assert(v@[25]@ == svg_attr_names()[67]);
        assert(v@[26]@ == svg_attr_names()[68]);
        assert(v@[27]@ == svg_attr_names()[69]);
        assert(v@[28]@ == svg_attr_names()[70]);
        assert(v@[29]@ == svg_attr_names()[71]);
        assert(v@[30]@ == svg_attr_names()[72]);
        assert(v@[31]@ == svg_attr_names()[73]);
        assert(v@[32]@ == svg_attr_names()[74]);
        assert(v@[33]@ == svg_attr_names()[75]);
        assert(v@[34]@ == svg_attr_names()[76]);
        assert(v@[35]@ == svg_attr_names()[77]);
        assert(v@[36]@ == svg_attr_names()[78]);
        assert(v@[37]@ == svg_attr_names()[79]);
        assert(v@[38]@ == svg_attr_names()[80]);
        assert(v@[39]@ == svg_attr_names()[81]);
        assert(v@[40]@ == svg_attr_names()[82]);
    }
    v
}

fn svg_attr_table() -> (v: Vec<&'static str>)
    ensures
        v@.len() == svg_attr_names().len(),
        forall|i: int| 0 <= i < v@.len() ==> (#[trigger] v@[i])@ == svg_attr_names()[i],
{
    let mut v = svg_attr_table_a();
    let mut b = svg_attr_table_b();
    let ghost bview = b@;
    v.append(&mut b);
    proof {
        assert(svg_attr_names().len() == 83);
        assert forall|i: int| 0 <= i < v@.len() implies (#[trigger] v@[i])@ == svg_attr_names()[i] by {
            if i < 42 {
            } else {
                assert(v@[i] == bview[i - 42]);
            }
        }
    }
    v
}

/// The flags of each SVG property name.
pub open spec fn svg_properties_spec() -> Seq<(Seq<char>, u32)> {
    seq![
        ("autoReverse"@, HAS_STRING_BOOLEAN_VALUE),
        ("externalResourcesRequired"@, HAS_STRING_BOOLEAN_VALUE),
        ("preserveAlpha"@, HAS_STRING_BOOLEAN_VALUE),
    ] + svg_attr_names().map_values(|a: Seq<char>| (camelize_seq(a), 0u32))
}

/// The attribute-name overrides for SVG properties: each camelCased
/// name maps back to the underlying attribute.
pub open spec fn svg_attribute_names_spec() -> Seq<(Seq<char>, Seq<char>)> {
    seq![
        ("autoReverse"@, "autoReverse"@),
        ("externalResourcesRequired"@, "externalResourcesRequired"@),
        ("preserveAlpha"@, "preserveAlpha"@),
    ] + svg_attr_names().map_values(|a: Seq<char>| (camelize_seq(a), a))
}

/// The attribute namespaces of the xlink and xml attributes.
pub open spec fn svg_namespaces_spec() -> Seq<(Seq<char>, Seq<char>)> {
    seq![
        ("xlinkActuate"@, ns_xlink()@),
        ("xlinkArcrole"@, ns_xlink()@),
        ("xlinkHref"@, ns_xlink()@),
        ("xlinkRole"@, ns_xlink()@),
        ("xlinkShow"@, ns_xlink()@),
        ("xlinkTitle"@, ns_xlink()@),
        ("xlinkType"@, ns_xlink()@),
        ("xmlBase"@, ns_xml()@),
        ("xmlLang"@, ns_xml()@),
        ("xmlSpace"@, ns_xml()@),
    ]
}

/// Builds the SVG configuration table.
pub fn svg_dom_property_config() -> (c: DomPropertyConfig)
    ensures
        flag_pairs_view(c.properties@) == svg_properties_spec(),
        str_pairs_view(c.dom_attribute_names@) == svg_attribute_names_spec(),
        str_pairs_view(c.dom_attribute_namespaces@) == svg_namespaces_spec(),
{
    let mut properties: Vec<(String, u32)> = Vec::new();
    properties.push((String::from_str("autoReverse"), HAS_STRING_BOOLEAN_VALUE));
    properties.push((String::from_str("externalResourcesRequired"), HAS_STRING_BOOLEAN_VALUE));
    properties.push((String::from_str("preserveAlpha"), HAS_STRING_BOOLEAN_VALUE));
    let mut names: Vec<(String, String)> = Vec::new();
    names.push((String::from_str("autoReverse"), String::from_str("autoReverse")));
    names.push((String::from_str("externalResourcesRequired"), String::from_str("externalResourcesRequired")));
    names.push((String::from_str("preserveAlpha"), String::from_str("preserveAlpha")));
    proof {
        lemma_flag_pairs_view_elems(properties@);
        lemma_str_pairs_view_elems(names@);
        assert(flag_pairs_view(properties@)[0] == svg_properties_spec()[0]);
        assert(flag_pairs_view(properties@)[1] == svg_properties_spec()[1]);
        assert(flag_pairs_view(properties@)[2] == svg_properties_spec()[2]);
        assert(str_pairs_view(names@)[0] == svg_attribute_names_spec()[0]);
        assert(str_pairs_view(names@)[1] == svg_attribute_names_spec()[1]);
        assert(str_pairs_view(names@)[2] == svg_attribute_names_spec()[2]);
        assert(flag_pairs_view(properties@) =~= svg_properties_spec().subrange(0, 3));
        assert(str_pairs_view(names@) =~= svg_attribute_names_spec().subrange(0, 3));
    }
    let mut namespaces: Vec<(String, String)> = Vec::new();
    namespaces.push((String::from_str("xlinkActuate"), String::from_str(NS_XLINK)));
    namespaces.push((String::from_str("xlinkArcrole"), String::from_str(NS_XLINK)));
    namespaces.push((String::from_str("xlinkHref"), String::from_str(NS_XLINK)));
    namespaces.push((String::from_str("xlinkRole"), String::from_str(NS_XLINK)));
    namespaces.push((String::from_str("xlinkShow"), String::from_str(NS_XLINK)));
    namespaces.push((String::from_str("xlinkTitle"), String::from_str(NS_XLINK)));
    namespaces.push((String::from_str("xlinkType"), String::from_str(NS_XLINK)));
    namespaces.push((String::from_str("xmlBase"), String::from_str(NS_XML)));
    namespaces.push((String::from_str("xmlLang"), String::from_str(NS_XML)));
    namespaces.push((String::from_str("xmlSpace"), String::from_str(NS_XML)));
    proof {
        lemma_str_pairs_view_elems(namespaces@);
        assert(str_pairs_view(namespaces@)[0] == svg_namespaces_spec()[0]);
        assert(str_pairs_view(namespaces@)[1] == svg_namespaces_spec()[1]);
        assert(str_pairs_view(namespaces@)[2] == svg_namespaces_spec()[2]);
        assert(str_pairs_view(namespaces@)[3] == svg_namespaces_spec()[3]);
        assert(str_pairs_view(namespaces@)[4] == svg_namespaces_spec()[4]);
        assert(str_pairs_view(namespaces@)[5] == svg_namespaces_spec()[5]);
        assert(str_pairs_view(namespaces@)[6] == svg_namespaces_spec()[6]);
        assert(str_pairs_view(namespaces@)[7] == svg_namespaces_spec()[7]);
        assert(str_pairs_view(namespaces@)[8] == svg_namespaces_spec()[8]);
        assert(str_pairs_view(namespaces@)[9] == svg_namespaces_spec()[9]);
        assert(str_pairs_view(namespaces@) =~= svg_namespaces_spec());
    }
    let attrs = svg_attr_table();
    let mut i: usize = 0;
    while i < attrs.len()
        invariant
            i <= attrs@.len(),
            attrs@.len() == svg_attr_names().len(),
            forall|j: int| 0 <= j < attrs@.len() ==> (#[trigger] attrs@[j])@ == svg_attr_names()[j],
            flag_pairs_view(properties@) == svg_properties_spec().subrange(0, 3 + i as int),
            str_pairs_view(names@) == svg_attribute_names_spec().subrange(0, 3 + i as int),
        decreases attrs@.len() - i,
    {
        let camel = camelize(attrs[i]);
        let ghost prev_props = properties@;
        let ghost prev_names = names@;
        properties.push((camel.clone(), 0u32));
        names.push((camel.clone(), String::from_str(attrs[i])));
        proof {
            lemma_flag_pairs_view_elems(properties@);
            lemma_str_pairs_view_elems(names@);
            assert(properties@.drop_last() =~= prev_props);
            assert(names@.drop_last() =~= prev_names);
            assert(svg_properties_spec()[3 + i as int] == (camelize_seq(svg_attr_names()[i as int]), 0u32));
            assert(svg_attribute_names_spec()[3 + i as int] == (camelize_seq(svg_attr_names()[i as int]), svg_attr_names()[i as int]));
            assert(flag_pairs_view(properties@) =~= svg_properties_spec().subrange(0, 3 + i as int + 1));
            assert(str_pairs_view(names@) =~= svg_attribute_names_spec().subrange(0, 3 + i as int + 1));
        }
        i = i + 1;
    }
    proof {
        assert(svg_properties_spec().subrange(0, svg_properties_spec().len() as int) =~= svg_properties_spec());
        assert(svg_attribute_names_spec().subrange(0, svg_attribute_names_spec().len() as int) =~= svg_attribute_names_spec());
    }
    DomPropertyConfig { properties, dom_attribute_names: names, dom_attribute_namespaces: namespaces }
}

} // verus!
