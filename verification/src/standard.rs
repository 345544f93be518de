//! The standard registry: the HTML and SVG configuration tables merged.

use vstd::prelude::*;
use crate::dom_property::PropertyRegistry;
use crate::dom_property::PropertyInfoV;
use crate::dom_property::inject_config;
use crate::dom_property::inject_dom_property_config;
use crate::html_config::html_dom_property_config;
use crate::html_config::html_properties_spec;
use crate::html_config::html_attribute_names_spec;
use crate::svg_config::svg_dom_property_config;
use crate::svg_config::svg_properties_spec;
use crate::svg_config::svg_attribute_names_spec;
use crate::svg_config::svg_namespaces_spec;

verus! {

/// The registry contents after injecting the HTML table and then the
/// SVG table into an empty registry; `None` if either injection fails.
pub open spec fn standard_properties() -> Option<Map<Seq<char>, PropertyInfoV>> {
    match inject_config(
        Map::empty(),
        html_properties_spec(),
        html_attribute_names_spec(),
        Seq::empty(),
    ) {
        None => None,
        Some(m) => inject_config(
            m,
            svg_properties_spec(),
            svg_attribute_names_spec(),
            svg_namespaces_spec(),
        ),
    }
}

/// Builds the standard registry from the HTML and SVG tables.
pub fn standard_property_registry() -> (r: Option<PropertyRegistry>)
    ensures
        match r {
            Some(reg) => reg.wf() && standard_properties() == Some(reg@),
            None => standard_properties() is None,
        },
{
    let mut reg = PropertyRegistry::new();
    let html = html_dom_property_config();
    if !inject_dom_property_config(&mut reg, &html) {
        return None;
    }
    let svg = svg_dom_property_config();
    if !inject_dom_property_config(&mut reg, &svg) {
        return None;
    }
    Some(reg)
}

} // verus!
