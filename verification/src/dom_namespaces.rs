//! Markup namespaces and their propagation down a subtree.

use vstd::prelude::*;
use crate::strutil::str_eq;

verus! {

pub const HTML_NAMESPACE: &'static str = "http://www.w3.org/1999/xhtml";

pub const MATH_NAMESPACE: &'static str = "http://www.w3.org/1998/Math/MathML";

pub const SVG_NAMESPACE: &'static str = "http://www.w3.org/2000/svg";

/// The three markup namespaces a subtree can live in.
#[derive(Clone, Copy, PartialEq, Eq, Structural, Debug)]
pub enum DomNamespace {
    Html,
    MathMl,
    Svg,
}

/// The namespace a tag establishes for itself: `svg` and `math` open
/// their own namespaces, everything else is markup.
pub open spec fn intrinsic_namespace(tag: Seq<char>) -> DomNamespace {
    if tag == "svg"@ {
        DomNamespace::Svg
    } else if tag == "math"@ {
        DomNamespace::MathMl
    } else {
        DomNamespace::Html
    }
}

/// The namespace of a child element: inside markup the tag decides;
/// inside svg a `foreignObject` returns to markup; otherwise the
/// parent's namespace is kept.
pub open spec fn child_namespace(parent: Option<DomNamespace>, tag: Seq<char>) -> DomNamespace {
    if parent is None || parent == Some(DomNamespace::Html) {
        intrinsic_namespace(tag)
    } else if parent == Some(DomNamespace::Svg) && tag == "foreignObject"@ {
        DomNamespace::Html
    } else {
        parent->0
    }
}

/// The namespace a tag establishes for itself.
pub fn get_intrinsic_namespace(t: &str) -> (r: DomNamespace)
    ensures
        r == intrinsic_namespace(t@),
{
    if str_eq(t, "svg") {
        DomNamespace::Svg
    } else if str_eq(t, "math") {
        DomNamespace::MathMl
    } else {
        DomNamespace::Html
    }
}

/// The namespace of a child element under the given parent namespace.
pub fn get_child_namespace(parent: Option<DomNamespace>, t: &str) -> (r: DomNamespace)
    ensures
        r == child_namespace(parent, t@),
{
    match parent {
        None => get_intrinsic_namespace(t),
        Some(DomNamespace::Html) => get_intrinsic_namespace(t),
        Some(DomNamespace::Svg) => {
            if str_eq(t, "foreignObject") {
                DomNamespace::Html
            } else {
                DomNamespace::Svg
            }
        },
        Some(DomNamespace::MathMl) => DomNamespace::MathMl,
    }
}

/// The textual identifier of a namespace.
pub fn namespace_uri(ns: DomNamespace) -> (r: &'static str)
    ensures
        ns == DomNamespace::Html ==> r@ == HTML_NAMESPACE@,
        ns == DomNamespace::MathMl ==> r@ == MATH_NAMESPACE@,
        ns == DomNamespace::Svg ==> r@ == SVG_NAMESPACE@,
{
    match ns {
        DomNamespace::Html => HTML_NAMESPACE,
        DomNamespace::MathMl => MATH_NAMESPACE,
        DomNamespace::Svg => SVG_NAMESPACE,
    }
}

} // verus!
