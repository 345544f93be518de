//! The tree resolver: classifies one node into a render unit, resolving
//! composite nodes through the component resolver under a resolution
//! budget.

use vstd::prelude::*;
use crate::escape::escape_seq;
use crate::escape::escape_html;
use crate::number::number_literal;
use crate::node::Node;
use crate::node::NodeV;
use crate::node::PropValue;
use crate::node::PropValueV;
use crate::node::node_view;
use crate::node::values_view;
use crate::node::nodes_view;
use crate::resolver::ComponentResolver;

verus! {

/// Why a render failed: an unrenderable node shape, a host failure
/// while resolving a component, or a resolution chain longer than the
/// budget (the guard against a component that renders forever).
#[derive(Clone, Copy, PartialEq, Eq, Structural, Debug)]
pub enum RenderError {
    InvalidNodeShape,
    ComponentFailure,
    ResolveDepthExceeded,
}

/// What one node renders as: nothing, escaped text, or a host element.
pub enum RenderUnit {
    Skip,
    Text(String),
    Elem { tag: String, props: Vec<(String, PropValue)>, children: Vec<Node> },
}

/// The mathematical view of a render unit.
pub enum UnitV {
    Skip,
    Text(Seq<char>),
    Elem { tag: Seq<char>, props: Seq<(Seq<char>, PropValueV)>, children: Seq<NodeV> },
}

/// The view of a render unit.
pub open spec fn unit_view(u: RenderUnit) -> UnitV {
    match u {
        RenderUnit::Skip => UnitV::Skip,
        RenderUnit::Text(s) => UnitV::Text(s@),
        RenderUnit::Elem { tag, props, children } => UnitV::Elem {
            tag: tag@,
            props: values_view(props@),
            children: nodes_view(children@),
        },
    }
}

/// The render unit of a node, with the resolution budget that is left:
/// boolean, null and undefined nodes are skipped, text and numbers are
/// escaped text, a host element is itself, a fragment here is a shape
/// error, and a composite is resolved and classified again, spending
/// one unit of budget per resolution.
pub open spec fn unit_of<R: ComponentResolver>(r: &R, node: NodeV, fuel: nat) -> Result<
    (UnitV, nat),
    RenderError,
>
    decreases fuel,
{
    match node {
        NodeV::Bool(_) => Ok((UnitV::Skip, fuel)),
        NodeV::Null => Ok((UnitV::Skip, fuel)),
        NodeV::Undefined => Ok((UnitV::Skip, fuel)),
        NodeV::Text(s) => Ok((UnitV::Text(escape_seq(s)), fuel)),
        NodeV::Number(d) => Ok((UnitV::Text(number_literal(d)), fuel)),
        NodeV::Host { tag, props, children } => Ok((UnitV::Elem { tag, props, children }, fuel)),
        NodeV::Fragment(_) => Err(RenderError::InvalidNodeShape),
        NodeV::Composite { component, props } => if fuel == 0 {
            Err(RenderError::ResolveDepthExceeded)
        } else {
            match r.resolve_spec(component, props) {
                None => Err(RenderError::ComponentFailure),
                Some(n) => unit_of(r, n, (fuel - 1) as nat),
            }
        },
    }
}

/// Classification spends budget, and returns the budget unchanged only
/// when the node itself was its unit (no resolution happened).
pub proof fn lemma_unit_of_fuel<R: ComponentResolver>(r: &R, node: NodeV, fuel: nat)
    ensures
        match unit_of(r, node, fuel) {
            Ok((u, f2)) => f2 <= fuel && ((u is Elem && f2 == fuel) ==> node == (NodeV::Host {
                tag: u->Elem_tag,
                props: u->Elem_props,
                children: u->Elem_children,
            })),
            Err(_) => true,
        },
    decreases fuel,
{
    match node {
        NodeV::Composite { component, props } => {
            if fuel > 0 {
                match r.resolve_spec(component, props) {
                    None => {},
                    Some(n) => {
                        lemma_unit_of_fuel(r, n, (fuel - 1) as nat);
                    },
                }
            }
        },
        _ => {},
    }
}

/// Classifies one node, resolving composites through the resolver.
pub fn resolve_unit<R: ComponentResolver>(resolver: &R, node: Node, fuel: usize) -> (r: Result<
    (RenderUnit, usize),
    RenderError,
>)
    ensures
        match unit_of(resolver, node_view(node), fuel as nat) {
            Ok((uv, f2)) => r matches Ok(p) && unit_view(p.0) == uv && p.1 as nat == f2,
            Err(e) => r == Err::<(RenderUnit, usize), RenderError>(e),
        },
    decreases fuel,
{
    match node {
        Node::Bool(_) => Ok((RenderUnit::Skip, fuel)),
        Node::Null => Ok((RenderUnit::Skip, fuel)),
        Node::Undefined => Ok((RenderUnit::Skip, fuel)),
        Node::Text(s) => Ok((RenderUnit::Text(escape_html(s.as_str())), fuel)),
        Node::Number(d) => Ok((RenderUnit::Text(d.to_literal()), fuel)),
        Node::Host { tag, props, children } => Ok((RenderUnit::Elem { tag, props, children }, fuel)),
        Node::Fragment(_) => Err(RenderError::InvalidNodeShape),
        Node::Composite { component, props } => {
            if fuel == 0 {
                Err(RenderError::ResolveDepthExceeded)
            } else {
                match resolver.resolve(component, &props) {
                    None => Err(RenderError::ComponentFailure),
                    Some(n) => resolve_unit(resolver, n, fuel - 1),
                }
            }
        },
    }
}

} // verus!
