//! The two entry points: full markup with hydration markers, and
//! static markup without them.

use vstd::prelude::*;
use vstd::pervasive::unreached;
use crate::node::Node;
use crate::node::node_view;
use crate::dom_property::PropertyRegistry;
use crate::resolver::ComponentResolver;
use crate::tree_resolver::RenderError;
use crate::render_model::rendered_markup;
use crate::partial_renderer::DomServerRenderer;
use crate::partial_renderer::ReadSize;

verus! {

/// Renders a root node to its full document markup, hydration root
/// marker included.
pub fn render_to_string<R: ComponentResolver>(
    registry: PropertyRegistry,
    resolver: R,
    root: Node,
) -> (r: Result<String, RenderError>)
    requires
        registry.wf(),
    ensures
        match r {
            Ok(s) => rendered_markup(&resolver, registry@, node_view(root), false) == Ok::<
                Seq<char>,
                RenderError,
            >(s@),
            Err(e) => rendered_markup(&resolver, registry@, node_view(root), false) == Err::<
                Seq<char>,
                RenderError,
            >(e),
        },
{
    let mut renderer = DomServerRenderer::new(registry, resolver, root, false);
    match renderer.read(ReadSize::Infinity) {
        Ok(Some(html)) => {
            proof {
                assert(Seq::<char>::empty() + html@ =~= html@);
            }
            Ok(html)
        },
        Ok(None) => unreached(),
        Err(e) => Err(e),
    }
}

/// Renders a root node to static markup: the same traversal with the
/// root marker omitted.
pub fn render_to_static_markup<R: ComponentResolver>(
    registry: PropertyRegistry,
    resolver: R,
    root: Node,
) -> (r: Result<String, RenderError>)
    requires
        registry.wf(),
    ensures
        match r {
            Ok(s) => rendered_markup(&resolver, registry@, node_view(root), true) == Ok::<
                Seq<char>,
                RenderError,
            >(s@),
            Err(e) => rendered_markup(&resolver, registry@, node_view(root), true) == Err::<
                Seq<char>,
                RenderError,
            >(e),
        },
{
    let mut renderer = DomServerRenderer::new(registry, resolver, root, true);
    match renderer.read(ReadSize::Infinity) {
        Ok(Some(html)) => {
            proof {
                assert(Seq::<char>::empty() + html@ =~= html@);
            }
            Ok(html)
        },
        Ok(None) => unreached(),
        Err(e) => Err(e),
    }
}

} // verus!
