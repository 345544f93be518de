//! The component resolver boundary: the host constructs a component
//! instance and invokes its render operation; the renderer only sees
//! the returned node.

use vstd::prelude::*;
use crate::node::Node;
use crate::node::NodeV;
use crate::node::PropValue;
use crate::node::PropValueV;
use crate::node::values_view;
use crate::node::node_view;
use crate::node::dup_node;

verus! {

/// Resolves a composite node into its rendered replacement. The host
/// supplies the implementation; resolution is a function of the
/// resolver value, the component reference and the props.
pub trait ComponentResolver: Sized {
    /// What resolution returns, or `None` when the host fails.
    spec fn resolve_spec(&self, component: u64, props: Seq<(Seq<char>, PropValueV)>) -> Option<
        NodeV,
    >;

    /// Constructs the component for `component` with `props` and
    /// invokes its render operation.
    fn resolve(&self, component: u64, props: &Vec<(String, PropValue)>) -> (r: Option<Node>)
        ensures
            match r {
                Some(n) => self.resolve_spec(component, values_view(props@)) == Some(node_view(n)),
                None => self.resolve_spec(component, values_view(props@)) is None,
            },
    ;
}

/// The first template stored under a component reference.
pub open spec fn template_lookup(s: Seq<(u64, Node)>, component: u64, i: int) -> Option<NodeV>
    decreases s.len() - i,
{
    if i < 0 || i >= s.len() {
        None
    } else if s[i].0 == component {
        Some(node_view(s[i].1))
    } else {
        template_lookup(s, component, i + 1)
    }
}

/// A resolver that renders each component reference as a fixed
/// template tree, ignoring the props.
pub struct TableResolver {
    templates: Vec<(u64, Node)>,
}

impl TableResolver {
    /// The stored templates.
    pub closed spec fn templates_spec(&self) -> Seq<(u64, Node)> {
        self.templates@
    }

    /// An empty table.
    pub fn new() -> (r: TableResolver)
        ensures
            r.templates_spec() == Seq::<(u64, Node)>::empty(),
    {
        TableResolver { templates: Vec::new() }
    }

    /// Adds a template for a component reference.
    pub fn define(&mut self, component: u64, body: Node)
        ensures
            final(self).templates_spec() == old(self).templates_spec().push((component, body)),
    {
        self.templates.push((component, body));
    }
}

impl ComponentResolver for TableResolver {
    open spec fn resolve_spec(&self, component: u64, props: Seq<(Seq<char>, PropValueV)>) -> Option<
        NodeV,
    > {
        template_lookup(self.templates_spec(), component, 0)
    }

    fn resolve(&self, component: u64, props: &Vec<(String, PropValue)>) -> (r: Option<Node>) {
        let mut i: usize = 0;
        while i < self.templates.len()
            invariant
                i <= self.templates@.len(),
                template_lookup(self.templates@, component, 0) == template_lookup(
                    self.templates@,
                    component,
                    i as int,
                ),
            decreases self.templates@.len() - i,
        {
            if self.templates[i].0 == component {
                return Some(dup_node(&self.templates[i].1));
            }
            i = i + 1;
        }
        None
    }
}

} // verus!
