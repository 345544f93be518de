//! The rendering model: what markup a node tree denotes, stated as
//! recursive functions over the tree and the resolution budget.

use vstd::prelude::*;
use crate::strutil::lower_seq;
use crate::node::NodeV;
use crate::node::PropValueV;
use crate::node::node_size;
use crate::node::seq_size;
use crate::node::flatten_children;
use crate::node::lemma_flatten_size;
use crate::node::lemma_node_size_pos;
use crate::markup::open_tag_markup;
use crate::markup::omitted_close_tag;
use crate::markup::newline_eating_tag;
use crate::markup::inner_markup;
use crate::dom_property::PropertyInfoV;
use crate::resolver::ComponentResolver;
use crate::tree_resolver::RenderError;
use crate::tree_resolver::UnitV;
use crate::tree_resolver::unit_of;
use crate::tree_resolver::lemma_unit_of_fuel;

verus! {

/// The resolution budget of one render session: how many composite
/// resolutions a render may spend before it reports a cycle.
pub const RESOLVE_LIMIT: usize = 4096;

/// The smaller of two budgets.
pub open spec fn cap_fuel(a: nat, b: nat) -> nat {
    if a <= b {
        a
    } else {
        b
    }
}

/// The markup of a child list, given whether the previously emitted
/// sibling at this level was text: skipped units leave no trace, a text
/// unit after a text unit is preceded by an empty comment, and host
/// units render as elements.
pub open spec fn markup_list<R: ComponentResolver>(
    r: &R,
    reg: Map<Seq<char>, PropertyInfoV>,
    items: Seq<NodeV>,
    prev_text: bool,
    make_static: bool,
    fuel: nat,
) -> Result<(Seq<char>, nat), RenderError>
    decreases fuel, seq_size(items), 1int,
    via markup_list_decreases::<R>
{
    if items.len() == 0 {
        Ok((Seq::empty(), fuel))
    } else {
        match unit_of(r, items[0], fuel) {
            Err(e) => Err(e),
            Ok((u, f2)) => match u {
                UnitV::Skip => markup_list(r, reg, items.drop_first(), prev_text, make_static, f2),
                UnitV::Text(t) => match markup_list(
                    r,
                    reg,
                    items.drop_first(),
                    true,
                    make_static,
                    f2,
                ) {
                    Err(e) => Err(e),
                    Ok((rest, f3)) => Ok(
                        (
                            (if prev_text {
                                "<!-- -->"@
                            } else {
                                Seq::<char>::empty()
                            }) + t + rest,
                            f3,
                        ),
                    ),
                },
                UnitV::Elem { tag, props, children } => match markup_host(
                    r,
                    reg,
                    tag,
                    props,
                    children,
                    false,
                    make_static,
                    f2,
                ) {
                    Err(e) => Err(e),
                    Ok((h, f3)) => match markup_list(
                        r,
                        reg,
                        items.drop_first(),
                        false,
                        make_static,
                        cap_fuel(f3, fuel),
                    ) {
                        Err(e) => Err(e),
                        Ok((rest, f4)) => Ok((h + rest, f4)),
                    },
                },
            },
        }
    }
}

#[via_fn]
proof fn markup_list_decreases<R: ComponentResolver>(
    r: &R,
    reg: Map<Seq<char>, PropertyInfoV>,
    items: Seq<NodeV>,
    prev_text: bool,
    make_static: bool,
    fuel: nat,
) {
    if items.len() > 0 {
        lemma_unit_of_fuel(r, items[0], fuel);
        lemma_node_size_pos(items[0]);
        assert(seq_size(items) == node_size(items[0]) + seq_size(items.drop_first()));
    }
}

/// The markup of one host element: the open tag, `/>` for an
/// omitted-close tag or `>` and a closing tag otherwise, and in
/// between either the element's direct inner markup (with a leading
/// newline doubled for newline-eating tags) or its rendered children.
pub open spec fn markup_host<R: ComponentResolver>(
    r: &R,
    reg: Map<Seq<char>, PropertyInfoV>,
    tag: Seq<char>,
    props: Seq<(Seq<char>, PropValueV)>,
    children: Seq<NodeV>,
    is_root: bool,
    make_static: bool,
    fuel: nat,
) -> Result<(Seq<char>, nat), RenderError>
    decreases fuel, 1 + seq_size(children), 0int,
    via markup_host_decreases::<R>
{
    let tag_lc = lower_seq(tag);
    let open = open_tag_markup(reg, tag, tag_lc, props, make_static, is_root);
    let flat = flatten_children(children);
    let close = if omitted_close_tag(tag_lc) {
        "/>"@
    } else {
        ">"@
    };
    let footer = if omitted_close_tag(tag_lc) {
        Seq::<char>::empty()
    } else {
        "</"@ + tag + ">"@
    };
    match inner_markup(props, flat) {
        Some(content) => {
            let content2 = if newline_eating_tag(tag_lc) && content.len() > 0 && content[0] == '\n' {
                "\n"@ + content
            } else {
                content
            };
            Ok((open + close + content2 + footer, fuel))
        },
        None => match markup_list(r, reg, flat, false, make_static, fuel) {
            Err(e) => Err(e),
            Ok((body, f2)) => Ok((open + close + body + footer, f2)),
        },
    }
}

#[via_fn]
proof fn markup_host_decreases<R: ComponentResolver>(
    r: &R,
    reg: Map<Seq<char>, PropertyInfoV>,
    tag: Seq<char>,
    props: Seq<(Seq<char>, PropValueV)>,
    children: Seq<NodeV>,
    is_root: bool,
    make_static: bool,
    fuel: nat,
) {
    lemma_flatten_size(children);
}

/// A render leaves at least as much budget as it returns.
pub proof fn lemma_markup_list_fuel<R: ComponentResolver>(
    r: &R,
    reg: Map<Seq<char>, PropertyInfoV>,
    items: Seq<NodeV>,
    prev_text: bool,
    make_static: bool,
    fuel: nat,
)
    ensures
        match markup_list(r, reg, items, prev_text, make_static, fuel) {
            Ok((_, f2)) => f2 <= fuel,
            Err(_) => true,
        },
    decreases fuel, seq_size(items), 1int,
{
    if items.len() > 0 {
        lemma_unit_of_fuel(r, items[0], fuel);
        lemma_node_size_pos(items[0]);
        assert(seq_size(items) == node_size(items[0]) + seq_size(items.drop_first()));
        match unit_of(r, items[0], fuel) {
            Err(_) => {},
            Ok((u, f2)) => match u {
                UnitV::Skip => {
                    lemma_markup_list_fuel(r, reg, items.drop_first(), prev_text, make_static, f2);
                },
                UnitV::Text(_) => {
                    lemma_markup_list_fuel(r, reg, items.drop_first(), true, make_static, f2);
                },
                UnitV::Elem { tag, props, children } => {
                    lemma_markup_host_fuel(r, reg, tag, props, children, false, make_static, f2);
                    match markup_host(r, reg, tag, props, children, false, make_static, f2) {
                        Err(_) => {},
                        Ok((_, f3)) => {
                            lemma_markup_list_fuel(
                                r,
                                reg,
                                items.drop_first(),
                                false,
                                make_static,
                                cap_fuel(f3, fuel),
                            );
                        },
                    }
                },
            },
        }
    }
}

/// A host render leaves at least as much budget as it returns.
pub proof fn lemma_markup_host_fuel<R: ComponentResolver>(
    r: &R,
    reg: Map<Seq<char>, PropertyInfoV>,
    tag: Seq<char>,
    props: Seq<(Seq<char>, PropValueV)>,
    children: Seq<NodeV>,
    is_root: bool,
    make_static: bool,
    fuel: nat,
)
    ensures
        match markup_host(r, reg, tag, props, children, is_root, make_static, fuel) {
            Ok((_, f2)) => f2 <= fuel,
            Err(_) => true,
        },
    decreases fuel, 1 + seq_size(children), 0int,
{
    lemma_flatten_size(children);
    let flat = flatten_children(children);
    match inner_markup(props, flat) {
        Some(_) => {},
        None => {
            lemma_markup_list_fuel(r, reg, flat, false, make_static, fuel);
        },
    }
}

/// The markup of a whole render session's root node.
pub open spec fn markup_root<R: ComponentResolver>(
    r: &R,
    reg: Map<Seq<char>, PropertyInfoV>,
    node: NodeV,
    make_static: bool,
    fuel: nat,
) -> Result<Seq<char>, RenderError> {
    match unit_of(r, node, fuel) {
        Err(e) => Err(e),
        Ok((u, f2)) => match u {
            UnitV::Skip => Ok(Seq::empty()),
            UnitV::Text(t) => Ok(t),
            UnitV::Elem { tag, props, children } => match markup_host(
                r,
                reg,
                tag,
                props,
                children,
                true,
                make_static,
                f2,
            ) {
                Err(e) => Err(e),
                Ok((s, _)) => Ok(s),
            },
        },
    }
}

/// The markup a root node renders to under the session budget.
pub open spec fn rendered_markup<R: ComponentResolver>(
    r: &R,
    reg: Map<Seq<char>, PropertyInfoV>,
    node: NodeV,
    make_static: bool,
) -> Result<Seq<char>, RenderError> {
    markup_root(r, reg, node, make_static, RESOLVE_LIMIT as nat)
}

} // verus!
