//! The streaming renderer: a frame stack drives resolution and encoding
//! in document order, and a pull-based `read` stops once the requested
//! number of characters has been produced and resumes later from the
//! same position.

use vstd::prelude::*;
use vstd::string::StrSliceExecFns;
use vstd::string::StringExecFns;
use crate::strutil::to_ascii_lowercase;
use crate::node::Node;
use crate::node::PropValue;
use crate::node::NodeV;
use crate::node::node_view;
use crate::node::nodes_view;
use crate::node::values_view;
use crate::node::get_children;
use crate::node::flatten_children;
use crate::node::node_size;
use crate::node::seq_size;
use crate::node::lemma_node_size_pos;
use crate::node::lemma_flatten_size;
use crate::node::lemma_nodes_view_drop_first;
use crate::node::lemma_nodes_view_elems;
use crate::dom_namespaces::DomNamespace;
use crate::dom_namespaces::get_child_namespace;
use crate::dom_property::PropertyRegistry;
use crate::dom_property::PropertyInfoV;
use crate::validation::ValidationCache;
use crate::validation::validate_dangerous_tag;
use crate::css::StyleNameCache;
use crate::markup::create_open_tag_markup;
use crate::markup::open_tag_markup;
use crate::markup::get_non_children_inner_markup;
use crate::markup::inner_markup;
use crate::markup::is_omitted_close_tag;
use crate::markup::omitted_close_tag;
use crate::markup::is_newline_eating_tag;
use crate::markup::newline_eating_tag;
use crate::resolver::ComponentResolver;
use crate::tree_resolver::RenderError;
use crate::tree_resolver::RenderUnit;
use crate::tree_resolver::UnitV;
use crate::tree_resolver::unit_of;
use crate::tree_resolver::unit_view;
use crate::tree_resolver::resolve_unit;
use crate::tree_resolver::lemma_unit_of_fuel;
use crate::render_model::RESOLVE_LIMIT;
use crate::render_model::cap_fuel;
use crate::render_model::markup_list;
use crate::render_model::markup_host;
use crate::render_model::markup_root;
use crate::render_model::rendered_markup;
use crate::render_model::lemma_markup_list_fuel;

verus! {

/// How much output one `read` call should produce before it suspends.
#[derive(PartialEq, Eq, Structural)]
pub enum ReadSize {
    Infinity,
    Size(usize),
}

/// Whether a chunk of the given length meets the requested size.
pub open spec fn budget_met(size: ReadSize, len: nat) -> bool {
    match size {
        ReadSize::Infinity => false,
        ReadSize::Size(n) => len >= n,
    }
}


/// The ordering on read sizes: infinity above every finite size.
pub open spec fn read_size_order(a: ReadSize, b: ReadSize) -> core::cmp::Ordering {
    match (a, b) {
        (ReadSize::Infinity, ReadSize::Infinity) => core::cmp::Ordering::Equal,
        (ReadSize::Infinity, ReadSize::Size(_)) => core::cmp::Ordering::Greater,
        (ReadSize::Size(_), ReadSize::Infinity) => core::cmp::Ordering::Less,
        (ReadSize::Size(x), ReadSize::Size(y)) => if x < y {
            core::cmp::Ordering::Less
        } else if x == y {
            core::cmp::Ordering::Equal
        } else {
            core::cmp::Ordering::Greater
        },
    }
}

impl vstd::std_specs::cmp::PartialOrdSpecImpl for ReadSize {
    open spec fn obeys_partial_cmp_spec() -> bool {
        true
    }

    open spec fn partial_cmp_spec(&self, other: &ReadSize) -> Option<core::cmp::Ordering> {
        Some(read_size_order(*self, *other))
    }
}

impl PartialOrd for ReadSize {
    fn partial_cmp(&self, other: &ReadSize) -> (r: Option<core::cmp::Ordering>) {
        Some(
            match (self, other) {
                (ReadSize::Infinity, ReadSize::Infinity) => core::cmp::Ordering::Equal,
                (ReadSize::Infinity, ReadSize::Size(_)) => core::cmp::Ordering::Greater,
                (ReadSize::Size(_), ReadSize::Infinity) => core::cmp::Ordering::Less,
                (ReadSize::Size(a), ReadSize::Size(b)) => if a < b {
                    core::cmp::Ordering::Less
                } else if a == b {
                    core::cmp::Ordering::Equal
                } else {
                    core::cmp::Ordering::Greater
                },
            },
        )
    }
}

/// One open host element during traversal: its namespace, the children
/// still to render, whether the previously emitted child was text, and
/// the closing text to flush when the children are exhausted.
pub struct Frame {
    dom_namespace: DomNamespace,
    children: Vec<Node>,
    prev_was_text: bool,
    footer: String,
}

/// The markup the frames still owe, innermost frame first, threading
/// the resolution budget.
pub closed spec fn frames_markup<R: ComponentResolver>(
    r: &R,
    reg: Map<Seq<char>, PropertyInfoV>,
    stack: Seq<Frame>,
    make_static: bool,
    fuel: nat,
) -> Result<(Seq<char>, nat), RenderError>
    decreases stack.len(),
{
    if stack.len() == 0 {
        Ok((Seq::empty(), fuel))
    } else {
        let top = stack.last();
        match markup_list(r, reg, nodes_view(top.children@), top.prev_was_text, make_static, fuel) {
            Err(e) => Err(e),
            Ok((s, f2)) => match frames_markup(r, reg, stack.drop_last(), make_static, f2) {
                Err(e) => Err(e),
                Ok((rest, f3)) => Ok((s + top.footer@ + rest, f3)),
            },
        }
    }
}

/// The machine relation of a running session: the output already
/// produced plus what the stack still owes is the session's markup.
pub closed spec fn machine_inv<R: ComponentResolver>(
    r: &R,
    reg: Map<Seq<char>, PropertyInfoV>,
    stack: Seq<Frame>,
    make_static: bool,
    fuel: nat,
    exhausted: bool,
    produced: Seq<char>,
    total: Result<Seq<char>, RenderError>,
) -> bool {
    if exhausted {
        total == Ok::<Seq<char>, RenderError>(produced) && stack.len() == 0
    } else {
        match frames_markup(r, reg, stack, make_static, fuel) {
            Err(e) => total == Err::<Seq<char>, RenderError>(e),
            Ok((rem, _)) => total == Ok::<Seq<char>, RenderError>(produced + rem),
        }
    }
}

/// One machine step that emits a piece and advances the top frame past
/// its first child preserves the machine relation.
proof fn lemma_step_emit<R: ComponentResolver>(
    r: &R,
    reg: Map<Seq<char>, PropertyInfoV>,
    stat: bool,
    stack1: Seq<Frame>,
    f0: Frame,
    f1: Frame,
    items0: Seq<NodeV>,
    prev1: bool,
    piece: Seq<char>,
    fuel0: nat,
    f2: nat,
    produced: Seq<char>,
    total: Result<Seq<char>, RenderError>,
)
    requires
        machine_inv(r, reg, stack1.push(f0), stat, fuel0, false, produced, total),
        nodes_view(f0.children@) == items0,
        items0.len() > 0,
        nodes_view(f1.children@) == items0.drop_first(),
        f1.prev_was_text == prev1,
        f1.footer@ == f0.footer@,
        markup_list(r, reg, items0, f0.prev_was_text, stat, fuel0) == (match markup_list(
            r,
            reg,
            items0.drop_first(),
            prev1,
            stat,
            f2,
        ) {
            Err(e) => Err::<(Seq<char>, nat), RenderError>(e),
            Ok((rest, f3)) => Ok::<(Seq<char>, nat), RenderError>((piece + rest, f3)),
        }),
    ensures
        machine_inv(r, reg, stack1.push(f1), stat, f2, false, produced + piece, total),
{
    assert(stack1.push(f0).drop_last() =~= stack1);
    assert(stack1.push(f1).drop_last() =~= stack1);
    match markup_list(r, reg, items0.drop_first(), prev1, stat, f2) {
        Err(e) => {},
        Ok((rest, f3)) => {
            match frames_markup(r, reg, stack1, stat, f3) {
                Err(e) => {},
                Ok((below, f4)) => {
                    assert(produced + (piece + rest + f0.footer@ + below) =~= (produced + piece) + (
                    rest + f1.footer@ + below));
                },
            }
        },
    }
}

/// One machine step that opens a host element — emitting its opening
/// markup and pushing a frame for its children — preserves the machine
/// relation.
proof fn lemma_step_push<R: ComponentResolver>(
    r: &R,
    reg: Map<Seq<char>, PropertyInfoV>,
    stat: bool,
    stack1: Seq<Frame>,
    f0: Frame,
    f1: Frame,
    f2frame: Frame,
    items0: Seq<NodeV>,
    inner_items: Seq<NodeV>,
    piece: Seq<char>,
    fuel0: nat,
    fmid: nat,
    produced: Seq<char>,
    total: Result<Seq<char>, RenderError>,
)
    requires
        machine_inv(r, reg, stack1.push(f0), stat, fuel0, false, produced, total),
        nodes_view(f0.children@) == items0,
        items0.len() > 0,
        nodes_view(f1.children@) == items0.drop_first(),
        f1.prev_was_text == false,
        f1.footer@ == f0.footer@,
        nodes_view(f2frame.children@) == inner_items,
        f2frame.prev_was_text == false,
        markup_list(r, reg, items0, f0.prev_was_text, stat, fuel0) == (match markup_list(
            r,
            reg,
            inner_items,
            false,
            stat,
            fmid,
        ) {
            Err(e) => Err::<(Seq<char>, nat), RenderError>(e),
            Ok((body, f3)) => match markup_list(r, reg, items0.drop_first(), false, stat, f3) {
                Err(e) => Err::<(Seq<char>, nat), RenderError>(e),
                Ok((rest, f4)) => Ok::<(Seq<char>, nat), RenderError>(
                    (piece + body + f2frame.footer@ + rest, f4),
                ),
            },
        }),
    ensures
        machine_inv(
            r,
            reg,
            stack1.push(f1).push(f2frame),
            stat,
            fmid,
            false,
            produced + piece,
            total,
        ),
{
    assert(stack1.push(f0).drop_last() =~= stack1);
    assert(stack1.push(f1).push(f2frame).drop_last() =~= stack1.push(f1));
    assert(stack1.push(f1).drop_last() =~= stack1);
    match markup_list(r, reg, inner_items, false, stat, fmid) {
        Err(e) => {
            assert(markup_list(r, reg, items0, f0.prev_was_text, stat, fuel0) == Err::<
                (Seq<char>, nat),
                RenderError,
            >(e));
            assert(frames_markup(r, reg, stack1.push(f0), stat, fuel0) == Err::<
                (Seq<char>, nat),
                RenderError,
            >(e));
            assert(frames_markup(r, reg, stack1.push(f1).push(f2frame), stat, fmid) == Err::<
                (Seq<char>, nat),
                RenderError,
            >(e));
        },
        Ok((body, f3)) => {
            match markup_list(r, reg, items0.drop_first(), false, stat, f3) {
                Err(e) => {
                    assert(markup_list(r, reg, items0, f0.prev_was_text, stat, fuel0) == Err::<
                        (Seq<char>, nat),
                        RenderError,
                    >(e));
                    assert(frames_markup(r, reg, stack1.push(f0), stat, fuel0) == Err::<
                        (Seq<char>, nat),
                        RenderError,
                    >(e));
                    assert(frames_markup(r, reg, stack1.push(f1), stat, f3) == Err::<
                        (Seq<char>, nat),
                        RenderError,
                    >(e));
                    assert(frames_markup(r, reg, stack1.push(f1).push(f2frame), stat, fmid)
                        == Err::<(Seq<char>, nat), RenderError>(e));
                },
                Ok((rest, f4)) => {
                    assert(markup_list(r, reg, items0, f0.prev_was_text, stat, fuel0) == Ok::<
                        (Seq<char>, nat),
                        RenderError,
                    >((piece + body + f2frame.footer@ + rest, f4)));
                    match frames_markup(r, reg, stack1, stat, f4) {
                        Err(e) => {
                            assert(frames_markup(r, reg, stack1.push(f0), stat, fuel0) == Err::<
                                (Seq<char>, nat),
                                RenderError,
                            >(e));
                            assert(frames_markup(r, reg, stack1.push(f1), stat, f3) == Err::<
                                (Seq<char>, nat),
                                RenderError,
                            >(e));
                            assert(frames_markup(r, reg, stack1.push(f1).push(f2frame), stat, fmid)
                                == Err::<(Seq<char>, nat), RenderError>(e));
                        },
                        Ok((below, f5)) => {
                            assert(frames_markup(r, reg, stack1.push(f0), stat, fuel0) == Ok::<
                                (Seq<char>, nat),
                                RenderError,
                            >(((piece + body + f2frame.footer@ + rest) + f0.footer@ + below, f5)));
                            assert(frames_markup(r, reg, stack1.push(f1), stat, f3) == Ok::<
                                (Seq<char>, nat),
                                RenderError,
                            >((rest + f1.footer@ + below, f5)));
                            assert(frames_markup(r, reg, stack1.push(f1).push(f2frame), stat, fmid)
                                == Ok::<(Seq<char>, nat), RenderError>(
                                (body + f2frame.footer@ + (rest + f1.footer@ + below), f5),
                            ));
                            assert(produced + ((piece + body + f2frame.footer@ + rest) + f0.footer@
                                + below) =~= (produced + piece) + (body + f2frame.footer@ + (rest
                                + f1.footer@ + below)));
                        },
                    }
                },
            }
        },
    }
}

/// Flushing the footer of a frame whose children are exhausted
/// preserves the machine relation; the session ends when it was the
/// last frame.
proof fn lemma_step_pop<R: ComponentResolver>(
    r: &R,
    reg: Map<Seq<char>, PropertyInfoV>,
    stat: bool,
    stack1: Seq<Frame>,
    f0: Frame,
    fuel0: nat,
    produced: Seq<char>,
    total: Result<Seq<char>, RenderError>,
)
    requires
        machine_inv(r, reg, stack1.push(f0), stat, fuel0, false, produced, total),
        nodes_view(f0.children@).len() == 0,
    ensures
        stack1.len() > 0 ==> machine_inv(
            r,
            reg,
            stack1,
            stat,
            fuel0,
            false,
            produced + f0.footer@,
            total,
        ),
        stack1.len() == 0 ==> machine_inv(
            r,
            reg,
            stack1,
            stat,
            fuel0,
            true,
            produced + f0.footer@,
            total,
        ),
{
    assert(stack1.push(f0).drop_last() =~= stack1);
    assert(nodes_view(f0.children@) =~= Seq::<NodeV>::empty());
    assert(markup_list(r, reg, nodes_view(f0.children@), f0.prev_was_text, stat, fuel0) == Ok::<
        (Seq<char>, nat),
        RenderError,
    >((Seq::<char>::empty(), fuel0)));
    match frames_markup(r, reg, stack1, stat, fuel0) {
        Err(e) => {},
        Ok((below, f4)) => {
            assert(produced + (Seq::<char>::empty() + f0.footer@ + below) =~= (produced
                + f0.footer@) + below);
            if stack1.len() == 0 {
                assert(below =~= Seq::<char>::empty());
                assert((produced + f0.footer@) + below =~= produced + f0.footer@);
            }
        },
    }
}

/// The traversal work still on the stack, the loop measure of `read`.
pub closed spec fn stack_measure(stack: Seq<Frame>) -> nat
    decreases stack.len(),
{
    if stack.len() == 0 {
        0
    } else {
        stack_measure(stack.drop_last()) + seq_size(nodes_view(stack.last().children@)) + 1
    }
}

/// The streaming renderer: one render session over one root node.
pub struct DomServerRenderer<R: ComponentResolver> {
    registry: PropertyRegistry,
    caches: ValidationCache,
    style_names: StyleNameCache,
    resolver: R,
    root_pending: Option<Node>,
    stack: Vec<Frame>,
    fuel: usize,
    exhausted: bool,
    failed: Option<RenderError>,
    static_markup: bool,
    emitted: Ghost<Seq<char>>,
    root: Ghost<NodeV>,
}

impl<R: ComponentResolver> DomServerRenderer<R> {
    /// The markup this whole session denotes.
    pub closed spec fn total_spec(&self) -> Result<Seq<char>, RenderError> {
        rendered_markup(&self.resolver, self.registry@, self.root@, self.static_markup)
    }

    /// Everything `read` has handed out so far.
    pub closed spec fn emitted(&self) -> Seq<char> {
        self.emitted@
    }

    /// Whether the session is over (the tree was exhausted or the
    /// render failed).
    pub closed spec fn done(&self) -> bool {
        self.exhausted
    }

    /// The markup the session still owes.
    pub closed spec fn remaining_spec(&self) -> Result<Seq<char>, RenderError> {
        match self.root_pending {
            Some(n) => markup_root(
                &self.resolver,
                self.registry@,
                node_view(n),
                self.static_markup,
                self.fuel as nat,
            ),
            None => match frames_markup(
                &self.resolver,
                self.registry@,
                self.stack@,
                self.static_markup,
                self.fuel as nat,
            ) {
                Err(e) => Err(e),
                Ok((s, _)) => Ok(s),
            },
        }
    }

    /// The output handed out so far, the state on the stack, and the
    /// session's total markup agree.
    pub closed spec fn wf(&self) -> bool {
        &&& self.registry.wf()
        &&& self.caches.wf()
        &&& self.style_names.wf()
        &&& self.root_pending is Some ==> self.stack@.len() == 0
        &&& (self.failed is None && !self.exhausted && self.root_pending is None)
            ==> self.stack@.len() > 0
        &&& match self.failed {
            Some(e) => self.total_spec() == Err::<Seq<char>, RenderError>(e) && self.exhausted,
            None => {
                if self.exhausted {
                    &&& self.total_spec() == Ok::<Seq<char>, RenderError>(self.emitted@)
                    &&& self.stack@.len() == 0
                    &&& self.root_pending is None
                } else {
                    match self.remaining_spec() {
                        Ok(rem) => self.total_spec() == Ok::<Seq<char>, RenderError>(
                            self.emitted@ + rem,
                        ),
                        Err(e) => self.total_spec() == Err::<Seq<char>, RenderError>(e),
                    }
                }
            },
        }
    }

    /// Starts a render session over one root node.
    pub fn new(registry: PropertyRegistry, resolver: R, root: Node, static_markup: bool) -> (r:
        Self)
        requires
            registry.wf(),
        ensures
            r.wf(),
            !r.done(),
            r.emitted() == Seq::<char>::empty(),
            r.total_spec() == rendered_markup(&resolver, registry@, node_view(root), static_markup),
    {
        let ghost rootv = node_view(root);
        let r = DomServerRenderer {
            registry,
            caches: ValidationCache::new(),
            style_names: StyleNameCache::new(),
            resolver,
            root_pending: Some(root),
            stack: Vec::new(),
            fuel: RESOLVE_LIMIT,
            exhausted: false,
            failed: None,
            static_markup,
            emitted: Ghost(Seq::empty()),
            root: Ghost(rootv),
        };
        proof {
            assert(Seq::<char>::empty() + (match r.remaining_spec() {
                Ok(rem) => rem,
                Err(_) => Seq::<char>::empty(),
            }) =~= (match r.remaining_spec() {
                Ok(rem) => rem,
                Err(_) => Seq::<char>::empty(),
            }));
        }
        r
    }

    /// Emits the opening markup of one host element and either inlines
    /// its direct content (returning no frame) or prepares the frame
    /// that will render its children and closing text.
    #[verifier::rlimit(100)]
    fn open_element(
        &mut self,
        chunk: &mut String,
        tag: String,
        props: Vec<(String, PropValue)>,
        children: Vec<Node>,
        is_root: bool,
        parent_ns: DomNamespace,
    ) -> (nf: Option<Frame>)
        requires
            old(self).registry.wf(),
            old(self).caches.wf(),
            old(self).style_names.wf(),
        ensures
            final(self).registry == old(self).registry,
            final(self).registry.wf(),
            final(self).caches.wf(),
            final(self).style_names.wf(),
            final(self).resolver == old(self).resolver,
            final(self).root_pending == old(self).root_pending,
            final(self).stack == old(self).stack,
            final(self).fuel == old(self).fuel,
            final(self).exhausted == old(self).exhausted,
            final(self).failed == old(self).failed,
            final(self).static_markup == old(self).static_markup,
            final(self).emitted == old(self).emitted,
            final(self).root == old(self).root,
            ({
                let delta = final(chunk)@.subrange(
                    old(chunk)@.len() as int,
                    final(chunk)@.len() as int,
                );
                &&& final(chunk)@ == old(chunk)@ + delta
                &&& match nf {
                    None => forall|fuel: nat|
                        #[trigger] markup_host(
                            &final(self).resolver,
                            old(self).registry@,
                            tag@,
                            values_view(props@),
                            nodes_view(children@),
                            is_root,
                            old(self).static_markup,
                            fuel,
                        ) == Ok::<(Seq<char>, nat), RenderError>((delta, fuel)),
                    Some(f) => {
                        &&& f.prev_was_text == false
                        &&& nodes_view(f.children@) == flatten_children(nodes_view(children@))
                        &&& forall|fuel: nat|
                            #[trigger] markup_host(
                                &final(self).resolver,
                                old(self).registry@,
                                tag@,
                                values_view(props@),
                                nodes_view(children@),
                                is_root,
                                old(self).static_markup,
                                fuel,
                            ) == (match markup_list(
                                &final(self).resolver,
                                old(self).registry@,
                                nodes_view(f.children@),
                                false,
                                old(self).static_markup,
                                fuel,
                            ) {
                                Err(e) => Err::<(Seq<char>, nat), RenderError>(e),
                                Ok((body, f2)) => Ok::<(Seq<char>, nat), RenderError>(
                                    (delta + body + f.footer@, f2),
                                ),
                            })
                    },
                }
            }),
    {
        let ghost reg = self.registry@;
        let ghost stat = self.static_markup;
        let ghost chunk0 = chunk@;
        let ghost tagv = tag@;
        let ghost propsv = values_view(props@);
        let ghost kidsv = nodes_view(children@);
        let tag_lc = to_ascii_lowercase(tag.as_str());
        // Tags are checked defensively; an invalid one is recorded but
        // does not block rendering.
        let _tag_ok = validate_dangerous_tag(&mut self.caches, tag_lc.as_str());
        let open = create_open_tag_markup(
            &self.registry,
            &mut self.caches,
            &mut self.style_names,
            tag.as_str(),
            tag_lc.as_str(),
            &props,
            self.static_markup,
            is_root,
        );
        chunk.append(open.as_str());
        let flat = get_children(children);
        let omitted = is_omitted_close_tag(tag_lc.as_str());
        let mut footer = String::new();
        if omitted {
            chunk.append("/>");
        } else {
            chunk.append(">");
            footer.append("</");
            footer.append(tag.as_str());
            footer.append(">");
        }
        let ghost openv = open_tag_markup(reg, tagv, crate::strutil::lower_seq(tagv), propsv, stat, is_root);
        let ghost closev: Seq<char> = if omitted_close_tag(crate::strutil::lower_seq(tagv)) {
            "/>"@
        } else {
            ">"@
        };
        let ghost footerv: Seq<char> = if omitted_close_tag(crate::strutil::lower_seq(tagv)) {
            Seq::empty()
        } else {
            "</"@ + tagv + ">"@
        };
        proof {
            assert(footer@ =~= footerv);
        }
        match get_non_children_inner_markup(&props, &flat) {
            Some(content) => {
                let mut ate_newline = false;
                if is_newline_eating_tag(tag_lc.as_str()) {
                    let n = content.as_str().unicode_len();
                    if n > 0 && content.as_str().get_char(0) == '\n' {
                        chunk.append("\n");
                        ate_newline = true;
                    }
                }
                chunk.append(content.as_str());
                chunk.append(footer.as_str());
                proof {
                    let contentv = inner_markup(propsv, flatten_children(kidsv))->0;
                    let content2v: Seq<char> = if newline_eating_tag(
                        crate::strutil::lower_seq(tagv),
                    ) && contentv.len() > 0 && contentv[0] == '\n' {
                        "\n"@ + contentv
                    } else {
                        contentv
                    };
                    let delta = chunk@.subrange(chunk0.len() as int, chunk@.len() as int);
                    assert(chunk@ =~= chunk0 + (openv + closev + content2v + footerv));
                    assert(delta =~= openv + closev + content2v + footerv);
                    assert(chunk@ =~= chunk0 + delta);
                    assert forall|fuel: nat|
                        #[trigger] markup_host(
                            &self.resolver,
                            reg,
                            tagv,
                            propsv,
                            kidsv,
                            is_root,
                            stat,
                            fuel,
                        ) == Ok::<(Seq<char>, nat), RenderError>((delta, fuel)) by {
                        assert(markup_host(&self.resolver, reg, tagv, propsv, kidsv, is_root, stat, fuel)
                            == Ok::<(Seq<char>, nat), RenderError>(
                            (openv + closev + content2v + footerv, fuel),
                        ));
                    }
                }
                None
            },
            None => {
                let ns = get_child_namespace(Some(parent_ns), tag_lc.as_str());
                let f = Frame { dom_namespace: ns, children: flat, prev_was_text: false, footer };
                proof {
                    let delta = chunk@.subrange(chunk0.len() as int, chunk@.len() as int);
                    assert(chunk@ =~= chunk0 + (openv + closev));
                    assert(delta =~= openv + closev);
                    assert(chunk@ =~= chunk0 + delta);
                    assert(nodes_view(f.children@) == flatten_children(kidsv));
                    assert forall|fuel: nat|
                        #[trigger] markup_host(
                            &self.resolver,
                            reg,
                            tagv,
                            propsv,
                            kidsv,
                            is_root,
                            stat,
                            fuel,
                        ) == (match markup_list(
                            &self.resolver,
                            reg,
                            nodes_view(f.children@),
                            false,
                            stat,
                            fuel,
                        ) {
                            Err(e) => Err::<(Seq<char>, nat), RenderError>(e),
                            Ok((body, f2)) => Ok::<(Seq<char>, nat), RenderError>(
                                (delta + body + f.footer@, f2),
                            ),
                        }) by {
                        match markup_list(&self.resolver, reg, flatten_children(kidsv), false, stat, fuel) {
                            Err(e) => {},
                            Ok((body, f2)) => {
                                assert(openv + closev + body + footerv =~= delta + body
                                    + f.footer@);
                            },
                        }
                    }
                }
                Some(f)
            },
        }
    }


    /// Performs one traversal step: flushes the footer of an exhausted
    /// frame, or takes the next child of the top frame and renders it.
    #[verifier::rlimit(100)]
    fn step(
        &mut self,
        chunk: &mut String,
        Ghost(produced): Ghost<Seq<char>>,
        Ghost(total): Ghost<Result<Seq<char>, RenderError>>,
    ) -> (r: Result<(), RenderError>)
        requires
            old(self).registry.wf(),
            old(self).caches.wf(),
            old(self).style_names.wf(),
            old(self).failed is None,
            old(self).root_pending is None,
            !old(self).exhausted,
            old(self).stack@.len() > 0,
            machine_inv(
                &old(self).resolver,
                old(self).registry@,
                old(self).stack@,
                old(self).static_markup,
                old(self).fuel as nat,
                false,
                produced + old(chunk)@,
                total,
            ),
        ensures
            final(self).registry == old(self).registry,
            final(self).caches.wf(),
            final(self).style_names.wf(),
            final(self).resolver == old(self).resolver,
            final(self).root_pending is None,
            final(self).static_markup == old(self).static_markup,
            final(self).emitted == old(self).emitted,
            final(self).root == old(self).root,
            match r {
                Ok(()) => {
                    &&& final(self).failed is None
                    &&& (!final(self).exhausted ==> final(self).stack@.len() > 0)
                    &&& (final(self).exhausted ==> final(self).stack@.len() == 0)
                    &&& machine_inv(
                        &final(self).resolver,
                        final(self).registry@,
                        final(self).stack@,
                        final(self).static_markup,
                        final(self).fuel as nat,
                        final(self).exhausted,
                        produced + final(chunk)@,
                        total,
                    )
                    &&& (final(self).fuel < old(self).fuel || (final(self).fuel == old(self).fuel
                        && stack_measure(final(self).stack@) < stack_measure(old(self).stack@)))
                },
                Err(e) => {
                    &&& total == Err::<Seq<char>, RenderError>(e)
                    &&& final(self).failed == Some(e)
                    &&& final(self).exhausted
                },
            },
    {
        let ghost reg = self.registry@;
        let ghost stat = self.static_markup;
        let ghost chunk0 = chunk@;
        let ghost stack0 = self.stack@;
        let ghost fuel0 = self.fuel as nat;
        let mut frame = self.stack.pop().unwrap();
        let ghost stack1 = self.stack@;
        let ghost frame0 = frame;
        proof {
            assert(stack0.last() == frame0);
            assert(stack0.drop_last() =~= stack1);
            assert(stack1.push(frame0) =~= stack0);
        }
        if frame.children.len() == 0 {
            chunk.append(frame.footer.as_str());
            if self.stack.len() == 0 {
                self.exhausted = true;
            }
            proof {
                lemma_nodes_view_elems(frame0.children@);
                lemma_step_pop(
                    &self.resolver,
                    reg,
                    stat,
                    stack1,
                    frame0,
                    fuel0,
                    produced + chunk0,
                    total,
                );
                assert(produced + chunk@ =~= (produced + chunk0) + frame0.footer@);
                assert(stack_measure(stack0) == stack_measure(stack1) + seq_size(
                    nodes_view(frame0.children@),
                ) + 1);
            }
            return Ok(());
        }
        proof {
            lemma_nodes_view_elems(frame0.children@);
        }
        let ghost items0 = nodes_view(frame0.children@);
        let ghost prev0 = frame0.prev_was_text;
        let child = frame.children.remove(0);
        proof {
            assert(frame.children@ =~= frame0.children@.drop_first());
            lemma_nodes_view_drop_first(frame0.children@);
            assert(nodes_view(frame.children@) == items0.drop_first());
            assert(node_view(child) == items0[0]);
            lemma_unit_of_fuel(&self.resolver, items0[0], fuel0);
            lemma_node_size_pos(items0[0]);
            assert(seq_size(items0) == node_size(items0[0]) + seq_size(items0.drop_first()));
            assert(stack_measure(stack0) == stack_measure(stack1) + seq_size(items0) + 1);
        }
        match resolve_unit(&self.resolver, child, self.fuel) {
            Err(e) => {
                self.failed = Some(e);
                self.exhausted = true;
                proof {
                    assert(markup_list(&self.resolver, reg, items0, prev0, stat, fuel0) == Err::<
                        (Seq<char>, nat),
                        RenderError,
                    >(e));
                    assert(frames_markup(&self.resolver, reg, stack0, stat, fuel0) == Err::<
                        (Seq<char>, nat),
                        RenderError,
                    >(e));
                }
                Err(e)
            },
            Ok((unit, f2)) => {
                self.fuel = f2;
                let ghost fmid = f2 as nat;
                match unit {
                    RenderUnit::Skip => {
                        let ghost f1 = frame;
                        self.stack.push(frame);
                        proof {
                            assert(self.stack@ =~= stack1.push(f1));
                            assert(markup_list(&self.resolver, reg, items0, prev0, stat, fuel0)
                                == (match markup_list(
                                &self.resolver,
                                reg,
                                items0.drop_first(),
                                prev0,
                                stat,
                                fmid,
                            ) {
                                Err(e) => Err::<(Seq<char>, nat), RenderError>(e),
                                Ok((rest, f3)) => Ok::<(Seq<char>, nat), RenderError>(
                                    (Seq::<char>::empty() + rest, f3),
                                ),
                            })) by {
                                match markup_list(
                                    &self.resolver,
                                    reg,
                                    items0.drop_first(),
                                    prev0,
                                    stat,
                                    fmid,
                                ) {
                                    Err(_) => {},
                                    Ok((rest, f3)) => {
                                        assert(Seq::<char>::empty() + rest =~= rest);
                                    },
                                }
                            }
                            lemma_step_emit(
                                &self.resolver,
                                reg,
                                stat,
                                stack1,
                                frame0,
                                f1,
                                items0,
                                prev0,
                                Seq::<char>::empty(),
                                fuel0,
                                fmid,
                                produced + chunk0,
                                total,
                            );
                            assert((produced + chunk0) + Seq::<char>::empty() =~= produced
                                + chunk@);
                            assert(self.stack@.drop_last() =~= stack1);
                            assert(stack_measure(self.stack@) == stack_measure(stack1) + seq_size(
                                items0.drop_first(),
                            ) + 1);
                        }
                        Ok(())
                    },
                    RenderUnit::Text(t) => {
                        if frame.prev_was_text {
                            chunk.append("<!-- -->");
                        }
                        chunk.append(t.as_str());
                        frame.prev_was_text = true;
                        let ghost f1 = frame;
                        self.stack.push(frame);
                        proof {
                            let sep: Seq<char> = if prev0 {
                                "<!-- -->"@
                            } else {
                                Seq::<char>::empty()
                            };
                            assert(chunk@ =~= chunk0 + (sep + t@));
                            assert(self.stack@ =~= stack1.push(f1));
                            assert(markup_list(&self.resolver, reg, items0, prev0, stat, fuel0)
                                == (match markup_list(
                                &self.resolver,
                                reg,
                                items0.drop_first(),
                                true,
                                stat,
                                fmid,
                            ) {
                                Err(e) => Err::<(Seq<char>, nat), RenderError>(e),
                                Ok((rest, f3)) => Ok::<(Seq<char>, nat), RenderError>(
                                    ((sep + t@) + rest, f3),
                                ),
                            })) by {
                                match markup_list(
                                    &self.resolver,
                                    reg,
                                    items0.drop_first(),
                                    true,
                                    stat,
                                    fmid,
                                ) {
                                    Err(_) => {},
                                    Ok((rest, f3)) => {
                                        assert((sep + t@) + rest =~= sep + t@ + rest);
                                    },
                                }
                            }
                            lemma_step_emit(
                                &self.resolver,
                                reg,
                                stat,
                                stack1,
                                frame0,
                                f1,
                                items0,
                                true,
                                sep + t@,
                                fuel0,
                                fmid,
                                produced + chunk0,
                                total,
                            );
                            assert((produced + chunk0) + (sep + t@) =~= produced + chunk@);
                            assert(self.stack@.drop_last() =~= stack1);
                            assert(stack_measure(self.stack@) == stack_measure(stack1) + seq_size(
                                items0.drop_first(),
                            ) + 1);
                        }
                        Ok(())
                    },
                    RenderUnit::Elem { tag, props, children } => {
                        let parent_ns = frame.dom_namespace;
                        frame.prev_was_text = false;
                        let ghost f1 = frame;
                        self.stack.push(frame);
                        let ghost stack2 = self.stack@;
                        let ghost tagv = tag@;
                        let ghost propsv = values_view(props@);
                        let ghost kidsv = nodes_view(children@);
                        let nf = self.open_element(chunk, tag, props, children, false, parent_ns);
                        let ghost delta = chunk@.subrange(chunk0.len() as int, chunk@.len() as int);
                        proof {
                            assert(stack2 =~= stack1.push(f1));
                            assert(unit_of(&self.resolver, items0[0], fuel0) == Ok::<
                                (UnitV, nat),
                                RenderError,
                            >((UnitV::Elem { tag: tagv, props: propsv, children: kidsv }, fmid)));
                            assert(fmid <= fuel0);
                        }
                        match nf {
                            None => {
                                proof {
                                    assert(markup_host(
                                        &self.resolver,
                                        reg,
                                        tagv,
                                        propsv,
                                        kidsv,
                                        false,
                                        stat,
                                        fmid,
                                    ) == Ok::<(Seq<char>, nat), RenderError>((delta, fmid)));
                                    assert(cap_fuel(fmid, fuel0) == fmid);
                                    assert(markup_list(
                                        &self.resolver,
                                        reg,
                                        items0,
                                        prev0,
                                        stat,
                                        fuel0,
                                    ) == (match markup_list(
                                        &self.resolver,
                                        reg,
                                        items0.drop_first(),
                                        false,
                                        stat,
                                        fmid,
                                    ) {
                                        Err(e) => Err::<(Seq<char>, nat), RenderError>(e),
                                        Ok((rest, f3)) => Ok::<(Seq<char>, nat), RenderError>(
                                            (delta + rest, f3),
                                        ),
                                    }));
                                    lemma_step_emit(
                                        &self.resolver,
                                        reg,
                                        stat,
                                        stack1,
                                        frame0,
                                        f1,
                                        items0,
                                        false,
                                        delta,
                                        fuel0,
                                        fmid,
                                        produced + chunk0,
                                        total,
                                    );
                                    assert(chunk@ =~= chunk0 + delta);
                                    assert((produced + chunk0) + delta =~= produced + chunk@);
                                    assert(self.stack@.drop_last() =~= stack1);
                                    assert(stack_measure(self.stack@) == stack_measure(stack1)
                                        + seq_size(items0.drop_first()) + 1);
                                }
                                Ok(())
                            },
                            Some(f) => {
                                let ghost fr = f;
                                self.stack.push(f);
                                proof {
                                    let flatv = nodes_view(fr.children@);
                                    assert(flatv == flatten_children(kidsv));
                                    lemma_markup_list_fuel(
                                        &self.resolver,
                                        reg,
                                        flatv,
                                        false,
                                        stat,
                                        fmid,
                                    );
                                    assert(markup_list(
                                        &self.resolver,
                                        reg,
                                        items0,
                                        prev0,
                                        stat,
                                        fuel0,
                                    ) == (match markup_list(
                                        &self.resolver,
                                        reg,
                                        flatv,
                                        false,
                                        stat,
                                        fmid,
                                    ) {
                                        Err(e) => Err::<(Seq<char>, nat), RenderError>(e),
                                        Ok((body, f3)) => match markup_list(
                                            &self.resolver,
                                            reg,
                                            items0.drop_first(),
                                            false,
                                            stat,
                                            f3,
                                        ) {
                                            Err(e) => Err::<(Seq<char>, nat), RenderError>(e),
                                            Ok((rest, f4)) => Ok::<(Seq<char>, nat), RenderError>(
                                                ((delta + (body + fr.footer@)) + rest, f4),
                                            ),
                                        },
                                    })) by {
                                        match markup_list(
                                            &self.resolver,
                                            reg,
                                            flatv,
                                            false,
                                            stat,
                                            fmid,
                                        ) {
                                            Err(_) => {},
                                            Ok((body, f3)) => {
                                                assert(f3 <= fmid);
                                                assert(cap_fuel(f3, fuel0) == f3);
                                                assert(markup_host(
                                                    &self.resolver,
                                                    reg,
                                                    tagv,
                                                    propsv,
                                                    kidsv,
                                                    false,
                                                    stat,
                                                    fmid,
                                                ) == Ok::<(Seq<char>, nat), RenderError>(
                                                    (delta + body + fr.footer@, f3),
                                                ));
                                                match markup_list(
                                                    &self.resolver,
                                                    reg,
                                                    items0.drop_first(),
                                                    false,
                                                    stat,
                                                    f3,
                                                ) {
                                                    Err(_) => {},
                                                    Ok((rest, f4)) => {
                                                        assert((delta + body + fr.footer@) + rest
                                                            =~= (delta + (body + fr.footer@))
                                                            + rest);
                                                    },
                                                }
                                            },
                                        }
                                    }
                                    lemma_step_push(
                                        &self.resolver,
                                        reg,
                                        stat,
                                        stack1,
                                        frame0,
                                        f1,
                                        fr,
                                        items0,
                                        flatv,
                                        delta,
                                        fuel0,
                                        fmid,
                                        produced + chunk0,
                                        total,
                                    );
                                    assert(self.stack@ =~= stack1.push(f1).push(fr));
                                    assert(chunk@ =~= chunk0 + delta);
                                    assert((produced + chunk0) + delta =~= produced + chunk@);
                                    assert(self.stack@.drop_last() =~= stack2);
                                    assert(stack_measure(self.stack@) == stack_measure(stack2)
                                        + seq_size(flatv) + 1);
                                    assert(stack2.drop_last() =~= stack1);
                                    assert(stack_measure(stack2) == stack_measure(stack1)
                                        + seq_size(items0.drop_first()) + 1);
                                    lemma_flatten_size(kidsv);
                                    if fmid == fuel0 {
                                        assert(items0[0] == (NodeV::Host {
                                            tag: tagv,
                                            props: propsv,
                                            children: kidsv,
                                        }));
                                        assert(node_size(items0[0]) == 2 + seq_size(kidsv));
                                        assert(stack_measure(self.stack@) < stack_measure(stack0));
                                    }
                                }
                                Ok(())
                            },
                        }
                    },
                }
            },
        }
    }

    /// Produces the next chunk of markup: at least the requested number
    /// of characters, unless the tree is exhausted first. Returns
    /// `Ok(None)` once the session is over, and the fatal error of a
    /// failed render on every call from the failure on.
    #[verifier::rlimit(100)]
    pub fn read(&mut self, size: ReadSize) -> (r: Result<Option<String>, RenderError>)
        requires
            old(self).wf(),
        ensures
            final(self).wf(),
            final(self).total_spec() == old(self).total_spec(),
            match r {
                Ok(opt) => match opt {
                    None => old(self).done() && final(self).done() && final(self).emitted()
                        == old(self).emitted(),
                    Some(chunk) => {
                        &&& !old(self).done()
                        &&& final(self).emitted() == old(self).emitted() + chunk@
                        &&& (final(self).done() ==> final(self).total_spec() == Ok::<
                            Seq<char>,
                            RenderError,
                        >(final(self).emitted()))
                        &&& (!final(self).done() ==> budget_met(size, chunk@.len()))
                        &&& (size is Infinity ==> final(self).done())
                    },
                },
                Err(e) => final(self).total_spec() == Err::<Seq<char>, RenderError>(e)
                    && final(self).done() && final(self).emitted() == old(self).emitted(),
            },
    {
        match self.failed {
            Some(e) => {
                return Err(e);
            },
            None => {},
        }
        if self.exhausted {
            return Ok(None);
        }
        match size {
            ReadSize::Size(n) => {
                if n == 0 {
                    let chunk = String::new();
                    proof {
                        assert(self.emitted@ + chunk@ =~= self.emitted@);
                    }
                    return Ok(Some(chunk));
                }
            },
            ReadSize::Infinity => {},
        }
        let ghost total0 = self.total_spec();
        let ghost em0 = self.emitted@;
        let ghost reg = self.registry@;
        let ghost stat = self.static_markup;
        let ghost res0 = self.resolver;
        let ghost root_g = self.root@;
        let mut chunk = String::new();

        let mut rp: Option<Node> = None;
        core::mem::swap(&mut rp, &mut self.root_pending);
        match rp {
            None => {
                proof {
                    assert(em0 + chunk@ =~= em0);
                    match frames_markup(&self.resolver, reg, self.stack@, stat, self.fuel as nat) {
                        Err(_) => {},
                        Ok((rem, _)) => {
                            assert(em0 + chunk@ + rem =~= em0 + rem);
                        },
                    }
                }
            },
            Some(root) => {
                let ghost rootv = node_view(root);
                match resolve_unit(&self.resolver, root, self.fuel) {
                    Err(e) => {
                        self.failed = Some(e);
                        self.exhausted = true;
                        proof {
                            assert(markup_root(&self.resolver, reg, rootv, stat,
                                old(self).fuel as nat) == Err::<Seq<char>, RenderError>(e));
                        }
                        return Err(e);
                    },
                    Ok((unit, f2)) => {
                        self.fuel = f2;
                        let ghost uv = unit_view(unit);
                        match unit {
                            RenderUnit::Skip => {
                                self.exhausted = true;
                                proof {
                                    assert(total0 == Ok::<Seq<char>, RenderError>(
                                        em0 + Seq::<char>::empty(),
                                    ));
                                    assert(em0 + chunk@ =~= em0 + Seq::<char>::empty());
                                }
                            },
                            RenderUnit::Text(t) => {
                                chunk.append(t.as_str());
                                self.exhausted = true;
                                proof {
                                    assert(total0 == Ok::<Seq<char>, RenderError>(em0 + t@));
                                    assert(em0 + chunk@ =~= em0 + t@);
                                }
                            },
                            RenderUnit::Elem { tag, props, children } => {
                                let ghost tagv = tag@;
                                let ghost propsv = values_view(props@);
                                let ghost kidsv = nodes_view(children@);
                                let nf = self.open_element(
                                    &mut chunk,
                                    tag,
                                    props,
                                    children,
                                    true,
                                    DomNamespace::Html,
                                );
                                let ghost delta = chunk@.subrange(0, chunk@.len() as int);
                                proof {
                                    assert(chunk@ =~= Seq::<char>::empty() + delta);
                                    assert(delta =~= chunk@);
                                }
                                match nf {
                                    None => {
                                        self.exhausted = true;
                                        proof {
                                            assert(markup_host(
                                                &self.resolver,
                                                reg,
                                                tagv,
                                                propsv,
                                                kidsv,
                                                true,
                                                stat,
                                                f2 as nat,
                                            ) == Ok::<(Seq<char>, nat), RenderError>(
                                                (delta, f2 as nat),
                                            ));
                                            assert(total0 == Ok::<Seq<char>, RenderError>(
                                                em0 + delta,
                                            ));
                                            assert(em0 + chunk@ =~= em0 + delta);
                                        }
                                    },
                                    Some(f) => {
                                        let ghost fr = f;
                                        self.stack.push(f);
                                        proof {
                                            assert(self.stack@.len() == 1);
                                            assert(self.stack@.last() == fr);
                                            assert(self.stack@.drop_last() =~= Seq::<
                                                Frame,
                                            >::empty());
                                            match markup_list(
                                                &self.resolver,
                                                reg,
                                                nodes_view(fr.children@),
                                                false,
                                                stat,
                                                f2 as nat,
                                            ) {
                                                Err(e) => {
                                                    assert(total0 == Err::<
                                                        Seq<char>,
                                                        RenderError,
                                                    >(e));
                                                },
                                                Ok((body, f3)) => {
                                                    assert(frames_markup(
                                                        &self.resolver,
                                                        reg,
                                                        Seq::<Frame>::empty(),
                                                        stat,
                                                        f3,
                                                    ) == Ok::<(Seq<char>, nat), RenderError>(
                                                        (Seq::<char>::empty(), f3),
                                                    ));
                                                    assert(frames_markup(
                                                        &self.resolver,
                                                        reg,
                                                        self.stack@,
                                                        stat,
                                                        f2 as nat,
                                                    ) == Ok::<(Seq<char>, nat), RenderError>(
                                                        (
                                                            body + fr.footer@
                                                                + Seq::<char>::empty(),
                                                            f3,
                                                        ),
                                                    ));
                                                    assert(total0 == Ok::<Seq<char>, RenderError>(
                                                        em0 + (delta + body + fr.footer@),
                                                    ));
                                                    assert(em0 + chunk@ + (body + fr.footer@
                                                        + Seq::<char>::empty()) =~= em0 + (delta
                                                        + body + fr.footer@));
                                                },
                                            }
                                        }
                                    },
                                }
                            },
                        }
                    },
                }
            },
        }

        let mut stop = self.exhausted || (match size {
            ReadSize::Infinity => false,
            ReadSize::Size(n) => chunk.as_str().unicode_len() >= n,
        });
        proof {
            assert(machine_inv(
                &self.resolver,
                reg,
                self.stack@,
                stat,
                self.fuel as nat,
                self.exhausted,
                em0 + chunk@,
                total0,
            ));
        }

        while !stop
            invariant
                self.registry.wf(),
                self.caches.wf(),
                self.style_names.wf(),
                self.registry@ == reg,
                self.static_markup == stat,
                self.resolver == res0,
                self.failed is None,
                self.root_pending is None,
                self.emitted@ == em0,
                em0 == old(self).emitted(),
                total0 == old(self).total_spec(),
                self.root@ == root_g,
                self.total_spec() == total0,
                !self.exhausted ==> self.stack@.len() > 0,
                self.exhausted ==> self.stack@.len() == 0,
                machine_inv(
                    &self.resolver,
                    reg,
                    self.stack@,
                    stat,
                    self.fuel as nat,
                    self.exhausted,
                    em0 + chunk@,
                    total0,
                ),
                stop ==> self.exhausted || budget_met(size, chunk@.len()),
                self.exhausted ==> stop,
            decreases self.fuel, stack_measure(self.stack@),
        {
            match self.step(&mut chunk, Ghost(em0), Ghost(total0)) {
                Err(e) => {
                    proof {
                        assert(self.total_spec() == total0);
                    }
                    return Err(e);
                },
                Ok(()) => {},
            }
            stop = self.exhausted || (match size {
                ReadSize::Infinity => false,
                ReadSize::Size(n) => chunk.as_str().unicode_len() >= n,
            });
        }
        self.emitted = Ghost(em0 + chunk@);
        proof {
            if self.exhausted {
            } else {
                assert(budget_met(size, chunk@.len()));
            }
        }
        Ok(Some(chunk))
    }
}

} // verus!
