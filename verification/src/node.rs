//! The element tree handed over by the host: property values and nodes,
//! together with their mathematical views.

use vstd::prelude::*;
use vstd::string::StringExecFns;
use crate::number::NumberValue;
use crate::number::NumberV;
use crate::number::number_literal;
use crate::number::number_is_zero;

verus! {

/// A property value as the host supplies it.
pub enum PropValue {
    Null,
    Undefined,
    Bool(bool),
    Number(NumberValue),
    Text(String),
    Object(Vec<(String, PropValue)>),
}

/// The mathematical view of a property value.
pub enum PropValueV {
    Null,
    Undefined,
    Bool(bool),
    Number(NumberV),
    Text(Seq<char>),
    Object(Seq<(Seq<char>, PropValueV)>),
}

/// One node of the element tree. A `Host` renders as literal markup, a
/// `Composite` is resolved by the component resolver, text and numbers
/// render as escaped text, boolean/null/undefined render as nothing, and
/// a `Fragment` is a sequence spliced one level into its parent's
/// children.
pub enum Node {
    Host { tag: String, props: Vec<(String, PropValue)>, children: Vec<Node> },
    Composite { component: u64, props: Vec<(String, PropValue)> },
    Text(String),
    Number(NumberValue),
    Bool(bool),
    Null,
    Undefined,
    Fragment(Vec<Node>),
}

/// The mathematical view of a node.
pub enum NodeV {
    Host { tag: Seq<char>, props: Seq<(Seq<char>, PropValueV)>, children: Seq<NodeV> },
    Composite { component: u64, props: Seq<(Seq<char>, PropValueV)> },
    Text(Seq<char>),
    Number(NumberV),
    Bool(bool),
    Null,
    Undefined,
    Fragment(Seq<NodeV>),
}

/// The view of a property value.
pub open spec fn value_view(v: PropValue) -> PropValueV
    decreases v, 0int,
{
    match v {
        PropValue::Null => PropValueV::Null,
        PropValue::Undefined => PropValueV::Undefined,
        PropValue::Bool(b) => PropValueV::Bool(b),
        PropValue::Number(d) => PropValueV::Number(d@),
        PropValue::Text(s) => PropValueV::Text(s@),
        PropValue::Object(fields) => PropValueV::Object(values_view(fields@)),
    }
}

/// The view of a property list, keeping declaration order.
pub open spec fn values_view(s: Seq<(String, PropValue)>) -> Seq<(Seq<char>, PropValueV)>
    decreases s, s.len() + 1,
{
    if s.len() == 0 {
        Seq::empty()
    } else {
        values_view(s.drop_last()).push((s.last().0@, value_view(s.last().1)))
    }
}

/// The view of a node.
pub open spec fn node_view(n: Node) -> NodeV
    decreases n, 0int,
{
    match n {
        Node::Host { tag, props, children } => NodeV::Host {
            tag: tag@,
            props: values_view(props@),
            children: nodes_view(children@),
        },
        Node::Composite { component, props } => NodeV::Composite {
            component,
            props: values_view(props@),
        },
        Node::Text(s) => NodeV::Text(s@),
        Node::Number(d) => NodeV::Number(d@),
        Node::Bool(b) => NodeV::Bool(b),
        Node::Null => NodeV::Null,
        Node::Undefined => NodeV::Undefined,
        Node::Fragment(xs) => NodeV::Fragment(nodes_view(xs@)),
    }
}

/// The view of a node list.
pub open spec fn nodes_view(s: Seq<Node>) -> Seq<NodeV>
    decreases s, s.len() + 1,
{
    if s.len() == 0 {
        Seq::empty()
    } else {
        nodes_view(s.drop_last()).push(node_view(s.last()))
    }
}

impl View for PropValue {
    type V = PropValueV;

    open spec fn view(&self) -> PropValueV {
        value_view(*self)
    }
}

impl View for Node {
    type V = NodeV;

    open spec fn view(&self) -> NodeV {
        node_view(*self)
    }
}

pub proof fn lemma_values_view_elems(s: Seq<(String, PropValue)>)
    ensures
        values_view(s).len() == s.len(),
        forall|i: int|
            0 <= i < s.len() ==> #[trigger] values_view(s)[i] == (s[i].0@, value_view(s[i].1)),
    decreases s.len(),
{
    if s.len() > 0 {
        lemma_values_view_elems(s.drop_last());
    }
}

pub proof fn lemma_nodes_view_elems(s: Seq<Node>)
    ensures
        nodes_view(s).len() == s.len(),
        forall|i: int| 0 <= i < s.len() ==> #[trigger] nodes_view(s)[i] == node_view(s[i]),
    decreases s.len(),
{
    if s.len() > 0 {
        lemma_nodes_view_elems(s.drop_last());
    }
}


pub proof fn lemma_nodes_view_push(s: Seq<Node>, x: Node)
    ensures
        nodes_view(s.push(x)) == nodes_view(s).push(node_view(x)),
{
    assert(s.push(x).drop_last() =~= s);
    assert(s.push(x).last() == x);
}

pub proof fn lemma_nodes_view_drop_first(s: Seq<Node>)
    requires
        s.len() > 0,
    ensures
        nodes_view(s.drop_first()) == nodes_view(s).drop_first(),
{
    lemma_nodes_view_elems(s);
    lemma_nodes_view_elems(s.drop_first());
    assert(nodes_view(s.drop_first()) =~= nodes_view(s).drop_first());
}

/// The weight of a node, used as a traversal measure.
pub open spec fn node_size(n: NodeV) -> nat
    decreases n, 0int,
{
    match n {
        NodeV::Host { children, .. } => 2 + seq_size(children),
        NodeV::Fragment(xs) => 2 + seq_size(xs),
        _ => 1,
    }
}

/// The combined weight of a node list.
pub open spec fn seq_size(s: Seq<NodeV>) -> nat
    decreases s, s.len() + 1,
{
    if s.len() == 0 {
        0
    } else {
        node_size(s[0]) + seq_size(s.drop_first())
    }
}

pub proof fn lemma_node_size_pos(n: NodeV)
    ensures
        node_size(n) >= 1,
{
}

pub proof fn lemma_seq_size_append(a: Seq<NodeV>, b: Seq<NodeV>)
    ensures
        seq_size(a + b) == seq_size(a) + seq_size(b),
    decreases a.len(),
{
    if a.len() == 0 {
        assert(a + b =~= b);
    } else {
        assert((a + b).drop_first() =~= a.drop_first() + b);
        lemma_seq_size_append(a.drop_first(), b);
    }
}

pub proof fn lemma_seq_size_elem(s: Seq<NodeV>, i: int)
    requires
        0 <= i < s.len(),
    ensures
        node_size(s[i]) <= seq_size(s),
    decreases i,
{
    if i == 0 {
    } else {
        lemma_seq_size_elem(s.drop_first(), i - 1);
    }
}

pub proof fn lemma_seq_size_single(n: NodeV)
    ensures
        seq_size(seq![n]) == node_size(n),
{
    let s = seq![n];
    assert(s.len() == 1);
    assert(s[0] == n);
    assert(s.drop_first() =~= Seq::<NodeV>::empty());
    assert(seq_size(s.drop_first()) == 0);
    assert(seq_size(s) == node_size(n) + seq_size(s.drop_first()));
}

/// The child sequence a host element renders: fragments are spliced one
/// level in, and boolean/null/undefined entries at the top level are
/// dropped.
pub open spec fn flatten_children(s: Seq<NodeV>) -> Seq<NodeV>
    decreases s.len(),
{
    if s.len() == 0 {
        Seq::empty()
    } else {
        (match s[0] {
            NodeV::Fragment(xs) => xs,
            NodeV::Bool(_) => Seq::empty(),
            NodeV::Null => Seq::empty(),
            NodeV::Undefined => Seq::empty(),
            _ => seq![s[0]],
        }) + flatten_children(s.drop_first())
    }
}

pub proof fn lemma_flatten_size(s: Seq<NodeV>)
    ensures
        seq_size(flatten_children(s)) <= seq_size(s),
    decreases s.len(),
{
    if s.len() > 0 {
        lemma_flatten_size(s.drop_first());
        let head: Seq<NodeV> = match s[0] {
            NodeV::Fragment(xs) => xs,
            NodeV::Bool(_) => Seq::empty(),
            NodeV::Null => Seq::empty(),
            NodeV::Undefined => Seq::empty(),
            _ => seq![s[0]],
        };
        assert(flatten_children(s) == head + flatten_children(s.drop_first()));
        lemma_seq_size_append(head, flatten_children(s.drop_first()));
        assert(seq_size(s) == node_size(s[0]) + seq_size(s.drop_first()));
        match s[0] {
            NodeV::Fragment(xs) => {
                assert(node_size(s[0]) == 2 + seq_size(xs));
            },
            NodeV::Bool(_) => {
                assert(seq_size(head) == 0);
            },
            NodeV::Null => {
                assert(seq_size(head) == 0);
            },
            NodeV::Undefined => {
                assert(seq_size(head) == 0);
            },
            _ => {
                lemma_seq_size_single(s[0]);
            },
        }
    }
}

/// Computes the child sequence a host element renders: fragments are
/// spliced one level in, boolean/null/undefined entries dropped.
pub fn get_children(children: Vec<Node>) -> (r: Vec<Node>)
    ensures
        nodes_view(r@) == flatten_children(nodes_view(children@)),
{
    let ghost orig = nodes_view(children@);
    let mut rest = children;
    let mut out: Vec<Node> = Vec::new();
    proof {
        assert(nodes_view(out@) =~= Seq::<NodeV>::empty());
        assert(nodes_view(out@) + flatten_children(orig) =~= flatten_children(orig));
    }
    while rest.len() > 0
        invariant
            nodes_view(out@) + flatten_children(nodes_view(rest@)) == flatten_children(orig),
        decreases rest@.len(),
    {
        proof {
            lemma_nodes_view_elems(rest@);
        }
        let ghost rv = nodes_view(rest@);
        let ghost rseq = rest@;
        let c = rest.remove(0);
        proof {
            assert(rest@ =~= rseq.drop_first());
            lemma_nodes_view_drop_first(rseq);
            assert(nodes_view(rest@) == rv.drop_first());
            assert(node_view(c) == rv[0]);
        }
        match c {
            Node::Fragment(xs) => {
                let ghost xv = nodes_view(xs@);
                proof {
                    assert(node_view(c) == NodeV::Fragment(xv));
                    assert(flatten_children(rv) == xv + flatten_children(rv.drop_first()));
                }
                let mut inner = xs;
                while inner.len() > 0
                    invariant
                        nodes_view(out@) + nodes_view(inner@) + flatten_children(
                            nodes_view(rest@),
                        ) == flatten_children(orig),
                    decreases inner@.len(),
                {
                    proof {
                        lemma_nodes_view_elems(inner@);
                    }
                    let ghost iv = nodes_view(inner@);
                    let ghost iseq = inner@;
                    let ghost ov = nodes_view(out@);
                    let ghost oseq = out@;
                    let x = inner.remove(0);
                    out.push(x);
                    proof {
                        assert(inner@ =~= iseq.drop_first());
                        lemma_nodes_view_drop_first(iseq);
                        assert(out@ =~= oseq.push(x));
                        lemma_nodes_view_push(oseq, x);
                        assert(node_view(x) == iv[0]);
                        assert(ov.push(iv[0]) + iv.drop_first() =~= ov + iv);
                    }
                }
                proof {
                    assert(nodes_view(inner@) =~= Seq::<NodeV>::empty());
                    assert(nodes_view(out@) + Seq::<NodeV>::empty() =~= nodes_view(out@));
                }
            },
            Node::Bool(_) => {
                proof {
                    assert(flatten_children(rv) == Seq::<NodeV>::empty() + flatten_children(
                        rv.drop_first(),
                    ));
                    assert(Seq::<NodeV>::empty() + flatten_children(rv.drop_first())
                        =~= flatten_children(rv.drop_first()));
                }
            },
            Node::Null => {
                proof {
                    assert(flatten_children(rv) == Seq::<NodeV>::empty() + flatten_children(
                        rv.drop_first(),
                    ));
                    assert(Seq::<NodeV>::empty() + flatten_children(rv.drop_first())
                        =~= flatten_children(rv.drop_first()));
                }
            },
            Node::Undefined => {
                proof {
                    assert(flatten_children(rv) == Seq::<NodeV>::empty() + flatten_children(
                        rv.drop_first(),
                    ));
                    assert(Seq::<NodeV>::empty() + flatten_children(rv.drop_first())
                        =~= flatten_children(rv.drop_first()));
                }
            },
            other => {
                let ghost ov = nodes_view(out@);
                let ghost oseq = out@;
                proof {
                    assert(flatten_children(rv) == seq![rv[0]] + flatten_children(rv.drop_first()));
                }
                out.push(other);
                proof {
                    assert(out@ =~= oseq.push(other));
                    lemma_nodes_view_push(oseq, other);
                    assert(node_view(other) == rv[0]);
                    assert(ov.push(rv[0]) + flatten_children(nodes_view(rest@)) =~= ov + (seq![
                        rv[0],
                    ] + flatten_children(nodes_view(rest@))));
                }
            },
        }
    }
    proof {
        assert(nodes_view(rest@) =~= Seq::<NodeV>::empty());
        assert(nodes_view(out@) + flatten_children(Seq::<NodeV>::empty()) =~= nodes_view(out@));
    }
    out
}

/// The text a value turns into when the host stringifies it.
pub open spec fn js_string(v: PropValueV) -> Seq<char> {
    match v {
        PropValueV::Null => "null"@,
        PropValueV::Undefined => "undefined"@,
        PropValueV::Bool(b) => if b {
            "true"@
        } else {
            "false"@
        },
        PropValueV::Number(d) => number_literal(d),
        PropValueV::Text(s) => s,
        PropValueV::Object(_) => "[object Object]"@,
    }
}

/// Whether a value is falsy in the host's sense: `false`, zero, the
/// empty string, null and undefined.
pub open spec fn js_falsy(v: PropValueV) -> bool {
    match v {
        PropValueV::Null => true,
        PropValueV::Undefined => true,
        PropValueV::Bool(b) => !b,
        PropValueV::Number(d) => number_is_zero(d),
        PropValueV::Text(s) => s.len() == 0,
        PropValueV::Object(_) => false,
    }
}

/// Stringifies a value the way the host would.
pub fn to_string(value: &PropValue) -> (r: String)
    ensures
        r@ == js_string(value@),
{
    match value {
        PropValue::Null => String::from_str("null"),
        PropValue::Undefined => String::from_str("undefined"),
        PropValue::Bool(b) => if *b {
            String::from_str("true")
        } else {
            String::from_str("false")
        },
        PropValue::Number(d) => d.to_literal(),
        PropValue::Text(s) => s.clone(),
        PropValue::Object(_) => String::from_str("[object Object]"),
    }
}

/// Whether a value is falsy in the host's sense.
pub fn not(value: &PropValue) -> (r: bool)
    ensures
        r == js_falsy(value@),
{
    match value {
        PropValue::Null => true,
        PropValue::Undefined => true,
        PropValue::Bool(b) => !*b,
        PropValue::Number(d) => d.is_zero(),
        PropValue::Text(s) => s.as_str().unicode_len() == 0,
        PropValue::Object(_) => false,
    }
}

/// Whether a value is not a number.
pub fn is_nan(value: &PropValue) -> (r: bool)
    ensures
        r == !(value@ is Number),
{
    match value {
        PropValue::Number(_) => false,
        _ => true,
    }
}

/// An exact copy of a property value.
pub fn dup_value(v: &PropValue) -> (r: PropValue)
    ensures
        r@ == v@,
    decreases value_size(v@), 0int,
{
    match v {
        PropValue::Null => PropValue::Null,
        PropValue::Undefined => PropValue::Undefined,
        PropValue::Bool(b) => PropValue::Bool(*b),
        PropValue::Number(d) => PropValue::Number(d.duplicate()),
        PropValue::Text(s) => PropValue::Text(s.clone()),
        PropValue::Object(fields) => {
            proof {
                lemma_values_size_pos(values_view(fields@));
            }
            PropValue::Object(dup_values(fields))
        },
    }
}

/// An exact copy of a property list.
pub fn dup_values(vs: &Vec<(String, PropValue)>) -> (r: Vec<(String, PropValue)>)
    ensures
        values_view(r@) == values_view(vs@),
    decreases values_size(values_view(vs@)), 1int,
{
    let mut out: Vec<(String, PropValue)> = Vec::new();
    let mut i: usize = 0;
    while i < vs.len()
        invariant
            i <= vs@.len(),
            values_view(out@) == values_view(vs@.subrange(0, i as int)),
        decreases vs@.len() - i,
    {
        proof {
            lemma_values_view_elems(vs@);
            lemma_values_size_elem(values_view(vs@), i as int);
        }
        let pair = (vs[i].0.clone(), dup_value(&vs[i].1));
        let ghost prev = out@;
        out.push(pair);
        proof {
            assert(vs@.subrange(0, i as int + 1).drop_last() =~= vs@.subrange(0, i as int));
            assert(vs@.subrange(0, i as int + 1).last() == vs@[i as int]);
            assert(out@.drop_last() =~= prev);
            assert(out@.last() == pair);
            assert(values_view(out@) =~= values_view(vs@.subrange(0, i as int + 1)));
        }
        i = i + 1;
    }
    proof {
        assert(vs@.subrange(0, vs@.len() as int) =~= vs@);
    }
    out
}

/// The weight of a property value, used as a copy measure.
pub open spec fn value_size(v: PropValueV) -> nat
    decreases v, 0int,
{
    match v {
        PropValueV::Object(fields) => 1 + values_size(fields),
        _ => 1,
    }
}

/// The combined weight of a property list.
pub open spec fn values_size(s: Seq<(Seq<char>, PropValueV)>) -> nat
    decreases s, s.len() + 1,
{
    if s.len() == 0 {
        0
    } else {
        value_size(s[0].1) + values_size(s.drop_first())
    }
}

pub proof fn lemma_values_size_pos(s: Seq<(Seq<char>, PropValueV)>)
    ensures
        values_size(s) >= 0,
{
}

pub proof fn lemma_values_size_elem(s: Seq<(Seq<char>, PropValueV)>, i: int)
    requires
        0 <= i < s.len(),
    ensures
        value_size(s[i].1) <= values_size(s),
    decreases i,
{
    if i == 0 {
    } else {
        lemma_values_size_elem(s.drop_first(), i - 1);
    }
}

/// An exact copy of a node tree.
pub fn dup_node(n: &Node) -> (r: Node)
    ensures
        r@ == n@,
    decreases node_size(n@), 0int,
{
    match n {
        Node::Host { tag, props, children } => Node::Host {
            tag: tag.clone(),
            props: dup_values(props),
            children: dup_nodes(children),
        },
        Node::Composite { component, props } => Node::Composite {
            component: *component,
            props: dup_values(props),
        },
        Node::Text(s) => Node::Text(s.clone()),
        Node::Number(d) => Node::Number(d.duplicate()),
        Node::Bool(b) => Node::Bool(*b),
        Node::Null => Node::Null,
        Node::Undefined => Node::Undefined,
        Node::Fragment(xs) => Node::Fragment(dup_nodes(xs)),
    }
}

/// An exact copy of a node list.
pub fn dup_nodes(vs: &Vec<Node>) -> (r: Vec<Node>)
    ensures
        nodes_view(r@) == nodes_view(vs@),
    decreases seq_size(nodes_view(vs@)), 1int,
{
    let mut out: Vec<Node> = Vec::new();
    let mut i: usize = 0;
    while i < vs.len()
        invariant
            i <= vs@.len(),
            nodes_view(out@) == nodes_view(vs@.subrange(0, i as int)),
        decreases vs@.len() - i,
    {
        proof {
            lemma_nodes_view_elems(vs@);
            lemma_seq_size_elem(nodes_view(vs@), i as int);
            lemma_node_size_pos(nodes_view(vs@)[i as int]);
        }
        let copy = dup_node(&vs[i]);
        let ghost prev = out@;
        out.push(copy);
        proof {
            assert(vs@.subrange(0, i as int + 1).drop_last() =~= vs@.subrange(0, i as int));
            assert(vs@.subrange(0, i as int + 1).last() == vs@[i as int]);
            assert(out@.drop_last() =~= prev);
            assert(out@.last() == copy);
            assert(nodes_view(out@) =~= nodes_view(vs@.subrange(0, i as int + 1)));
        }
        i = i + 1;
    }
    proof {
        assert(vs@.subrange(0, vs@.len() as int) =~= vs@);
    }
    out
}

} // verus!
