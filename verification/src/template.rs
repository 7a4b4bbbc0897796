//! The static template: skeleton nodes plus path indices to the dynamic holes.
//!
//! A [`Template`] is immutable and shareable: every render at the same call
//! site reuses it and supplies fresh dynamic values for its placeholders. The
//! placeholders are numbered in the order they are encountered walking the
//! roots left to right, depth first, and `node_paths` / `attr_paths` record a
//! root-to-node path for each, so a reconciler can jump straight to the
//! dynamic positions instead of walking the whole static tree.

use vstd::prelude::*;

verus! {

/// A static attribute of a template element, or a placeholder for a dynamic one.
#[derive(PartialEq, Debug)]
pub enum TemplateAttribute {
    /// An attribute fixed at template-construction time. `volatile` marks an
    /// attribute whose host property can change outside the framework's
    /// control and therefore needs forced reassignment.
    Static {
        name: String,
        value: String,
        namespace: Option<String>,
        volatile: bool,
    },
    /// Placeholder for the dynamic attribute with this slot index.
    Dynamic(usize),
}

/// One node of the static skeleton.
#[derive(PartialEq, Debug)]
pub enum TemplateNode {
    /// A static element with a mix of static and placeholder attributes and
    /// children.
    Element {
        tag: String,
        namespace: Option<String>,
        attrs: Vec<TemplateAttribute>,
        children: Vec<TemplateNode>,
        inner_opt: bool,
    },
    /// Static text.
    Text(String),
    /// Placeholder for an entire dynamic subtree, indexing into the dynamic
    /// node slots.
    Dynamic(usize),
    /// Placeholder for dynamic text only, sharing the dynamic node index
    /// space with `Dynamic`.
    DynamicText(usize),
}

/// The indices carried by the `Dynamic` placeholders of one attribute list,
/// in order.
pub open spec fn attrs_dyn_indices(attrs: Seq<TemplateAttribute>) -> Seq<usize>
    decreases attrs.len(),
{
    if attrs.len() == 0 {
        Seq::empty()
    } else {
        attrs_dyn_indices(attrs.subrange(0, attrs.len() - 1)) + (match attrs[attrs.len() - 1] {
            TemplateAttribute::Dynamic(i) => seq![i],
            TemplateAttribute::Static { .. } => Seq::empty(),
        })
    }
}

/// The indices carried by the dynamic-node placeholders below `n`, in
/// depth-first encounter order.
pub open spec fn node_dyn_indices(n: TemplateNode) -> Seq<usize>
    decreases n,
{
    match n {
        TemplateNode::Element { children, .. } => nodes_dyn_indices(children@),
        TemplateNode::Text(_) => Seq::empty(),
        TemplateNode::Dynamic(i) => seq![i],
        TemplateNode::DynamicText(i) => seq![i],
    }
}

/// The indices carried by the dynamic-node placeholders below a node list, in
/// depth-first encounter order.
pub open spec fn nodes_dyn_indices(nodes: Seq<TemplateNode>) -> Seq<usize>
    decreases nodes,
{
    if nodes.len() == 0 {
        Seq::empty()
    } else {
        nodes_dyn_indices(nodes.subrange(0, nodes.len() - 1)) + node_dyn_indices(
            nodes[nodes.len() - 1],
        )
    }
}

/// The indices carried by the dynamic-attribute placeholders below `n`, in
/// encounter order: an element's own attributes first, then its children.
pub open spec fn node_attr_indices(n: TemplateNode) -> Seq<usize>
    decreases n,
{
    match n {
        TemplateNode::Element { attrs, children, .. } => attrs_dyn_indices(attrs@)
            + nodes_attr_indices(children@),
        TemplateNode::Text(_) => Seq::empty(),
        TemplateNode::Dynamic(_) => Seq::empty(),
        TemplateNode::DynamicText(_) => Seq::empty(),
    }
}

/// The indices carried by the dynamic-attribute placeholders below a node
/// list, in encounter order.
pub open spec fn nodes_attr_indices(nodes: Seq<TemplateNode>) -> Seq<usize>
    decreases nodes,
{
    if nodes.len() == 0 {
        Seq::empty()
    } else {
        nodes_attr_indices(nodes.subrange(0, nodes.len() - 1)) + node_attr_indices(
            nodes[nodes.len() - 1],
        )
    }
}

/// A size measure on one node: the number of nodes in its subtree.
pub open spec fn node_size(n: TemplateNode) -> nat
    decreases n,
{
    match n {
        TemplateNode::Element { children, .. } => 1 + nodes_size(children@),
        TemplateNode::Text(_) => 1,
        TemplateNode::Dynamic(_) => 1,
        TemplateNode::DynamicText(_) => 1,
    }
}

/// A size measure on a node list: the number of nodes in all its subtrees.
pub open spec fn nodes_size(nodes: Seq<TemplateNode>) -> nat
    decreases nodes,
{
    if nodes.len() == 0 {
        0
    } else {
        nodes_size(nodes.subrange(0, nodes.len() - 1)) + node_size(nodes[nodes.len() - 1])
    }
}

/// Each node of a list contributes its whole subtree to the list's size.
proof fn lemma_nodes_size_element(nodes: Seq<TemplateNode>, k: int)
    requires
        0 <= k < nodes.len(),
    ensures
        node_size(nodes[k]) <= nodes_size(nodes),
    decreases nodes.len(),
{
    let prefix = nodes.subrange(0, nodes.len() - 1);
    if k < nodes.len() - 1 {
        lemma_nodes_size_element(prefix, k);
        assert(prefix[k] == nodes[k]);
    }
}

/// Follow `path` starting at byte `pos`: `path[pos]` indexes into `nodes`,
/// and every later byte descends into the children of an element.
pub open spec fn resolve_from(nodes: Seq<TemplateNode>, path: Seq<u8>, pos: int) -> Option<
    TemplateNode,
>
    decreases path.len() - pos,
{
    if pos < 0 || pos >= path.len() {
        Option::None
    } else if path[pos] as int >= nodes.len() {
        Option::None
    } else if pos == path.len() - 1 {
        Option::Some(nodes[path[pos] as int])
    } else {
        match nodes[path[pos] as int] {
            TemplateNode::Element { children, .. } => resolve_from(children@, path, pos + 1),
            _ => Option::None,
        }
    }
}

/// Resolve a recorded root-to-node path: the first byte picks a root, each
/// later byte a child index inside an element.
pub open spec fn resolve_path(roots: Seq<TemplateNode>, path: Seq<u8>) -> Option<TemplateNode> {
    resolve_from(roots, path, 0)
}

/// The path resolves to the dynamic-node placeholder carrying index `i`.
pub open spec fn node_path_ok(roots: Seq<TemplateNode>, path: Seq<u8>, i: usize) -> bool {
    match resolve_path(roots, path) {
        Option::Some(n) => n == TemplateNode::Dynamic(i) || n == TemplateNode::DynamicText(i),
        Option::None => false,
    }
}

/// The path resolves to an element one of whose attributes is the dynamic
/// attribute placeholder carrying index `i`.
pub open spec fn attr_path_ok(roots: Seq<TemplateNode>, path: Seq<u8>, i: usize) -> bool {
    match resolve_path(roots, path) {
        Option::Some(TemplateNode::Element { attrs, .. }) => exists|j: int|
            0 <= j < attrs@.len() && attrs@[j] == TemplateAttribute::Dynamic(i),
        _ => false,
    }
}

/// An immutable description of a tree's static shape plus the path indices
/// locating its dynamic holes. A template owns no per-render state and may be
/// shared by every `VNode` produced at the same call site.
#[derive(PartialEq, Debug)]
pub struct Template {
    /// Stable identity (typically a source-location string) used to recognize
    /// "same template, new values" across renders.
    pub id: String,
    /// The root-level nodes of the static skeleton.
    pub roots: Vec<TemplateNode>,
    /// For the n-th dynamic-node placeholder, the root-to-node path locating
    /// it: a root index followed by child indices.
    pub node_paths: Vec<Vec<u8>>,
    /// For the n-th dynamic-attribute placeholder, the path to the element
    /// carrying it.
    pub attr_paths: Vec<Vec<u8>>,
}

impl Template {
    /// The number of dynamic-node placeholders reachable from the roots.
    pub open spec fn dyn_node_count(self) -> nat {
        nodes_dyn_indices(self.roots@).len()
    }

    /// The number of dynamic-attribute placeholders reachable from the roots.
    pub open spec fn dyn_attr_count(self) -> nat {
        nodes_attr_indices(self.roots@).len()
    }

    /// The template invariant: placeholder indices run 0, 1, 2, ... in
    /// encounter order, there is exactly one recorded path per placeholder,
    /// and the k-th path resolves to the placeholder carrying index k.
    pub open spec fn wf(self) -> bool {
        let nidx = nodes_dyn_indices(self.roots@);
        let aidx = nodes_attr_indices(self.roots@);
        &&& self.node_paths@.len() == nidx.len()
        &&& forall|k: int| 0 <= k < nidx.len() ==> (#[trigger] nidx[k]) as int == k
        &&& self.attr_paths@.len() == aidx.len()
        &&& forall|k: int| 0 <= k < aidx.len() ==> (#[trigger] aidx[k]) as int == k
        &&& forall|k: int|
            0 <= k < self.node_paths@.len() ==> #[trigger] node_path_ok(
                self.roots@,
                self.node_paths@[k]@,
                k as usize,
            )
        &&& forall|k: int|
            0 <= k < self.attr_paths@.len() ==> #[trigger] attr_path_ok(
                self.roots@,
                self.attr_paths@[k]@,
                k as usize,
            )
    }

    /// Count the dynamic-node placeholders reachable from the roots.
    pub fn count_dynamic_nodes(&self) -> (n: usize)
        ensures
            n == self.dyn_node_count(),
    {
        collect_dyn_node_indices(&self.roots).len()
    }

    /// Count the dynamic-attribute placeholders reachable from the roots.
    pub fn count_dynamic_attrs(&self) -> (n: usize)
        ensures
            n == self.dyn_attr_count(),
    {
        collect_dyn_attr_indices(&self.roots).len()
    }

    /// Follow a recorded path to the node it addresses, or nothing if the
    /// path runs out of bounds or through a non-element.
    pub fn resolve(&self, path: &Vec<u8>) -> (r: Option<&TemplateNode>)
        ensures
            match r {
                Option::Some(n) => resolve_path(self.roots@, path@) == Option::Some(*n),
                Option::None => resolve_path(self.roots@, path@) is None,
            },
    {
        resolve_at(&self.roots, path, 0)
    }

    /// Decide the whole template invariant [`Template::wf`].
    pub fn is_well_formed(&self) -> (b: bool)
        ensures
            b == self.wf(),
    {
        let nidx = collect_dyn_node_indices(&self.roots);
        let aidx = collect_dyn_attr_indices(&self.roots);
        if nidx.len() != self.node_paths.len() {
            return false;
        }
        if aidx.len() != self.attr_paths.len() {
            return false;
        }
        let mut k: usize = 0;
        while k < nidx.len()
            invariant
                k <= nidx@.len(),
                nidx@ == nodes_dyn_indices(self.roots@),
                forall|i: int| 0 <= i < k ==> (#[trigger] nidx@[i]) as int == i,
            decreases nidx@.len() - k,
        {
            if nidx[k] != k {
                return false;
            }
            k += 1;
        }
        let mut k: usize = 0;
        while k < aidx.len()
            invariant
                k <= aidx@.len(),
                aidx@ == nodes_attr_indices(self.roots@),
                forall|i: int| 0 <= i < k ==> (#[trigger] aidx@[i]) as int == i,
            decreases aidx@.len() - k,
        {
            if aidx[k] != k {
                return false;
            }
            k += 1;
        }
        let mut k: usize = 0;
        while k < self.node_paths.len()
            invariant
                k <= self.node_paths@.len(),
                forall|i: int|
                    0 <= i < k ==> #[trigger] node_path_ok(
                        self.roots@,
                        self.node_paths@[i]@,
                        i as usize,
                    ),
            decreases self.node_paths@.len() - k,
        {
            match resolve_at(&self.roots, &self.node_paths[k], 0) {
                Option::Some(n) => {
                    match n {
                        TemplateNode::Dynamic(i) => {
                            if *i != k {
                                proof {
                                    assert(!node_path_ok(
                                        self.roots@,
                                        self.node_paths@[k as int]@,
                                        (k as int) as usize,
                                    ));
                                }
                                return false;
                            }
                        },
                        TemplateNode::DynamicText(i) => {
                            if *i != k {
                                proof {
                                    assert(!node_path_ok(
                                        self.roots@,
                                        self.node_paths@[k as int]@,
                                        (k as int) as usize,
                                    ));
                                }
                                return false;
                            }
                        },
                        _ => {
                            proof {
                                assert(!node_path_ok(self.roots@, self.node_paths@[k as int]@, (k as int) as usize));
                            }
                            return false;
                        },
                    }
                },
                Option::None => {
                    proof {
                        assert(!node_path_ok(self.roots@, self.node_paths@[k as int]@, (k as int) as usize));
                    }
                    return false;
                },
            }
            proof {
                assert(node_path_ok(self.roots@, self.node_paths@[k as int]@, (k as int) as usize));
            }
            k += 1;
        }
        let mut k: usize = 0;
        while k < self.attr_paths.len()
            invariant
                k <= self.attr_paths@.len(),
                forall|i: int|
                    0 <= i < k ==> #[trigger] attr_path_ok(
                        self.roots@,
                        self.attr_paths@[i]@,
                        i as usize,
                    ),
            decreases self.attr_paths@.len() - k,
        {
            match resolve_at(&self.roots, &self.attr_paths[k], 0) {
                Option::Some(n) => {
                    match n {
                        TemplateNode::Element { attrs, .. } => {
                            if !attrs_contain_dynamic(attrs, k) {
                                proof {
                                    assert(!attr_path_ok(
                                        self.roots@,
                                        self.attr_paths@[k as int]@,
                                        (k as int) as usize,
                                    ));
                                }
                                return false;
                            }
                        },
                        _ => {
                            proof {
                                assert(!attr_path_ok(self.roots@, self.attr_paths@[k as int]@, (k as int) as usize));
                            }
                            return false;
                        },
                    }
                },
                Option::None => {
                    proof {
                        assert(!attr_path_ok(self.roots@, self.attr_paths@[k as int]@, (k as int) as usize));
                    }
                    return false;
                },
            }
            proof {
                assert(attr_path_ok(self.roots@, self.attr_paths@[k as int]@, (k as int) as usize));
            }
            k += 1;
        }
        true
    }
}

/// Whether some attribute of the list is the dynamic placeholder with index
/// `idx`.
fn attrs_contain_dynamic(attrs: &Vec<TemplateAttribute>, idx: usize) -> (b: bool)
    ensures
        b == exists|j: int| 0 <= j < attrs@.len() && attrs@[j] == TemplateAttribute::Dynamic(idx),
{
    let mut k: usize = 0;
    while k < attrs.len()
        invariant
            k <= attrs@.len(),
            forall|j: int| 0 <= j < k ==> #[trigger] attrs@[j] != TemplateAttribute::Dynamic(idx),
        decreases attrs@.len() - k,
    {
        match &attrs[k] {
            TemplateAttribute::Dynamic(i) => {
                if *i == idx {
                    return true;
                }
            },
            TemplateAttribute::Static { .. } => {},
        }
        k += 1;
    }
    false
}

/// Append the indices of the dynamic placeholders of one attribute list, in
/// order.
fn push_attr_indices(attrs: &Vec<TemplateAttribute>, out: &mut Vec<usize>)
    ensures
        final(out)@ == old(out)@ + attrs_dyn_indices(attrs@),
{
    let mut k: usize = 0;
    while k < attrs.len()
        invariant
            k <= attrs@.len(),
            out@ == old(out)@ + attrs_dyn_indices(attrs@.subrange(0, k as int)),
        decreases attrs@.len() - k,
    {
        match &attrs[k] {
            TemplateAttribute::Dynamic(i) => out.push(*i),
            TemplateAttribute::Static { .. } => {},
        }
        proof {
            let t = attrs@.subrange(0, k as int + 1);
            assert(t.subrange(0, t.len() - 1) =~= attrs@.subrange(0, k as int));
            assert(t[t.len() - 1] == attrs@[k as int]);
        }
        k += 1;
    }
    proof {
        assert(attrs@.subrange(0, attrs@.len() as int) =~= attrs@);
    }
}

/// Append the dynamic-node placeholder indices below one node, depth first.
fn push_node_dyn_indices(n: &TemplateNode, out: &mut Vec<usize>)
    ensures
        final(out)@ == old(out)@ + node_dyn_indices(*n),
    decreases node_size(*n),
{
    match n {
        TemplateNode::Element { children, .. } => {
            let mut k: usize = 0;
            while k < children.len()
                invariant
                    k <= children@.len(),
                    out@ == old(out)@ + nodes_dyn_indices(children@.subrange(0, k as int)),
                    node_size(*n) == 1 + nodes_size(children@),
                decreases children@.len() - k,
            {
                proof {
                    lemma_nodes_size_element(children@, k as int);
                }
                push_node_dyn_indices(&children[k], out);
                proof {
                    let t = children@.subrange(0, k as int + 1);
                    assert(t.subrange(0, t.len() - 1) =~= children@.subrange(0, k as int));
                    assert(t[t.len() - 1] == children@[k as int]);
                }
                k += 1;
            }
            proof {
                assert(children@.subrange(0, children@.len() as int) =~= children@);
            }
        },
        TemplateNode::Text(_) => {},
        TemplateNode::Dynamic(i) => out.push(*i),
        TemplateNode::DynamicText(i) => out.push(*i),
    }
}

/// Append the dynamic-attribute placeholder indices below one node: the
/// element's own attributes first, then its children.
fn push_node_attr_indices(n: &TemplateNode, out: &mut Vec<usize>)
    ensures
        final(out)@ == old(out)@ + node_attr_indices(*n),
    decreases node_size(*n),
{
    match n {
        TemplateNode::Element { attrs, children, .. } => {
            push_attr_indices(attrs, out);
            let mut k: usize = 0;
            while k < children.len()
                invariant
                    k <= children@.len(),
                    out@ == old(out)@ + attrs_dyn_indices(attrs@) + nodes_attr_indices(
                        children@.subrange(0, k as int),
                    ),
                    node_size(*n) == 1 + nodes_size(children@),
                decreases children@.len() - k,
            {
                proof {
                    lemma_nodes_size_element(children@, k as int);
                }
                push_node_attr_indices(&children[k], out);
                proof {
                    let t = children@.subrange(0, k as int + 1);
                    assert(t.subrange(0, t.len() - 1) =~= children@.subrange(0, k as int));
                    assert(t[t.len() - 1] == children@[k as int]);
                }
                k += 1;
            }
            proof {
                assert(children@.subrange(0, children@.len() as int) =~= children@);
            }
        },
        TemplateNode::Text(_) => {},
        TemplateNode::Dynamic(_) => {},
        TemplateNode::DynamicText(_) => {},
    }
}

/// The dynamic-node placeholder indices below the roots, in encounter order.
fn collect_dyn_node_indices(roots: &Vec<TemplateNode>) -> (out: Vec<usize>)
    ensures
        out@ == nodes_dyn_indices(roots@),
{
    let mut out: Vec<usize> = Vec::new();
    let mut k: usize = 0;
    while k < roots.len()
        invariant
            k <= roots@.len(),
            out@ == nodes_dyn_indices(roots@.subrange(0, k as int)),
        decreases roots@.len() - k,
    {
        push_node_dyn_indices(&roots[k], &mut out);
        proof {
            let t = roots@.subrange(0, k as int + 1);
            assert(t.subrange(0, t.len() - 1) =~= roots@.subrange(0, k as int));
            assert(t[t.len() - 1] == roots@[k as int]);
        }
        k += 1;
    }
    proof {
        assert(roots@.subrange(0, roots@.len() as int) =~= roots@);
    }
    out
}

/// The dynamic-attribute placeholder indices below the roots, in encounter
/// order.
fn collect_dyn_attr_indices(roots: &Vec<TemplateNode>) -> (out: Vec<usize>)
    ensures
        out@ == nodes_attr_indices(roots@),
{
    let mut out: Vec<usize> = Vec::new();
    let mut k: usize = 0;
    while k < roots.len()
        invariant
            k <= roots@.len(),
            out@ == nodes_attr_indices(roots@.subrange(0, k as int)),
        decreases roots@.len() - k,
    {
        push_node_attr_indices(&roots[k], &mut out);
        proof {
            let t = roots@.subrange(0, k as int + 1);
            assert(t.subrange(0, t.len() - 1) =~= roots@.subrange(0, k as int));
            assert(t[t.len() - 1] == roots@[k as int]);
        }
        k += 1;
    }
    proof {
        assert(roots@.subrange(0, roots@.len() as int) =~= roots@);
    }
    out
}

/// Follow a path from byte `pos` down the node list, as
/// [`resolve_from`] describes.
fn resolve_at<'a>(nodes: &'a Vec<TemplateNode>, path: &Vec<u8>, pos: usize) -> (r: Option<
    &'a TemplateNode,
>)
    ensures
        match r {
            Option::Some(n) => resolve_from(nodes@, path@, pos as int) == Option::Some(*n),
            Option::None => resolve_from(nodes@, path@, pos as int) is None,
        },
    decreases path@.len() - pos,
{
    if pos >= path.len() {
        return Option::None;
    }
    let j = path[pos] as usize;
    if j >= nodes.len() {
        return Option::None;
    }
    if pos == path.len() - 1 {
        return Option::Some(&nodes[j]);
    }
    match &nodes[j] {
        TemplateNode::Element { children, .. } => resolve_at(children, path, pos + 1),
        _ => Option::None,
    }
}

/// The index a placeholder node carries.
pub open spec fn placeholder_index(n: TemplateNode) -> usize
    recommends
        n is Dynamic || n is DynamicText,
{
    match n {
        TemplateNode::Dynamic(i) => i,
        TemplateNode::DynamicText(i) => i,
        _ => 0,
    }
}

/// A placeholder standing among `nodes` contributes its index to
/// [`nodes_dyn_indices`].
proof fn lemma_dyn_index_contained(nodes: Seq<TemplateNode>, k: int)
    requires
        0 <= k < nodes.len(),
        nodes[k] is Dynamic || nodes[k] is DynamicText,
    ensures
        nodes_dyn_indices(nodes).contains(placeholder_index(nodes[k])),
    decreases nodes.len(),
{
    let last = nodes.len() - 1;
    let prefix = nodes.subrange(0, last);
    if k == last {
        assert(nodes_dyn_indices(nodes) == nodes_dyn_indices(prefix) + node_dyn_indices(
            nodes[last],
        ));
        assert(node_dyn_indices(nodes[last]) == seq![placeholder_index(nodes[last])]);
        assert(nodes_dyn_indices(nodes)[nodes_dyn_indices(prefix).len() as int]
            == placeholder_index(nodes[k]));
    } else {
        lemma_dyn_index_contained(prefix, k);
        let i = choose|i: int|
            0 <= i < nodes_dyn_indices(prefix).len() && nodes_dyn_indices(prefix)[i]
                == placeholder_index(prefix[k]);
        assert(nodes_dyn_indices(nodes)[i] == placeholder_index(nodes[k]));
    }
}

/// Law: a well-formed template records exactly one path per dynamic
/// placeholder — `node_paths` is as long as the number of `Dynamic` and
/// `DynamicText` placeholders reachable from the roots, `attr_paths` as long
/// as the number of dynamic attribute placeholders — and the k-th recorded
/// path resolves, root index first and child indices after, to the
/// placeholder carrying index k.
pub proof fn lemma_wf_template_paths(t: Template)
    requires
        t.wf(),
    ensures
        t.node_paths@.len() == t.dyn_node_count(),
        t.attr_paths@.len() == t.dyn_attr_count(),
        forall|k: int|
            0 <= k < t.node_paths@.len() ==> #[trigger] node_path_ok(
                t.roots@,
                t.node_paths@[k]@,
                k as usize,
            ),
        forall|k: int|
            0 <= k < t.attr_paths@.len() ==> #[trigger] attr_path_ok(
                t.roots@,
                t.attr_paths@[k]@,
                k as usize,
            ),
{
}

/// An index found below one entry of a node list is found below the list.
proof fn lemma_subtree_index_contained(nodes: Seq<TemplateNode>, k: int, x: usize)
    requires
        0 <= k < nodes.len(),
        node_dyn_indices(nodes[k]).contains(x),
    ensures
        nodes_dyn_indices(nodes).contains(x),
    decreases nodes.len(),
{
    let last = nodes.len() - 1;
    let prefix = nodes.subrange(0, last);
    if k == last {
        let li = node_dyn_indices(nodes[last]);
        let i = choose|i: int| 0 <= i < li.len() && li[i] == x;
        assert(nodes_dyn_indices(nodes)[nodes_dyn_indices(prefix).len() + i] == x);
    } else {
        assert(prefix[k] == nodes[k]);
        lemma_subtree_index_contained(prefix, k, x);
        let pidx = nodes_dyn_indices(prefix);
        let i = choose|i: int| 0 <= i < pidx.len() && pidx[i] == x;
        assert(nodes_dyn_indices(nodes)[i] == x);
    }
}

/// A path that resolves to a placeholder finds that placeholder's index
/// below the list entry the path names first.
proof fn lemma_resolve_reaches(nodes: Seq<TemplateNode>, path: Seq<u8>, pos: int)
    requires
        0 <= pos < path.len(),
        resolve_from(nodes, path, pos) is Some,
        resolve_from(nodes, path, pos)->0 is Dynamic || resolve_from(nodes, path, pos)->0
            is DynamicText,
    ensures
        (path[pos] as int) < nodes.len(),
        node_dyn_indices(nodes[path[pos] as int]).contains(
            placeholder_index(resolve_from(nodes, path, pos)->0),
        ),
    decreases path.len() - pos,
{
    let j = path[pos] as int;
    let n = resolve_from(nodes, path, pos)->0;
    if pos == path.len() - 1 {
        assert(node_dyn_indices(nodes[j])[0] == placeholder_index(n));
    } else {
        match nodes[j] {
            TemplateNode::Element { children, .. } => {
                lemma_resolve_reaches(children@, path, pos + 1);
                lemma_subtree_index_contained(children@, path[pos + 1] as int, placeholder_index(n));
            },
            _ => {},
        }
    }
}

/// An index found below two different entries of a node list occupies two
/// different positions of the list's index sequence.
proof fn lemma_two_subtrees_two_positions(nodes: Seq<TemplateNode>, j1: int, j2: int, x: usize)
    requires
        0 <= j1 < j2 < nodes.len(),
        node_dyn_indices(nodes[j1]).contains(x),
        node_dyn_indices(nodes[j2]).contains(x),
    ensures
        exists|i1: int, i2: int|
            0 <= i1 < i2 < nodes_dyn_indices(nodes).len() && nodes_dyn_indices(nodes)[i1] == x
                && nodes_dyn_indices(nodes)[i2] == x,
    decreases nodes.len(),
{
    let last = nodes.len() - 1;
    let prefix = nodes.subrange(0, last);
    let nidx = nodes_dyn_indices(nodes);
    let pidx = nodes_dyn_indices(prefix);
    if j2 == last {
        assert(prefix[j1] == nodes[j1]);
        lemma_subtree_index_contained(prefix, j1, x);
        let i1 = choose|i: int| 0 <= i < pidx.len() && pidx[i] == x;
        let li = node_dyn_indices(nodes[last]);
        let io = choose|i: int| 0 <= i < li.len() && li[i] == x;
        assert(nidx[i1] == x);
        assert(nidx[pidx.len() + io] == x);
        assert(0 <= i1 < pidx.len() + io < nidx.len());
    } else {
        assert(prefix[j1] == nodes[j1]);
        assert(prefix[j2] == nodes[j2]);
        lemma_two_subtrees_two_positions(prefix, j1, j2, x);
        let (i1, i2) = choose|i1: int, i2: int|
            0 <= i1 < i2 < pidx.len() && pidx[i1] == x && pidx[i2] == x;
        assert(nidx[i1] == x);
        assert(nidx[i2] == x);
    }
}

/// Law: in a well-formed template, the placeholder standing at root position
/// `idx` is recorded under exactly the one-byte path naming that root: its
/// slot's entry in `node_paths` is `[idx]`. In particular a root-level
/// placeholder can only stand at a position a path byte can name.
pub proof fn lemma_root_placeholder_path(t: Template, idx: int)
    requires
        t.wf(),
        0 <= idx < t.roots@.len(),
        t.roots@[idx] is Dynamic || t.roots@[idx] is DynamicText,
    ensures
        0 <= idx <= 255,
        (placeholder_index(t.roots@[idx]) as int) < t.node_paths@.len(),
        t.node_paths@[placeholder_index(t.roots@[idx]) as int]@ == seq![idx as u8],
{
    let roots = t.roots@;
    let x = placeholder_index(roots[idx]);
    let id = x as int;
    lemma_root_placeholder_index_in_range(t, idx);
    let p = t.node_paths@[id]@;
    assert(node_path_ok(roots, p, id as usize));
    let j = p[0] as int;
    assert(resolve_path(roots, p) is Some);
    lemma_resolve_reaches(roots, p, 0);
    if j != idx {
        assert(node_dyn_indices(roots[idx])[0] == x);
        if j < idx {
            lemma_two_subtrees_two_positions(roots, j, idx, x);
        } else {
            lemma_two_subtrees_two_positions(roots, idx, j, x);
        }
        let nidx = nodes_dyn_indices(roots);
        let (i1, i2) = choose|i1: int, i2: int|
            0 <= i1 < i2 < nidx.len() && nidx[i1] == x && nidx[i2] == x;
        assert(nidx[i1] as int == i1);
        assert(nidx[i2] as int == i2);
        assert(false);
    }
    assert(p.len() == 1);
    assert(p =~= seq![idx as u8]);
}

/// Under the template invariant, the index carried by a root-level
/// placeholder is below the dynamic-node count, so it indexes validly into a
/// matching slot list.
pub proof fn lemma_root_placeholder_index_in_range(t: Template, k: int)
    requires
        t.wf(),
        0 <= k < t.roots@.len(),
        t.roots@[k] is Dynamic || t.roots@[k] is DynamicText,
    ensures
        (placeholder_index(t.roots@[k]) as int) < t.dyn_node_count(),
{
    lemma_dyn_index_contained(t.roots@, k);
    let nidx = nodes_dyn_indices(t.roots@);
    let i = choose|i: int| 0 <= i < nidx.len() && nidx[i] == placeholder_index(t.roots@[k]);
    assert(nidx[i] as int == i);
}


/// Structural equality of two skeleton nodes: equal in every field, with the
/// nested child list compared element by element. It is spelled out
/// recursively because a freshly built `Vec` is not provably spec-equal to
/// the one it copies, even when their contents are.
pub open spec fn node_like(a: TemplateNode, b: TemplateNode) -> bool
    decreases a,
{
    match (a, b) {
        (
            TemplateNode::Element {
                tag: tag_a,
                namespace: ns_a,
                attrs: attrs_a,
                children: ch_a,
                inner_opt: io_a,
            },
            TemplateNode::Element {
                tag: tag_b,
                namespace: ns_b,
                attrs: attrs_b,
                children: ch_b,
                inner_opt: io_b,
            },
        ) => {
            &&& tag_a == tag_b
            &&& ns_a == ns_b
            &&& attrs_a@ == attrs_b@
            &&& io_a == io_b
            &&& nodes_like(ch_a@, ch_b@)
        },
        (TemplateNode::Text(x), TemplateNode::Text(y)) => x == y,
        (TemplateNode::Dynamic(i), TemplateNode::Dynamic(j)) => i == j,
        (TemplateNode::DynamicText(i), TemplateNode::DynamicText(j)) => i == j,
        _ => false,
    }
}

/// Structural equality of two node lists, element by element.
pub open spec fn nodes_like(a: Seq<TemplateNode>, b: Seq<TemplateNode>) -> bool
    decreases a,
{
    if a.len() != b.len() {
        false
    } else if a.len() == 0 {
        true
    } else {
        nodes_like(a.subrange(0, a.len() - 1), b.subrange(0, b.len() - 1)) && node_like(
            a[a.len() - 1],
            b[b.len() - 1],
        )
    }
}

/// Alike node lists are alike element by element.
proof fn lemma_nodes_like_element(a: Seq<TemplateNode>, b: Seq<TemplateNode>, i: int)
    requires
        nodes_like(a, b),
        0 <= i < a.len(),
    ensures
        node_like(a[i], b[i]),
    decreases a.len(),
{
    if i < a.len() - 1 {
        lemma_nodes_like_element(a.subrange(0, a.len() - 1), b.subrange(0, b.len() - 1), i);
    }
}

/// Alike nodes carry the same placeholder indices.
proof fn lemma_node_like_indices(a: TemplateNode, b: TemplateNode)
    requires
        node_like(a, b),
    ensures
        node_dyn_indices(a) == node_dyn_indices(b),
        node_attr_indices(a) == node_attr_indices(b),
    decreases node_size(a), 0int,
{
    match (a, b) {
        (
            TemplateNode::Element { children: ch_a, .. },
            TemplateNode::Element { children: ch_b, .. },
        ) => {
            lemma_nodes_like_indices(ch_a@, ch_b@);
        },
        _ => {},
    }
}

/// A node's subtree holds at least the node itself.
proof fn lemma_node_size_pos(n: TemplateNode)
    ensures
        node_size(n) >= 1,
{
    match n {
        TemplateNode::Element { .. } => {},
        TemplateNode::Text(_) => {},
        TemplateNode::Dynamic(_) => {},
        TemplateNode::DynamicText(_) => {},
    }
}

/// Alike node lists carry the same placeholder indices.
proof fn lemma_nodes_like_indices(a: Seq<TemplateNode>, b: Seq<TemplateNode>)
    requires
        nodes_like(a, b),
    ensures
        nodes_dyn_indices(a) == nodes_dyn_indices(b),
        nodes_attr_indices(a) == nodes_attr_indices(b),
    decreases nodes_size(a), 1int,
{
    if a.len() > 0 {
        let pa = a.subrange(0, a.len() - 1);
        let pb = b.subrange(0, b.len() - 1);
        assert(nodes_size(a) == nodes_size(pa) + node_size(a[a.len() - 1]));
        lemma_node_size_pos(a[a.len() - 1]);
        lemma_nodes_like_indices(pa, pb);
        lemma_node_like_indices(a[a.len() - 1], b[b.len() - 1]);
    }
}

/// Paths resolve alike through alike node lists: both fail, or both reach
/// alike nodes.
proof fn lemma_nodes_like_resolve(a: Seq<TemplateNode>, b: Seq<TemplateNode>, path: Seq<u8>, pos: int)
    requires
        nodes_like(a, b),
    ensures
        match (resolve_from(a, path, pos), resolve_from(b, path, pos)) {
            (Option::Some(n1), Option::Some(n2)) => node_like(n1, n2),
            (Option::None, Option::None) => true,
            _ => false,
        },
    decreases path.len() - pos,
{
    if 0 <= pos < path.len() {
        let j = path[pos] as int;
        if j < a.len() {
            lemma_nodes_like_element(a, b, j);
            if pos < path.len() - 1 {
                match (a[j], b[j]) {
                    (
                        TemplateNode::Element { children: ch_a, .. },
                        TemplateNode::Element { children: ch_b, .. },
                    ) => {
                        lemma_nodes_like_resolve(ch_a@, ch_b@, path, pos + 1);
                    },
                    _ => {},
                }
            }
        }
    }
}

/// Two templates with the same identity, alike skeletons and the same
/// recorded paths satisfy the invariant exactly alike.
proof fn lemma_like_wf(t1: Template, t2: Template)
    requires
        nodes_like(t1.roots@, t2.roots@),
        t1.node_paths@.len() == t2.node_paths@.len(),
        forall|k: int|
            0 <= k < t1.node_paths@.len() ==> #[trigger] t1.node_paths@[k]@ == t2.node_paths@[k]@,
        t1.attr_paths@.len() == t2.attr_paths@.len(),
        forall|k: int|
            0 <= k < t1.attr_paths@.len() ==> #[trigger] t1.attr_paths@[k]@ == t2.attr_paths@[k]@,
    ensures
        t1.wf() == t2.wf(),
{
    lemma_nodes_like_indices(t1.roots@, t2.roots@);
    assert forall|k: int| 0 <= k < t1.node_paths@.len() implies #[trigger] node_path_ok(
        t1.roots@,
        t1.node_paths@[k]@,
        k as usize,
    ) == node_path_ok(t2.roots@, t2.node_paths@[k]@, k as usize) by {
        lemma_nodes_like_resolve(t1.roots@, t2.roots@, t1.node_paths@[k]@, 0);
    }
    assert forall|k: int| 0 <= k < t1.attr_paths@.len() implies #[trigger] attr_path_ok(
        t1.roots@,
        t1.attr_paths@[k]@,
        k as usize,
    ) == attr_path_ok(t2.roots@, t2.attr_paths@[k]@, k as usize) by {
        lemma_nodes_like_resolve(t1.roots@, t2.roots@, t1.attr_paths@[k]@, 0);
    }
    if t1.wf() {
        assert forall|k: int| 0 <= k < t2.node_paths@.len() implies #[trigger] node_path_ok(
            t2.roots@,
            t2.node_paths@[k]@,
            k as usize,
        ) by {
            assert(node_path_ok(t1.roots@, t1.node_paths@[k]@, k as usize));
        }
        assert forall|k: int| 0 <= k < t2.attr_paths@.len() implies #[trigger] attr_path_ok(
            t2.roots@,
            t2.attr_paths@[k]@,
            k as usize,
        ) by {
            assert(attr_path_ok(t1.roots@, t1.attr_paths@[k]@, k as usize));
        }
        assert(t2.wf());
    }
    if t2.wf() {
        assert forall|k: int| 0 <= k < t1.node_paths@.len() implies #[trigger] node_path_ok(
            t1.roots@,
            t1.node_paths@[k]@,
            k as usize,
        ) by {
            assert(node_path_ok(t2.roots@, t2.node_paths@[k]@, k as usize));
        }
        assert forall|k: int| 0 <= k < t1.attr_paths@.len() implies #[trigger] attr_path_ok(
            t1.roots@,
            t1.attr_paths@[k]@,
            k as usize,
        ) by {
            assert(attr_path_ok(t2.roots@, t2.attr_paths@[k]@, k as usize));
        }
        assert(t1.wf());
    }
}

/// Copy an optional namespace string.
fn clone_opt_string(s: &Option<String>) -> (r: Option<String>)
    ensures
        r == *s,
{
    match s {
        Some(x) => Some(x.clone()),
        None => None,
    }
}

/// Copy one template attribute, field for field.
fn clone_attr(a: &TemplateAttribute) -> (r: TemplateAttribute)
    ensures
        r == *a,
{
    match a {
        TemplateAttribute::Static { name, value, namespace, volatile } => {
            TemplateAttribute::Static {
                name: name.clone(),
                value: value.clone(),
                namespace: clone_opt_string(namespace),
                volatile: *volatile,
            }
        },
        TemplateAttribute::Dynamic(i) => TemplateAttribute::Dynamic(*i),
    }
}

/// Copy an attribute list, element for element.
fn clone_attrs(attrs: &Vec<TemplateAttribute>) -> (r: Vec<TemplateAttribute>)
    ensures
        r@ == attrs@,
{
    let mut out: Vec<TemplateAttribute> = Vec::new();
    let mut k: usize = 0;
    while k < attrs.len()
        invariant
            k <= attrs@.len(),
            out@.len() == k,
            forall|i: int| 0 <= i < k ==> out@[i] == attrs@[i],
        decreases attrs@.len() - k,
    {
        out.push(clone_attr(&attrs[k]));
        k += 1;
    }
    proof {
        assert(out@ =~= attrs@);
    }
    out
}

/// Copy one skeleton node; the copy is structurally alike the one given.
fn clone_node(n: &TemplateNode) -> (r: TemplateNode)
    ensures
        node_like(*n, r),
    decreases node_size(*n), 0int,
{
    match n {
        TemplateNode::Element { tag, namespace, attrs, children, inner_opt } => {
            let cloned_children = clone_nodes(children);
            TemplateNode::Element {
                tag: tag.clone(),
                namespace: clone_opt_string(namespace),
                attrs: clone_attrs(attrs),
                children: cloned_children,
                inner_opt: *inner_opt,
            }
        },
        TemplateNode::Text(x) => TemplateNode::Text(x.clone()),
        TemplateNode::Dynamic(i) => TemplateNode::Dynamic(*i),
        TemplateNode::DynamicText(i) => TemplateNode::DynamicText(*i),
    }
}

/// Copy a node list; the copy is structurally alike the one given.
fn clone_nodes(nodes: &Vec<TemplateNode>) -> (r: Vec<TemplateNode>)
    ensures
        nodes_like(nodes@, r@),
    decreases nodes_size(nodes@), 1int,
{
    let mut out: Vec<TemplateNode> = Vec::new();
    let mut k: usize = 0;
    while k < nodes.len()
        invariant
            k <= nodes@.len(),
            out@.len() == k,
            nodes_like(nodes@.subrange(0, k as int), out@),
        decreases nodes@.len() - k,
    {
        proof {
            lemma_nodes_size_element(nodes@, k as int);
        }
        let ghost pre = out@;
        let c = clone_node(&nodes[k]);
        out.push(c);
        proof {
            let t = nodes@.subrange(0, k as int + 1);
            assert(t.subrange(0, t.len() - 1) =~= nodes@.subrange(0, k as int));
            assert(t[t.len() - 1] == nodes@[k as int]);
            assert(out@.subrange(0, out@.len() - 1) =~= pre);
            assert(out@[out@.len() - 1] == c);
        }
        k += 1;
    }
    proof {
        assert(nodes@.subrange(0, nodes@.len() as int) =~= nodes@);
    }
    out
}

/// Copy one recorded path.
fn clone_path(p: &Vec<u8>) -> (r: Vec<u8>)
    ensures
        r@ == p@,
{
    let mut out: Vec<u8> = Vec::new();
    let mut k: usize = 0;
    while k < p.len()
        invariant
            k <= p@.len(),
            out@.len() == k,
            forall|i: int| 0 <= i < k ==> out@[i] == p@[i],
        decreases p@.len() - k,
    {
        out.push(p[k]);
        k += 1;
    }
    proof {
        assert(out@ =~= p@);
    }
    out
}

/// Copy a recorded path list; the copies hold the same bytes.
fn clone_paths(ps: &Vec<Vec<u8>>) -> (r: Vec<Vec<u8>>)
    ensures
        r@.len() == ps@.len(),
        forall|i: int| 0 <= i < ps@.len() ==> #[trigger] r@[i]@ == ps@[i]@,
{
    let mut out: Vec<Vec<u8>> = Vec::new();
    let mut k: usize = 0;
    while k < ps.len()
        invariant
            k <= ps@.len(),
            out@.len() == k,
            forall|i: int| 0 <= i < k ==> #[trigger] out@[i]@ == ps@[i]@,
        decreases ps@.len() - k,
    {
        out.push(clone_path(&ps[k]));
        k += 1;
    }
    out
}

impl Clone for Template {
    /// A template may be shared by every render produced at its call site;
    /// in this owned model sharing is cloning. The copy carries the same
    /// identity, a structurally alike skeleton, the same recorded paths and
    /// the same placeholder counts, and satisfies the invariant exactly when
    /// this one does.
    fn clone(&self) -> (r: Template)
        ensures
            r.id == self.id,
            nodes_like(self.roots@, r.roots@),
            r.node_paths@.len() == self.node_paths@.len(),
            forall|k: int|
                0 <= k < self.node_paths@.len() ==> #[trigger] r.node_paths@[k]@
                    == self.node_paths@[k]@,
            r.attr_paths@.len() == self.attr_paths@.len(),
            forall|k: int|
                0 <= k < self.attr_paths@.len() ==> #[trigger] r.attr_paths@[k]@
                    == self.attr_paths@[k]@,
            r.dyn_node_count() == self.dyn_node_count(),
            r.dyn_attr_count() == self.dyn_attr_count(),
            r.wf() == self.wf(),
    {
        let r = Template {
            id: self.id.clone(),
            roots: clone_nodes(&self.roots),
            node_paths: clone_paths(&self.node_paths),
            attr_paths: clone_paths(&self.attr_paths),
        };
        proof {
            lemma_nodes_like_indices(self.roots@, r.roots@);
            lemma_like_wf(*self, r);
        }
        r
    }
}

} // verus!
