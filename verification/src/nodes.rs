//! Per-render bindings: a [`VNode`] pairs one shared [`Template`] with the
//! dynamic values and host identities of a single render pass.
//!
//! A `VNode` is created fresh each render and superseded, not mutated, by the
//! next render's node for the same call site. Its only mutable state is the
//! identity cells the reconciler fills in at mount time.

use crate::arena::{ElementId, IdCell, ScopeId};
use crate::template::{
    lemma_root_placeholder_index_in_range, lemma_root_placeholder_path, placeholder_index,
    Template, TemplateNode,
};
use crate::values::{AttributeValue, ErasedValue};
use vstd::prelude::*;

verus! {

/// An embedded child component instance filling a dynamic-node slot.
#[derive(Debug)]
pub struct VComponent {
    /// The component's declared name, kept for diagnostics.
    pub name: String,
    /// Whether the props are structurally comparable, so an unchanged
    /// component can be skipped when diffing.
    pub static_props: bool,
    /// Identity of the scope this component runs in, assigned once mounted.
    pub scope: Option<ScopeId>,
    /// The type-erased props value handed to the render function.
    pub props: Option<ErasedValue>,
    /// Stable identity of the render function, issued at registration time;
    /// it distinguishes "same render function, different props" from
    /// "different render function entirely".
    pub render_fn: u64,
}

/// Dynamic text filling a dynamic-node slot.
#[derive(PartialEq, Debug)]
pub struct VText {
    /// Host identity recorded when the text node is mounted.
    pub id: IdCell,
    /// The current text value.
    pub value: String,
}

/// A fragment filling a dynamic-node slot.
#[derive(Debug)]
pub enum VFragment {
    /// A fragment that rendered nothing. It still carries a placeholder
    /// identity so that siblings keep a stable anchor across renders.
    Empty(IdCell),
    /// An ordered sequence of nested nodes.
    NonEmpty(Vec<VNode>),
}

/// The per-render value filling one dynamic-node placeholder.
#[derive(Debug)]
pub enum DynamicNode {
    /// An embedded child component instance.
    Component(VComponent),
    /// Dynamic text.
    Text(VText),
    /// A nested fragment.
    Fragment(VFragment),
}

impl DynamicNode {
    /// Whether this slot holds a component.
    pub fn is_component(&self) -> (r: bool)
        ensures
            r == (*self is Component),
    {
        match self {
            DynamicNode::Component(_) => true,
            _ => false,
        }
    }
}

/// A single dynamic attribute instance filling a dynamic-attribute slot.
#[derive(Debug)]
pub struct Attribute {
    /// Attribute name.
    pub name: String,
    /// The current value.
    pub value: AttributeValue,
    /// Namespace, where the host needs one.
    pub namespace: Option<String>,
    /// Host identity of the element this attribute was mounted on.
    pub mounted_element: IdCell,
    /// Marks an attribute whose host property can change outside the
    /// framework's control, requiring forced reassignment.
    pub volatile: bool,
}

/// The fail-fast diagnostic for a structural mismatch: the dynamic values
/// offered for a render disagree with the template's placeholder counts.
#[derive(PartialEq, Eq, Debug)]
pub struct StructureError {
    /// Identity of the template the values were offered to.
    pub template_id: String,
    /// Dynamic-node slots the template requires.
    pub expected_nodes: usize,
    /// Dynamic-node values actually supplied.
    pub actual_nodes: usize,
    /// Dynamic-attribute slots the template requires.
    pub expected_attrs: usize,
    /// Dynamic-attribute values actually supplied.
    pub actual_attrs: usize,
}

/// One render's binding of a template to fresh dynamic values and to the
/// host identities recorded for this render.
#[derive(Debug)]
pub struct VNode {
    /// Key identifying this instance among siblings for move-versus-recreate
    /// decisions; for a fragment it is the key of the first child.
    pub key: Option<String>,
    /// The host element that will own this tree; a back-reference, not an
    /// ownership edge.
    pub parent: Option<ElementId>,
    /// The shared, immutable static description.
    pub template: Template,
    /// One host-identity cell per template root, written by the reconciler
    /// after mounting and read on later updates and removals.
    pub root_ids: Vec<IdCell>,
    /// Values for the dynamic-node placeholders, positionally aligned with
    /// the template's index space.
    pub dynamic_nodes: Vec<DynamicNode>,
    /// Values for the dynamic-attribute placeholders, positionally aligned
    /// with the template's index space.
    pub dynamic_attrs: Vec<Attribute>,
}

impl VNode {
    /// Structural agreement between this render's values and its template:
    /// the template invariant holds, there is one root identity cell per
    /// root, and the dynamic slots match the placeholder counts.
    pub open spec fn wf(self) -> bool {
        &&& self.template.wf()
        &&& self.root_ids@.len() == self.template.roots@.len()
        &&& self.dynamic_nodes@.len() == self.template.dyn_node_count()
        &&& self.dynamic_attrs@.len() == self.template.dyn_attr_count()
    }

    /// Bind a template to one render's dynamic values. The value counts must
    /// exactly match the template's placeholder index space; on disagreement
    /// this fails fast with a diagnostic naming the template and the expected
    /// and actual counts. Root identity cells start unset.
    pub fn new(
        key: Option<String>,
        parent: Option<ElementId>,
        template: Template,
        dynamic_nodes: Vec<DynamicNode>,
        dynamic_attrs: Vec<Attribute>,
    ) -> (r: Result<VNode, StructureError>)
        requires
            template.wf(),
        ensures
            match r {
                Ok(v) => {
                    &&& dynamic_nodes@.len() == template.dyn_node_count()
                    &&& dynamic_attrs@.len() == template.dyn_attr_count()
                    &&& v.wf()
                    &&& v.key == key
                    &&& v.parent == parent
                    &&& v.template == template
                    &&& v.dynamic_nodes == dynamic_nodes
                    &&& v.dynamic_attrs == dynamic_attrs
                    &&& v.root_ids@.len() == template.roots@.len()
                    &&& forall|i: int|
                        0 <= i < v.root_ids@.len() ==> (#[trigger] v.root_ids@[i]).id is None
                },
                Err(e) => {
                    &&& !(dynamic_nodes@.len() == template.dyn_node_count() && dynamic_attrs@.len()
                        == template.dyn_attr_count())
                    &&& e.template_id == template.id
                    &&& e.expected_nodes == template.dyn_node_count()
                    &&& e.actual_nodes == dynamic_nodes@.len()
                    &&& e.expected_attrs == template.dyn_attr_count()
                    &&& e.actual_attrs == dynamic_attrs@.len()
                },
            },
    {
        let expected_nodes = template.count_dynamic_nodes();
        let expected_attrs = template.count_dynamic_attrs();
        if dynamic_nodes.len() != expected_nodes || dynamic_attrs.len() != expected_attrs {
            return Err(
                StructureError {
                    template_id: template.id,
                    expected_nodes,
                    actual_nodes: dynamic_nodes.len(),
                    expected_attrs,
                    actual_attrs: dynamic_attrs.len(),
                },
            );
        }
        let mut root_ids: Vec<IdCell> = Vec::new();
        let mut k: usize = 0;
        let n_roots = template.roots.len();
        while k < n_roots
            invariant
                k <= n_roots,
                root_ids@.len() == k,
                forall|i: int| 0 <= i < k ==> (#[trigger] root_ids@[i]).id is None,
            decreases n_roots - k,
        {
            root_ids.push(IdCell::unset());
            k += 1;
        }
        Ok(VNode { key, parent, template, root_ids, dynamic_nodes, dynamic_attrs })
    }

    /// The canonical "rendered nothing" node: a synthetic template with zero
    /// roots, zero recorded paths and zero dynamic slots. Callers that need
    /// "no UI" always receive a valid, diffable node rather than an absent
    /// one. Every call presents the same fixed sentinel template identity,
    /// so two consecutive empty renders read as "same template, new values",
    /// and the sentinel cannot collide with a source-location id.
    pub fn empty() -> (v: VNode)
        ensures
            v.wf(),
            v.key is None,
            v.parent is None,
            v.template.id@ == "dioxus-empty"@,
            v.template.roots@.len() == 0,
            v.template.node_paths@.len() == 0,
            v.template.attr_paths@.len() == 0,
            v.template.dyn_node_count() == 0,
            v.template.dyn_attr_count() == 0,
            v.root_ids@.len() == 0,
            v.dynamic_nodes@.len() == 0,
            v.dynamic_attrs@.len() == 0,
    {
        VNode {
            key: None,
            parent: None,
            template: Template {
                id: String::from_str("dioxus-empty"),
                roots: Vec::new(),
                node_paths: Vec::new(),
                attr_paths: Vec::new(),
            },
            root_ids: Vec::new(),
            dynamic_nodes: Vec::new(),
            dynamic_attrs: Vec::new(),
        }
    }

    /// The dynamic node bound at root position `idx`: the slot value the
    /// placeholder index stored at that root points to — a slot whose
    /// recorded path is exactly the one-byte path naming this root — or
    /// nothing if that root is fully static. An out-of-bounds index on a template with roots
    /// is a programmer error and is excluded up front; only the zero-root
    /// empty node answers "no dynamic node" for every index.
    pub fn dynamic_root(&self, idx: usize) -> (r: Option<&DynamicNode>)
        requires
            self.wf(),
            self.template.roots@.len() == 0 || idx < self.template.roots@.len(),
        ensures
            idx >= self.template.roots@.len() ==> r is None,
            idx < self.template.roots@.len() ==> (match self.template.roots@[idx as int] {
                TemplateNode::Element { .. } => r is None,
                TemplateNode::Text(_) => r is None,
                TemplateNode::Dynamic(id) => r matches Some(n) && *n
                    == self.dynamic_nodes@[id as int] && (id as int)
                    < self.template.node_paths@.len() && self.template.node_paths@[id as int]@
                    == seq![idx as u8],
                TemplateNode::DynamicText(id) => r matches Some(n) && *n
                    == self.dynamic_nodes@[id as int] && (id as int)
                    < self.template.node_paths@.len() && self.template.node_paths@[id as int]@
                    == seq![idx as u8],
            }),
    {
        if idx >= self.template.roots.len() {
            return None;
        }
        match &self.template.roots[idx] {
            TemplateNode::Element { .. } => None,
            TemplateNode::Text(_) => None,
            TemplateNode::Dynamic(id) => {
                proof {
                    lemma_root_placeholder_index_in_range(self.template, idx as int);
                    lemma_root_placeholder_path(self.template, idx as int);
                    assert(placeholder_index(self.template.roots@[idx as int]) == *id);
                }
                Some(&self.dynamic_nodes[*id])
            },
            TemplateNode::DynamicText(id) => {
                proof {
                    lemma_root_placeholder_index_in_range(self.template, idx as int);
                    lemma_root_placeholder_path(self.template, idx as int);
                    assert(placeholder_index(self.template.roots@[idx as int]) == *id);
                }
                Some(&self.dynamic_nodes[*id])
            },
        }
    }

    /// Record the host identity the reconciler mounted root `i` as.
    pub fn set_root_id(&mut self, i: usize, id: ElementId)
        requires
            i < old(self).root_ids@.len(),
        ensures
            final(self).root_ids@ == old(self).root_ids@.update(
                i as int,
                (IdCell { id: Some(id) }),
            ),
            final(self).key == old(self).key,
            final(self).parent == old(self).parent,
            final(self).template == old(self).template,
            final(self).dynamic_nodes == old(self).dynamic_nodes,
            final(self).dynamic_attrs == old(self).dynamic_attrs,
    {
        self.root_ids[i] = IdCell::mounted(id);
    }
}

} // verus!
