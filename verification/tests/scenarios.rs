use vdom_nodes::arena::{ElementId, IdCell};
use vdom_nodes::nodes::{Attribute, DynamicNode, VComponent, VFragment, VNode, VText};
use vdom_nodes::template::{Template, TemplateAttribute, TemplateNode};
use vdom_nodes::values::AttributeValue;

/// One root element with a single dynamic-text child at path [0, 0].
fn text_slot_template() -> Template {
    Template {
        id: "app.rs:7:3".to_string(),
        roots: vec![TemplateNode::Element {
            tag: "span".to_string(),
            namespace: None,
            attrs: vec![],
            children: vec![TemplateNode::DynamicText(0)],
            inner_opt: false,
        }],
        node_paths: vec![vec![0, 0]],
        attr_paths: vec![],
    }
}

fn text_node(value: &str) -> DynamicNode {
    DynamicNode::Text(VText {
        id: IdCell::unset(),
        value: value.to_string(),
    })
}

fn render_text(value: &str) -> VNode {
    let template = text_slot_template();
    assert!(template.is_well_formed());
    VNode::new(None, None, template, vec![text_node(value)], vec![]).expect("counts match")
}

#[test]
fn empty_vnode_is_valid_and_fully_static() {
    let v = VNode::empty();
    assert_eq!(v.template.id, "dioxus-empty");
    assert_eq!(VNode::empty().template.id, v.template.id);
    assert_eq!(v.template.roots.len(), 0);
    assert_eq!(v.template.node_paths.len(), 0);
    assert_eq!(v.template.attr_paths.len(), 0);
    assert_eq!(v.root_ids.len(), 0);
    assert_eq!(v.dynamic_nodes.len(), 0);
    assert_eq!(v.dynamic_attrs.len(), 0);
    // Any index answers "no dynamic node" without an indexing error.
    assert!(v.dynamic_root(0).is_none());
    assert!(v.dynamic_root(17).is_none());
    assert!(v.dynamic_root(usize::MAX).is_none());
}

#[test]
fn changed_text_slot_is_detected_at_its_path() {
    let old = render_text("lo");
    let new = render_text("hi");

    // Same template identity: compare slot for slot.
    assert_eq!(old.template.id, new.template.id);
    let mut changed: Vec<usize> = Vec::new();
    for i in 0..new.dynamic_nodes.len() {
        match (&old.dynamic_nodes[i], &new.dynamic_nodes[i]) {
            (DynamicNode::Text(a), DynamicNode::Text(b)) => {
                if a.value != b.value {
                    changed.push(i);
                }
            }
            _ => panic!("both renders fill the slot with text"),
        }
    }
    assert_eq!(changed, vec![0]);
    // The one changed slot sits at path [0, 0].
    assert_eq!(new.template.node_paths[0], vec![0, 0]);
    match new.template.resolve(&new.template.node_paths[0]) {
        Some(TemplateNode::DynamicText(0)) => {}
        other => panic!("expected the recorded placeholder, got {:?}", other),
    }
}

#[test]
fn int_change_patches_text_change_replaces() {
    let old_value = AttributeValue::Int(1);
    let patched = AttributeValue::Int(2);
    let replaced = AttributeValue::Text("x".to_string());

    // Same shape, different value: patch in place.
    assert_ne!(old_value, patched);
    assert!(old_value.matches_type(&patched));

    // Different shape: replace the node.
    assert!(!old_value.matches_type(&replaced));
}

#[test]
fn empty_fragment_keeps_its_placeholder_identity() {
    let template = Template {
        id: "app.rs:21:9".to_string(),
        roots: vec![TemplateNode::Dynamic(0)],
        node_paths: vec![vec![0]],
        attr_paths: vec![],
    };
    assert!(template.is_well_formed());

    // First render: the fragment rendered nothing; at mount the reconciler
    // records the placeholder's host identity.
    let first = DynamicNode::Fragment(VFragment::Empty(IdCell::mounted(ElementId(42))));

    // Second render: again nothing; same variant shape, so this is no
    // structural change, and the identity carries over.
    let carried = match &first {
        DynamicNode::Fragment(VFragment::Empty(cell)) => cell.get(),
        _ => panic!("first render holds an empty fragment"),
    };
    let second = DynamicNode::Fragment(VFragment::Empty(IdCell {
        id: carried,
    }));

    match (&first, &second) {
        (
            DynamicNode::Fragment(VFragment::Empty(a)),
            DynamicNode::Fragment(VFragment::Empty(b)),
        ) => {
            assert_eq!(a.get(), Some(ElementId(42)));
            assert_eq!(b.get(), Some(ElementId(42)));
        }
        _ => panic!("both renders hold an empty fragment"),
    }
}

#[test]
fn dynamic_root_resolves_placeholder_slots() {
    let template = Template {
        id: "app.rs:30:1".to_string(),
        roots: vec![
            TemplateNode::Text("static".to_string()),
            TemplateNode::Dynamic(0),
            TemplateNode::DynamicText(1),
        ],
        node_paths: vec![vec![1], vec![2]],
        attr_paths: vec![],
    };
    assert!(template.is_well_formed());
    let v = VNode::new(
        None,
        None,
        template,
        vec![
            DynamicNode::Fragment(VFragment::Empty(IdCell::unset())),
            text_node("tail"),
        ],
        vec![],
    )
    .expect("counts match");

    assert!(v.dynamic_root(0).is_none());
    match v.dynamic_root(1) {
        Some(DynamicNode::Fragment(VFragment::Empty(_))) => {}
        other => panic!("expected the fragment slot, got {:?}", other),
    }
    match v.dynamic_root(2) {
        Some(DynamicNode::Text(t)) => assert_eq!(t.value, "tail"),
        other => panic!("expected the text slot, got {:?}", other),
    }
}

#[test]
fn cloned_template_is_shared_across_renders() {
    let template = text_slot_template();
    let copy = template.clone();
    assert_eq!(copy, template);
    assert!(copy.is_well_formed());
    let a = VNode::new(None, None, template, vec![text_node("lo")], vec![]).expect("counts match");
    let b = VNode::new(None, None, copy, vec![text_node("hi")], vec![]).expect("counts match");
    assert_eq!(a.template.id, b.template.id);
    assert_eq!(a.template.node_paths, b.template.node_paths);
}

#[test]
fn count_mismatch_fails_fast_with_diagnostic() {
    let template = text_slot_template();
    let err = VNode::new(None, None, template, vec![], vec![]).expect_err("one slot is missing");
    assert_eq!(err.template_id, "app.rs:7:3");
    assert_eq!(err.expected_nodes, 1);
    assert_eq!(err.actual_nodes, 0);
    assert_eq!(err.expected_attrs, 0);
    assert_eq!(err.actual_attrs, 0);
}

#[test]
fn attr_count_mismatch_fails_fast() {
    let template = Template {
        id: "app.rs:40:2".to_string(),
        roots: vec![TemplateNode::Element {
            tag: "input".to_string(),
            namespace: None,
            attrs: vec![TemplateAttribute::Dynamic(0)],
            children: vec![],
            inner_opt: false,
        }],
        node_paths: vec![],
        attr_paths: vec![vec![0]],
    };
    assert!(template.is_well_formed());
    let extra = |n: &str| Attribute {
        name: n.to_string(),
        value: AttributeValue::Bool(true),
        namespace: None,
        mounted_element: IdCell::unset(),
        volatile: false,
    };
    let err = VNode::new(None, None, template, vec![], vec![extra("a"), extra("b")])
        .expect_err("one attribute too many");
    assert_eq!(err.expected_attrs, 1);
    assert_eq!(err.actual_attrs, 2);
    assert_eq!(err.expected_nodes, 0);
    assert_eq!(err.actual_nodes, 0);
}

#[test]
fn root_ids_start_unset_and_record_mounts() {
    let template = Template {
        id: "app.rs:55:5".to_string(),
        roots: vec![
            TemplateNode::Text("a".to_string()),
            TemplateNode::Text("b".to_string()),
        ],
        node_paths: vec![],
        attr_paths: vec![],
    };
    assert!(template.is_well_formed());
    let mut v = VNode::new(None, None, template, vec![], vec![]).expect("counts match");
    assert_eq!(v.root_ids.len(), 2);
    assert_eq!(v.root_ids[0].get(), None);
    assert_eq!(v.root_ids[1].get(), None);
    v.set_root_id(0, ElementId(7));
    assert_eq!(v.root_ids[0].get(), Some(ElementId(7)));
    assert_eq!(v.root_ids[1].get(), None);
    assert!(v.root_ids[0].is_set());
}

#[test]
fn is_component_distinguishes_slot_kinds() {
    let component = DynamicNode::Component(VComponent {
        name: "Header".to_string(),
        static_props: true,
        scope: None,
        props: None,
        render_fn: 1,
    });
    assert!(component.is_component());
    assert!(!text_node("x").is_component());
    assert!(!DynamicNode::Fragment(VFragment::Empty(IdCell::unset())).is_component());
}

#[test]
fn what_are_the_sizes() {
    println!("{}", std::mem::size_of::<VNode>());
    println!("{}", std::mem::size_of::<Template>());
    println!("{}", std::mem::size_of::<TemplateNode>());
}
