use vdom_nodes::template::{Template, TemplateAttribute, TemplateNode};

fn static_attr(name: &str, value: &str) -> TemplateAttribute {
    TemplateAttribute::Static {
        name: name.to_string(),
        value: value.to_string(),
        namespace: None,
        volatile: false,
    }
}

/// One root element with a static attribute, a dynamic attribute, a static
/// text child, a dynamic-text child and a dynamic child.
fn sample_template() -> Template {
    Template {
        id: "app.rs:1:1".to_string(),
        roots: vec![TemplateNode::Element {
            tag: "div".to_string(),
            namespace: None,
            attrs: vec![static_attr("class", "greeting"), TemplateAttribute::Dynamic(0)],
            children: vec![
                TemplateNode::Text("hello".to_string()),
                TemplateNode::DynamicText(0),
                TemplateNode::Dynamic(1),
            ],
            inner_opt: false,
        }],
        node_paths: vec![vec![0, 1], vec![0, 2]],
        attr_paths: vec![vec![0]],
    }
}

#[test]
fn sample_template_is_well_formed() {
    let t = sample_template();
    assert!(t.is_well_formed());
    assert_eq!(t.count_dynamic_nodes(), 2);
    assert_eq!(t.count_dynamic_attrs(), 1);
}

#[test]
fn empty_template_is_well_formed() {
    let t = Template {
        id: "empty".to_string(),
        roots: vec![],
        node_paths: vec![],
        attr_paths: vec![],
    };
    assert!(t.is_well_formed());
    assert_eq!(t.count_dynamic_nodes(), 0);
    assert_eq!(t.count_dynamic_attrs(), 0);
}

#[test]
fn missing_node_path_is_rejected() {
    let mut t = sample_template();
    t.node_paths.pop();
    assert!(!t.is_well_formed());
}

#[test]
fn wrong_placeholder_order_is_rejected() {
    // The two dynamic-node placeholders carry their indices swapped, so the
    // encounter order no longer matches the index space.
    let mut t = sample_template();
    t.roots = vec![TemplateNode::Element {
        tag: "div".to_string(),
        namespace: None,
        attrs: vec![static_attr("class", "greeting"), TemplateAttribute::Dynamic(0)],
        children: vec![
            TemplateNode::Text("hello".to_string()),
            TemplateNode::DynamicText(1),
            TemplateNode::Dynamic(0),
        ],
        inner_opt: false,
    }];
    assert!(!t.is_well_formed());
}

#[test]
fn path_to_wrong_node_is_rejected() {
    // Both paths point at the first dynamic placeholder.
    let mut t = sample_template();
    t.node_paths = vec![vec![0, 1], vec![0, 1]];
    assert!(!t.is_well_formed());
}

#[test]
fn path_out_of_bounds_is_rejected() {
    let mut t = sample_template();
    t.node_paths = vec![vec![0, 1], vec![3, 0]];
    assert!(!t.is_well_formed());
}

#[test]
fn attr_path_must_reach_the_carrying_element() {
    // The attribute path points at a text child instead of the element that
    // carries the dynamic attribute.
    let mut t = sample_template();
    t.attr_paths = vec![vec![0, 0]];
    assert!(!t.is_well_formed());
}

#[test]
fn resolve_follows_child_indices() {
    let t = sample_template();
    match t.resolve(&vec![0, 1]) {
        Some(TemplateNode::DynamicText(0)) => {}
        other => panic!("expected the dynamic-text placeholder, got {:?}", other),
    }
    match t.resolve(&vec![0, 2]) {
        Some(TemplateNode::Dynamic(1)) => {}
        other => panic!("expected the dynamic placeholder, got {:?}", other),
    }
    match t.resolve(&vec![0]) {
        Some(TemplateNode::Element { tag, .. }) => assert_eq!(tag, "div"),
        other => panic!("expected the root element, got {:?}", other),
    }
    assert!(t.resolve(&vec![1]).is_none());
    assert!(t.resolve(&vec![0, 7]).is_none());
    assert!(t.resolve(&vec![]).is_none());
}

#[test]
fn deep_nesting_keeps_encounter_order() {
    // Placeholders at different depths: encounter order is depth first.
    let t = Template {
        id: "nested".to_string(),
        roots: vec![
            TemplateNode::Element {
                tag: "ul".to_string(),
                namespace: None,
                attrs: vec![],
                children: vec![TemplateNode::Element {
                    tag: "li".to_string(),
                    namespace: None,
                    attrs: vec![TemplateAttribute::Dynamic(0)],
                    children: vec![TemplateNode::Dynamic(0)],
                    inner_opt: false,
                }],
                inner_opt: false,
            },
            TemplateNode::DynamicText(1),
        ],
        node_paths: vec![vec![0, 0, 0], vec![1]],
        attr_paths: vec![vec![0, 0]],
    };
    assert!(t.is_well_formed());
    assert_eq!(t.count_dynamic_nodes(), 2);
    assert_eq!(t.count_dynamic_attrs(), 1);
}
