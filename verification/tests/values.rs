use vdom_nodes::values::{AnyValue, AttributeValue, ErasedValue, ListenerCallback, UiEvent};

fn erased(type_key: u64, payload: Vec<u8>) -> ErasedValue {
    ErasedValue { type_key, payload }
}

#[test]
fn primitive_equality_same_variant() {
    assert_eq!(AttributeValue::Int(1), AttributeValue::Int(1));
    assert_ne!(AttributeValue::Int(1), AttributeValue::Int(2));
    assert_eq!(AttributeValue::Bool(true), AttributeValue::Bool(true));
    assert_ne!(AttributeValue::Bool(true), AttributeValue::Bool(false));
    assert_eq!(
        AttributeValue::Text("on".to_string()),
        AttributeValue::Text("on".to_string())
    );
    assert_ne!(
        AttributeValue::Text("on".to_string()),
        AttributeValue::Text("off".to_string())
    );
    assert_eq!(AttributeValue::Absent, AttributeValue::Absent);
}

#[test]
fn float_equality_is_value_equality() {
    let x = 1.5f32;
    let y = 2.5f32;
    assert_eq!(
        AttributeValue::Float(x.to_bits()),
        AttributeValue::Float(x.to_bits())
    );
    assert_ne!(
        AttributeValue::Float(x.to_bits()),
        AttributeValue::Float(y.to_bits())
    );
    // The two zeroes are equal although their bit patterns differ.
    assert_eq!(
        AttributeValue::Float(0.0f32.to_bits()),
        AttributeValue::Float((-0.0f32).to_bits())
    );
    // A NaN equals nothing, itself included.
    let nan = f32::NAN.to_bits();
    assert_ne!(AttributeValue::Float(nan), AttributeValue::Float(nan));
}

#[test]
fn different_variants_are_never_equal() {
    assert_ne!(AttributeValue::Int(1), AttributeValue::Bool(true));
    assert_ne!(
        AttributeValue::Int(1),
        AttributeValue::Float(1.0f32.to_bits())
    );
    assert_ne!(
        AttributeValue::Text("1".to_string()),
        AttributeValue::Int(1)
    );
    assert_ne!(AttributeValue::Absent, AttributeValue::Int(0));
}

#[test]
fn listeners_always_equal() {
    let a = AttributeValue::new_listener(1, 10);
    let b = AttributeValue::new_listener(2, 20);
    assert_eq!(a, b);
    assert_eq!(a, AttributeValue::Listener(None));
    assert_eq!(AttributeValue::Listener(None), AttributeValue::Listener(None));
}

#[test]
fn any_same_type_compares_payloads() {
    let a = AttributeValue::Any(erased(5, vec![1, 2, 3]));
    let b = AttributeValue::Any(erased(5, vec![1, 2, 3]));
    let c = AttributeValue::Any(erased(5, vec![9]));
    assert_eq!(a, b);
    assert_ne!(a, c);
}

#[test]
fn any_type_mismatch_is_unequal_but_matches_type() {
    // Same payload bytes, different concrete types: never equal, though the
    // variant shapes match.
    let a = AttributeValue::Any(erased(5, vec![1, 2, 3]));
    let b = AttributeValue::Any(erased(6, vec![1, 2, 3]));
    assert_ne!(a, b);
    assert!(a.matches_type(&b));
}

#[test]
fn matches_type_is_variant_shape_only() {
    let int1 = AttributeValue::Int(1);
    let int2 = AttributeValue::Int(100);
    let text = AttributeValue::Text("x".to_string());
    let float = AttributeValue::Float(1.0f32.to_bits());
    let boolean = AttributeValue::Bool(false);
    let listener = AttributeValue::new_listener(0, 0);
    let any = AttributeValue::Any(erased(1, vec![]));
    let absent = AttributeValue::Absent;

    assert!(int1.matches_type(&int2));
    assert!(text.matches_type(&AttributeValue::Text("y".to_string())));
    assert!(float.matches_type(&AttributeValue::Float(f32::NAN.to_bits())));
    assert!(boolean.matches_type(&AttributeValue::Bool(true)));
    assert!(listener.matches_type(&AttributeValue::Listener(None)));
    assert!(any.matches_type(&AttributeValue::Any(erased(2, vec![7]))));
    assert!(absent.matches_type(&AttributeValue::Absent));

    assert!(!int1.matches_type(&text));
    assert!(!int1.matches_type(&float));
    assert!(!listener.matches_type(&any));
    assert!(!absent.matches_type(&int1));
}

#[test]
fn mismatched_event_is_silently_dropped() {
    let listener = ListenerCallback { event_type: 7, handle: 3 };
    let event = UiEvent {
        bubbles: true,
        data: ErasedValue { type_key: 8, payload: vec![1, 2] },
    };
    // Wrong payload type: no invocation comes back, and no fault surfaces.
    assert_eq!(listener.deliver(event), None);
}

#[test]
fn matched_event_is_delivered_intact() {
    let listener = ListenerCallback { event_type: 7, handle: 3 };
    let event = UiEvent {
        bubbles: false,
        data: ErasedValue { type_key: 7, payload: vec![1, 2] },
    };
    let delivered = listener.deliver(event).expect("same payload type");
    assert!(!delivered.bubbles);
    assert_eq!(delivered.data.type_key, 7);
    assert_eq!(delivered.data.payload, vec![1, 2]);
}

#[test]
fn erased_value_typeid_and_cmp() {
    let a = erased(9, vec![4, 5]);
    assert_eq!(a.our_typeid(), 9);
    assert!(a.any_cmp(&erased(9, vec![4, 5])));
    assert!(!a.any_cmp(&erased(9, vec![4])));
    assert!(!a.any_cmp(&erased(10, vec![4, 5])));
}
