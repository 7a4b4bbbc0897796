//! Dynamic attribute values: a closed tagged union for the common primitive
//! cases, plus type-erased values and type-erased event callbacks.
//!
//! Equality is variant-aware: same-variant primitives compare by value, any
//! two listeners are equal to each other (only presence matters for diffing),
//! and erased values compare by type identity first, then by instance — a
//! type mismatch is defined as "not equal", never an error. A separate
//! variant-shape check, [`AttributeValue::matches_type`], tells a reconciler
//! whether an in-place value update is legal or a full replacement is needed.

use vstd::prelude::*;

verus! {

/// A type-erased value supporting equality and type identity but nothing
/// else. `type_key` is a stable identifier for the concrete type the value
/// was erased from, issued at registration time by the embedder; `payload` is
/// that type's encoding of the instance. The type key is authoritative:
/// payloads are only compared between values of the same key.
#[derive(PartialEq, Eq, Debug)]
pub struct ErasedValue {
    /// Identity of the concrete type the value was erased from.
    pub type_key: u64,
    /// The erased instance, encoded by its own type.
    pub payload: Vec<u8>,
}

/// Capability interface for storing an arbitrary application value behind the
/// `Any` case: runtime type identification plus equality against an erased
/// value. Equality first compares type identity; only same-type instances
/// proceed to instance comparison, and mismatched or foreign types are always
/// unequal, never an error.
pub trait AnyValue {
    /// The type key this value is identified by.
    spec fn type_key_spec(&self) -> u64;

    /// The encoding this value erases to.
    spec fn payload_spec(&self) -> Seq<u8>;

    /// Runtime type identity.
    fn our_typeid(&self) -> (k: u64)
        ensures
            k == self.type_key_spec(),
    ;

    /// Equality against an erased value: the type-identity gate first, then
    /// instance comparison.
    fn any_cmp(&self, other: &ErasedValue) -> (r: bool)
        ensures
            r == (self.type_key_spec() == other.type_key && self.payload_spec()
                == other.payload@),
    ;
}

/// Whether two byte vectors hold the same bytes.
fn bytes_eq(a: &Vec<u8>, b: &Vec<u8>) -> (r: bool)
    ensures
        r == (a@ == b@),
{
    if a.len() != b.len() {
        return false;
    }
    let mut k: usize = 0;
    while k < a.len()
        invariant
            k <= a@.len(),
            a@.len() == b@.len(),
            forall|i: int| 0 <= i < k ==> a@[i] == b@[i],
        decreases a@.len() - k,
    {
        if a[k] != b[k] {
            return false;
        }
        k += 1;
    }
    proof {
        assert(a@ =~= b@);
    }
    true
}

impl AnyValue for ErasedValue {
    open spec fn type_key_spec(&self) -> u64 {
        self.type_key
    }

    open spec fn payload_spec(&self) -> Seq<u8> {
        self.payload@
    }

    fn our_typeid(&self) -> (k: u64) {
        self.type_key
    }

    fn any_cmp(&self, other: &ErasedValue) -> (r: bool) {
        if self.type_key != other.type_key {
            return false;
        }
        bytes_eq(&self.payload, &other.payload)
    }
}

/// The erased form of an event callback: the identity of the concrete payload
/// type the callback was captured for, and an opaque handle under which the
/// embedder registered the captured closure.
#[derive(PartialEq, Eq, Structural, Clone, Copy, Debug)]
pub struct ListenerCallback {
    /// Type key of the concrete event payload the callback expects.
    pub event_type: u64,
    /// Opaque identity of the captured closure.
    pub handle: u64,
}

/// A type-erased event on its way to a listener.
#[derive(PartialEq, Eq, Debug)]
pub struct UiEvent {
    /// Whether the event propagates up the tree after this listener.
    pub bubbles: bool,
    /// The erased event payload.
    pub data: ErasedValue,
}

impl ListenerCallback {
    /// The dispatch gate: the event is handed on to the captured callback
    /// only if its payload is of the concrete type the callback expects; on a
    /// mismatch the event is silently dropped — no invocation, no fault.
    pub fn deliver(&self, event: UiEvent) -> (r: Option<UiEvent>)
        ensures
            self.event_type == event.data.type_key ==> r == Some(event),
            self.event_type != event.data.type_key ==> r is None,
    {
        if self.event_type == event.data.type_key {
            Some(event)
        } else {
            None
        }
    }
}

/// Whether a single-precision bit pattern encodes a NaN.
pub open spec fn f32_bits_is_nan(bits: u32) -> bool {
    (bits >> 23) & 0xff == 0xff && bits & 0x7fffff != 0
}

/// Whether a single-precision bit pattern encodes positive or negative zero.
pub open spec fn f32_bits_is_zero(bits: u32) -> bool {
    bits & 0x7fffffff == 0
}

/// Equality of two single-precision values given by their bit patterns, as
/// the floating-point `==` defines it: a NaN equals nothing, the two zeroes
/// equal each other, and every other value equals exactly its own
/// representation.
pub open spec fn f32_bits_eq(a: u32, b: u32) -> bool {
    if f32_bits_is_nan(a) || f32_bits_is_nan(b) {
        false
    } else if f32_bits_is_zero(a) && f32_bits_is_zero(b) {
        true
    } else {
        a == b
    }
}

/// Compare two single-precision bit patterns as their floating-point values.
fn f32_bits_equal(a: u32, b: u32) -> (r: bool)
    ensures
        r == f32_bits_eq(a, b),
{
    let a_nan = (a >> 23) & 0xff == 0xff && a & 0x7fffff != 0;
    let b_nan = (b >> 23) & 0xff == 0xff && b & 0x7fffff != 0;
    if a_nan || b_nan {
        false
    } else if a & 0x7fffffff == 0 && b & 0x7fffffff == 0 {
        true
    } else {
        a == b
    }
}

/// A single dynamic attribute value. `Absent` is explicit absence, distinct
/// from an attribute that was never set.
#[derive(Debug)]
pub enum AttributeValue {
    /// Text value.
    Text(String),
    /// Floating-point value, held as its IEEE 754 single-precision bit
    /// pattern so that its equality can be stated exactly.
    Float(u32),
    /// Integer value.
    Int(i32),
    /// Boolean value.
    Bool(bool),
    /// A mutable, optionally-absent type-erased event callback.
    Listener(Option<ListenerCallback>),
    /// An opaque value supporting equality and type identity but nothing
    /// else.
    Any(ErasedValue),
    /// Explicit absence.
    Absent,
}

/// Whether two values have the same variant shape, whatever they contain.
pub open spec fn same_variant(a: AttributeValue, b: AttributeValue) -> bool {
    match (a, b) {
        (AttributeValue::Text(_), AttributeValue::Text(_)) => true,
        (AttributeValue::Float(_), AttributeValue::Float(_)) => true,
        (AttributeValue::Int(_), AttributeValue::Int(_)) => true,
        (AttributeValue::Bool(_), AttributeValue::Bool(_)) => true,
        (AttributeValue::Listener(_), AttributeValue::Listener(_)) => true,
        (AttributeValue::Any(_), AttributeValue::Any(_)) => true,
        (AttributeValue::Absent, AttributeValue::Absent) => true,
        _ => false,
    }
}

/// Variant-aware equality of two attribute values: same-variant primitives
/// compare by value, two listeners are always equal (callback identity is
/// irrelevant for diffing — only presence matters), erased values compare by
/// type identity then payload, and values of different variants are unequal.
pub open spec fn value_eq(a: AttributeValue, b: AttributeValue) -> bool {
    match (a, b) {
        (AttributeValue::Text(x), AttributeValue::Text(y)) => x@ == y@,
        (AttributeValue::Float(x), AttributeValue::Float(y)) => f32_bits_eq(x, y),
        (AttributeValue::Int(x), AttributeValue::Int(y)) => x == y,
        (AttributeValue::Bool(x), AttributeValue::Bool(y)) => x == y,
        (AttributeValue::Listener(_), AttributeValue::Listener(_)) => true,
        (AttributeValue::Any(x), AttributeValue::Any(y)) => x.type_key == y.type_key && x.payload@
            == y.payload@,
        (AttributeValue::Absent, AttributeValue::Absent) => true,
        _ => false,
    }
}

impl PartialEq for AttributeValue {
    fn eq(&self, other: &Self) -> (r: bool) {
        match (self, other) {
            (AttributeValue::Text(x), AttributeValue::Text(y)) => *x == *y,
            (AttributeValue::Float(x), AttributeValue::Float(y)) => f32_bits_equal(*x, *y),
            (AttributeValue::Int(x), AttributeValue::Int(y)) => *x == *y,
            (AttributeValue::Bool(x), AttributeValue::Bool(y)) => *x == *y,
            (AttributeValue::Listener(_), AttributeValue::Listener(_)) => true,
            (AttributeValue::Any(x), AttributeValue::Any(y)) => x.any_cmp(y),
            (AttributeValue::Absent, AttributeValue::Absent) => true,
            _ => false,
        }
    }
}

impl vstd::std_specs::cmp::PartialEqSpecImpl for AttributeValue {
    open spec fn obeys_eq_spec() -> bool {
        true
    }

    open spec fn eq_spec(&self, other: &Self) -> bool {
        value_eq(*self, *other)
    }
}

impl AttributeValue {
    /// Capture a concretely-typed callback as a type-erased listener value.
    /// `event_type` identifies the concrete event payload type the callback
    /// expects; `handle` is the identity under which the embedder registered
    /// the captured closure.
    pub fn new_listener(event_type: u64, handle: u64) -> (r: AttributeValue)
        ensures
            r == AttributeValue::Listener(Some((ListenerCallback { event_type, handle }))),
    {
        AttributeValue::Listener(Some(ListenerCallback { event_type, handle }))
    }

    /// Variant-shape compatibility: true exactly when both values are the
    /// same variant, whatever they contain. A reconciler uses this to decide
    /// whether an in-place value update is legal or the node must be
    /// replaced.
    pub fn matches_type(&self, other: &AttributeValue) -> (r: bool)
        ensures
            r == same_variant(*self, *other),
    {
        match (self, other) {
            (AttributeValue::Text(_), AttributeValue::Text(_)) => true,
            (AttributeValue::Float(_), AttributeValue::Float(_)) => true,
            (AttributeValue::Int(_), AttributeValue::Int(_)) => true,
            (AttributeValue::Bool(_), AttributeValue::Bool(_)) => true,
            (AttributeValue::Listener(_), AttributeValue::Listener(_)) => true,
            (AttributeValue::Any(_), AttributeValue::Any(_)) => true,
            (AttributeValue::Absent, AttributeValue::Absent) => true,
            _ => false,
        }
    }
}

/// Law: for values of the same primitive variant, equality holds exactly when
/// the underlying primitives are equal; values of different variant shapes
/// are never equal.
pub proof fn lemma_primitive_value_eq(a: AttributeValue, b: AttributeValue)
    ensures
        a matches AttributeValue::Text(x) ==> (b matches AttributeValue::Text(y) ==> (value_eq(
            a,
            b,
        ) == (x@ == y@))),
        a matches AttributeValue::Float(x) ==> (b matches AttributeValue::Float(y) ==> (value_eq(
            a,
            b,
        ) == f32_bits_eq(x, y))),
        a matches AttributeValue::Int(x) ==> (b matches AttributeValue::Int(y) ==> (value_eq(a, b)
            == (x == y))),
        a matches AttributeValue::Bool(x) ==> (b matches AttributeValue::Bool(y) ==> (value_eq(
            a,
            b,
        ) == (x == y))),
        !same_variant(a, b) ==> !value_eq(a, b),
{
}

/// Law: two listener values are always equal, whatever callbacks they carry.
pub proof fn lemma_listener_eq(x: Option<ListenerCallback>, y: Option<ListenerCallback>)
    ensures
        value_eq(AttributeValue::Listener(x), AttributeValue::Listener(y)),
{
}

/// Law: erased values of different concrete types are never equal, even
/// though their variant shapes match.
pub proof fn lemma_any_type_mismatch(x: ErasedValue, y: ErasedValue)
    requires
        x.type_key != y.type_key,
    ensures
        !value_eq(AttributeValue::Any(x), AttributeValue::Any(y)),
        same_variant(AttributeValue::Any(x), AttributeValue::Any(y)),
{
}

} // verus!
