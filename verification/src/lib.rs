//! Node representation for a virtual UI tree.
//!
//! A rendered tree is described in two parts: an immutable [`template::Template`]
//! holding the static element/text skeleton together with path indices that
//! locate its dynamic holes, and a per-render [`nodes::VNode`] binding that
//! template to fresh dynamic values and to the host identities recorded at
//! mount time. The split lets a reconciler skip static subtrees entirely and
//! compare only the dynamic slots.

pub mod arena;
pub mod template;
pub mod values;
pub mod nodes;
