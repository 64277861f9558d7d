//! Values and errors that flow through the environment subsystem.
//!
//! The subsystem stores and moves values without inspecting them, so a small
//! copyable value type is enough to state every contract exactly.

use vstd::prelude::*;

verus! {

/// A runtime value held in a binding slot, in a property, or as a `this`.
#[derive(Clone, Copy, Debug, PartialEq, Eq, Structural)]
pub enum JsValue {
    Undefined,
    Null,
    Boolean(bool),
    Integer(i64),
}

/// An error surfaced by the environment subsystem itself.
///
/// The only error this layer produces on its own is a `ReferenceError`, raised
/// when the `this` of a derived constructor is read before `super()` ran.
#[derive(Clone, Copy, Debug, PartialEq, Eq, Structural)]
pub enum JsError {
    Reference,
}

} // verus!
