//! Declarative environment records: the runtime storage of one scope.

use vstd::prelude::*;

use crate::compile::CompileTimeEnvironment;
use crate::value::{JsError, JsValue};

verus! {

/// How a function record provides `this`.
#[derive(Clone, Copy, Debug, PartialEq, Eq, Structural)]
pub enum ThisBindingStatus {
    /// An arrow function: `this` comes from the enclosing scope.
    Lexical,
    /// `this` is bound and readable.
    Initialized,
    /// A derived constructor before `super()` ran: reading `this` is a
    /// `ReferenceError`.
    Uninitialized,
}

/// The `this`-related state a function scope carries.
#[derive(Clone, Copy, Debug)]
pub struct FunctionSlots {
    /// The `this` value; meaningful only when `this_status` is `Initialized`.
    pub this: JsValue,
    pub this_status: ThisBindingStatus,
    /// The `new.target` of the call, `Undefined` outside construction.
    pub new_target: JsValue,
    /// The home object for `super` resolution, if the function has one.
    pub home_object: Option<JsValue>,
}

/// The kind of a declarative record, with the state only that kind carries.
#[derive(Clone, Copy, Debug)]
pub enum DeclarativeEnvironmentKind {
    /// The distinguished global record; `this` is the global `this` value.
    Global { global_this: JsValue },
    /// A function body scope.
    Function(FunctionSlots),
    /// A block scope.
    Lexical,
    /// A module top-level scope; its `this` is `undefined`.
    Module,
}

impl DeclarativeEnvironmentKind {
    pub open spec fn is_global(self) -> bool {
        self matches DeclarativeEnvironmentKind::Global { .. }
    }

    pub open spec fn is_function(self) -> bool {
        self matches DeclarativeEnvironmentKind::Function(_)
    }

    /// Whether a record of this kind provides a `this` binding: global and
    /// module records always do, function records unless they are arrow
    /// functions, block records never.
    pub open spec fn spec_has_this_binding(self) -> bool {
        match self {
            DeclarativeEnvironmentKind::Global { .. } => true,
            DeclarativeEnvironmentKind::Function(slots) => slots.this_status
                != ThisBindingStatus::Lexical,
            DeclarativeEnvironmentKind::Lexical => false,
            DeclarativeEnvironmentKind::Module => true,
        }
    }

    /// What reading `this` on a record of this kind yields: the global `this`
    /// on the global record, `undefined` on a module record, the bound value
    /// on an initialized function record, a `ReferenceError` on a derived
    /// constructor before `super()`, and nothing on records that carry no
    /// `this` of their own. A module record deliberately yields `undefined`
    /// rather than the global `this`: in ECMAScript module code, `this` is
    /// `undefined`.
    pub open spec fn spec_this_binding(self) -> Result<Option<JsValue>, JsError> {
        match self {
            DeclarativeEnvironmentKind::Global { global_this } => Ok(Some(global_this)),
            DeclarativeEnvironmentKind::Function(slots) => match slots.this_status {
                ThisBindingStatus::Lexical => Ok(None),
                ThisBindingStatus::Initialized => Ok(Some(slots.this)),
                ThisBindingStatus::Uninitialized => Err(JsError::Reference),
            },
            DeclarativeEnvironmentKind::Lexical => Ok(None),
            DeclarativeEnvironmentKind::Module => Ok(Some(JsValue::Undefined)),
        }
    }
}

/// The runtime record of one scope: its kind, the descriptor that shaped it,
/// one optional value per slot (`None` is an uninitialized binding, the
/// temporal dead zone), and the two sticky flags.
pub struct DeclarativeEnvironment {
    pub kind: DeclarativeEnvironmentKind,
    pub compile_env: CompileTimeEnvironment,
    pub bindings: Vec<Option<JsValue>>,
    /// Set once a nested `with` or direct `eval` may have injected bindings
    /// that alias statically known ones; never cleared.
    pub poisoned: bool,
    /// Set when an object environment enclosed this record at creation;
    /// never cleared.
    pub with: bool,
}

impl DeclarativeEnvironment {
    /// A record of `kind` shaped by `compile_env`, with every slot
    /// uninitialized and the sticky flags as given.
    pub fn new(
        kind: DeclarativeEnvironmentKind,
        compile_env: CompileTimeEnvironment,
        poisoned: bool,
        with: bool,
    ) -> (r: Self)
        ensures
            r.kind == kind,
            r.compile_env == compile_env,
            r.bindings@ == Seq::new(compile_env.num_bindings as nat, |i: int| None::<JsValue>),
            r.poisoned == poisoned,
            r.with == with,
    {
        let num = compile_env.num_bindings;
        let mut bindings: Vec<Option<JsValue>> = Vec::new();
        let mut i: u32 = 0;
        while i < num
            invariant
                0 <= i <= num,
                bindings@ == Seq::new(i as nat, |j: int| None::<JsValue>),
            decreases num - i,
        {
            bindings.push(None);
            proof {
                assert(bindings@ =~= Seq::new((i + 1) as nat, |j: int| None::<JsValue>));
            }
            i += 1;
        }
        DeclarativeEnvironment { kind, compile_env, bindings, poisoned, with }
    }

    /// The number of slots of this record.
    pub fn num_slots(&self) -> (r: usize)
        ensures
            r == self.bindings@.len(),
    {
        self.bindings.len()
    }

    /// Reads a slot; `None` is an uninitialized binding (the caller's
    /// temporal-dead-zone error).
    pub fn get(&self, index: u32) -> (r: Option<JsValue>)
        requires
            index < self.bindings@.len(),
        ensures
            r == self.bindings@[index as int],
    {
        self.bindings[index as usize]
    }

    /// Writes a slot, initializing it if it was not.
    pub fn set(&mut self, index: u32, value: JsValue)
        requires
            index < old(self).bindings@.len(),
        ensures
            final(self).bindings@ == old(self).bindings@.update(index as int, Some(value)),
            final(self).kind == old(self).kind,
            final(self).compile_env == old(self).compile_env,
            final(self).poisoned == old(self).poisoned,
            final(self).with == old(self).with,
    {
        let slot = &mut self.bindings[index as usize];
        *slot = Some(value);
        proof {
            assert(self.bindings@ =~= old(self).bindings@.update(index as int, Some(value)));
        }
    }

    /// Whether this record is of Function kind.
    pub fn is_function_kind(&self) -> (r: bool)
        ensures
            r == self.kind.is_function(),
    {
        matches!(self.kind, DeclarativeEnvironmentKind::Function(_))
    }

    /// Whether this record provides a `this` binding.
    pub fn has_this_binding(&self) -> (r: bool)
        ensures
            r == self.kind.spec_has_this_binding(),
    {
        match &self.kind {
            DeclarativeEnvironmentKind::Global { .. } => true,
            DeclarativeEnvironmentKind::Function(slots) => !(matches!(
                slots.this_status,
                ThisBindingStatus::Lexical
            )),
            DeclarativeEnvironmentKind::Lexical => false,
            DeclarativeEnvironmentKind::Module => true,
        }
    }

    /// `GetThisBinding` on one record.
    pub fn get_this_binding(&self) -> (r: Result<Option<JsValue>, JsError>)
        ensures
            r == self.kind.spec_this_binding(),
    {
        match &self.kind {
            DeclarativeEnvironmentKind::Global { global_this } => Ok(Some(*global_this)),
            DeclarativeEnvironmentKind::Function(slots) => match slots.this_status {
                ThisBindingStatus::Lexical => Ok(None),
                ThisBindingStatus::Initialized => Ok(Some(slots.this)),
                ThisBindingStatus::Uninitialized => Err(JsError::Reference),
            },
            DeclarativeEnvironmentKind::Lexical => Ok(None),
            DeclarativeEnvironmentKind::Module => Ok(Some(JsValue::Undefined)),
        }
    }

    /// Marks the record poisoned: statically resolved indices into it must be
    /// re-verified at runtime. Idempotent, never undone.
    pub fn poison(&mut self)
        ensures
            final(self).poisoned == true,
            final(self).kind == old(self).kind,
            final(self).compile_env == old(self).compile_env,
            final(self).bindings == old(self).bindings,
            final(self).with == old(self).with,
    {
        self.poisoned = true;
    }

    /// Whether the record is poisoned.
    pub fn poisoned(&self) -> (r: bool)
        ensures
            r == self.poisoned,
    {
        self.poisoned
    }

    /// Whether an object environment enclosed this record at creation.
    pub fn with(&self) -> (r: bool)
        ensures
            r == self.with,
    {
        self.with
    }

    /// The compile-time descriptor that shaped this record.
    pub fn compile_env(&self) -> (r: &CompileTimeEnvironment)
        ensures
            *r == self.compile_env,
    {
        &self.compile_env
    }
}

} // verus!
