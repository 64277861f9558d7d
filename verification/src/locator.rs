//! Binding locators: compact references to a binding, produced at compile
//! time and possibly rewritten at run time.

use vstd::prelude::*;

verus! {

/// The place a binding locator points at.
#[derive(Clone, Copy, Debug, PartialEq, Eq, Structural)]
pub enum BindingLocatorEnvironment {
    /// A property of the global object.
    GlobalObject,
    /// A slot of the global declarative record.
    GlobalDeclarative,
    /// A slot or property of the environment at this stack index.
    Stack(u32),
}

/// The encoding of a locator's target in one `u32`: `0` is the global object,
/// `1` the global declarative record, and `n >= 2` the stack index `n - 2`.
pub open spec fn decode_environment(n: u32) -> BindingLocatorEnvironment {
    if n == 0 {
        BindingLocatorEnvironment::GlobalObject
    } else if n == 1 {
        BindingLocatorEnvironment::GlobalDeclarative
    } else {
        BindingLocatorEnvironment::Stack((n - 2) as u32)
    }
}

/// The number a target is encoded as.
pub open spec fn encode_environment(e: BindingLocatorEnvironment) -> int {
    match e {
        BindingLocatorEnvironment::GlobalObject => 0,
        BindingLocatorEnvironment::GlobalDeclarative => 1,
        BindingLocatorEnvironment::Stack(i) => i as int + 2,
    }
}

/// Everything the interpreter needs to resolve one binding at runtime: the
/// name, the encoded target environment, and the slot index within it.
pub struct BindingLocator {
    pub name: String,
    pub environment: u32,
    pub binding_index: u32,
}

impl BindingLocator {
    /// The decoded target of this locator.
    pub open spec fn located(self) -> BindingLocatorEnvironment {
        decode_environment(self.environment)
    }

    /// A locator for a binding whose stack environment and slot the compiler
    /// already knows.
    pub fn declarative(name: String, environment_index: u32, binding_index: u32) -> (r: Self)
        requires
            environment_index + 2 <= u32::MAX,
        ensures
            r.name == name,
            r.located() == BindingLocatorEnvironment::Stack(environment_index),
            r.binding_index == binding_index,
    {
        BindingLocator { name, environment: environment_index + 2, binding_index }
    }

    /// A locator for a binding that lives on the global object.
    pub fn global(name: String) -> (r: Self)
        ensures
            r.name == name,
            r.located() == BindingLocatorEnvironment::GlobalObject,
            r.binding_index == 0,
    {
        BindingLocator { name, environment: 0, binding_index: 0 }
    }

    /// The name of the binding.
    pub fn name(&self) -> (r: &String)
        ensures
            *r == self.name,
    {
        &self.name
    }

    /// Whether the binding lives on the global object.
    pub fn is_global(&self) -> (r: bool)
        ensures
            r == (self.located() == BindingLocatorEnvironment::GlobalObject),
    {
        self.environment == 0
    }

    /// The decoded target of the binding.
    pub fn environment(&self) -> (r: BindingLocatorEnvironment)
        ensures
            r == self.located(),
    {
        if self.environment == 0 {
            BindingLocatorEnvironment::GlobalObject
        } else if self.environment == 1 {
            BindingLocatorEnvironment::GlobalDeclarative
        } else {
            BindingLocatorEnvironment::Stack(self.environment - 2)
        }
    }

    /// Repoints the locator, keeping name and slot index.
    pub fn set_environment(&mut self, environment: BindingLocatorEnvironment)
        requires
            encode_environment(environment) <= u32::MAX,
        ensures
            final(self).located() == environment,
            final(self).name == old(self).name,
            final(self).binding_index == old(self).binding_index,
    {
        self.environment = match environment {
            BindingLocatorEnvironment::GlobalObject => 0,
            BindingLocatorEnvironment::GlobalDeclarative => 1,
            BindingLocatorEnvironment::Stack(index) => index + 2,
        };
    }

    /// The slot index of the binding within its target environment.
    pub fn binding_index(&self) -> (r: u32)
        ensures
            r == self.binding_index,
    {
        self.binding_index
    }
}

} // verus!
