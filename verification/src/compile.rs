//! Compile-time environment descriptors, consumed read-only.
//!
//! The bytecode compiler shapes every scope before execution: how many slots
//! its record has, whether it is a function scope, and where each statically
//! known name lives. Runtime re-resolution consults these descriptors when a
//! scope has been poisoned.

use vstd::prelude::*;

use crate::locator::{decode_environment, BindingLocatorEnvironment};

verus! {

/// One statically known binding: a name and the encoded place it lives at,
/// in the same encoding that binding locators use.
pub struct CompileBinding {
    pub name: String,
    pub environment: u32,
    pub binding_index: u32,
}

impl CompileBinding {
    /// The decoded place the binding lives at.
    pub open spec fn located(self) -> BindingLocatorEnvironment {
        decode_environment(self.environment)
    }

    /// A binding of `name` at slot `binding_index` of `environment`.
    pub fn new(name: String, environment: BindingLocatorEnvironment, binding_index: u32) -> (r:
        Self)
        requires
            crate::locator::encode_environment(environment) <= u32::MAX,
        ensures
            r.name == name,
            r.located() == environment,
            r.binding_index == binding_index,
    {
        let encoded: u32 = match environment {
            BindingLocatorEnvironment::GlobalObject => 0,
            BindingLocatorEnvironment::GlobalDeclarative => 1,
            BindingLocatorEnvironment::Stack(index) => index + 2,
        };
        CompileBinding { name, environment: encoded, binding_index }
    }

    /// The decoded place the binding lives at.
    pub fn environment(&self) -> (r: BindingLocatorEnvironment)
        ensures
            r == self.located(),
    {
        if self.environment == 0 {
            BindingLocatorEnvironment::GlobalObject
        } else if self.environment == 1 {
            BindingLocatorEnvironment::GlobalDeclarative
        } else {
            BindingLocatorEnvironment::Stack(self.environment - 2)
        }
    }

    /// The slot index of the binding.
    pub fn binding_index(&self) -> (r: u32)
        ensures
            r == self.binding_index,
    {
        self.binding_index
    }
}

/// The first entry of `name` in a compile-time binding table, if any.
pub open spec fn table_find(table: Seq<CompileBinding>, name: Seq<char>) -> Option<CompileBinding>
    decreases table.len(),
{
    if table.len() == 0 {
        None
    } else if table[0].name@ == name {
        Some(table[0])
    } else {
        table_find(table.drop_first(), name)
    }
}

/// When no entry matches, the lookup misses.
pub proof fn lemma_table_find_none(table: Seq<CompileBinding>, name: Seq<char>)
    requires
        forall|i: int| 0 <= i < table.len() ==> table[i].name@ != name,
    ensures
        table_find(table, name) is None,
    decreases table.len(),
{
    if table.len() > 0 {
        assert(forall|i: int| 0 <= i < table.drop_first().len() ==> table.drop_first()[i]
            == table[i + 1]);
        lemma_table_find_none(table.drop_first(), name);
    }
}

/// The first matching entry decides the lookup.
pub proof fn lemma_table_find_at(table: Seq<CompileBinding>, name: Seq<char>, i: int)
    requires
        0 <= i < table.len(),
        table[i].name@ == name,
        forall|j: int| 0 <= j < i ==> table[j].name@ != name,
    ensures
        table_find(table, name) == Some(table[i]),
    decreases i,
{
    if i > 0 {
        assert(forall|j: int| 0 <= j < table.drop_first().len() ==> table.drop_first()[j]
            == table[j + 1]);
        lemma_table_find_at(table.drop_first(), name, i - 1);
    }
}

/// The static descriptor of one scope.
pub struct CompileTimeEnvironment {
    /// How many slots the runtime record of this scope has.
    pub num_bindings: u32,
    /// Whether this scope is a function body scope.
    pub function: bool,
    /// The statically known bindings visible from this scope.
    pub table: Vec<CompileBinding>,
}

impl CompileTimeEnvironment {
    /// A descriptor with `num_bindings` slots and no known names.
    pub fn new(num_bindings: u32, function: bool) -> (r: Self)
        ensures
            r.num_bindings == num_bindings,
            r.function == function,
            r.table@.len() == 0,
    {
        CompileTimeEnvironment { num_bindings, function, table: Vec::new() }
    }

    /// Records one statically known binding.
    pub fn add_binding(&mut self, binding: CompileBinding)
        ensures
            final(self).table@ == old(self).table@.push(binding),
            final(self).num_bindings == old(self).num_bindings,
            final(self).function == old(self).function,
    {
        self.table.push(binding);
    }

    /// How many slots the runtime record of this scope has.
    pub fn num_bindings(&self) -> (r: u32)
        ensures
            r == self.num_bindings,
    {
        self.num_bindings
    }

    /// Whether this scope is a function body scope.
    pub fn is_function(&self) -> (r: bool)
        ensures
            r == self.function,
    {
        self.function
    }

    /// The first statically known binding of `name`, if any.
    pub fn get_binding(&self, name: &String) -> (r: Option<&CompileBinding>)
        ensures
            match r {
                Some(b) => table_find(self.table@, name@) == Some(*b),
                None => table_find(self.table@, name@) is None,
            },
    {
        let mut i: usize = 0;
        while i < self.table.len()
            invariant
                0 <= i <= self.table@.len(),
                forall|j: int| 0 <= j < i ==> self.table@[j].name@ != name@,
            decreases self.table@.len() - i,
        {
            if self.table[i].name == *name {
                proof {
                    lemma_table_find_at(self.table@, name@, i as int);
                }
                return Some(&self.table[i]);
            }
            i += 1;
        }
        proof {
            lemma_table_find_none(self.table@, name@);
        }
        None
    }
}

} // verus!
