//! Locator-driven binding operations, and the dynamic re-resolution walk that
//! repairs locators invalidated by `with` and direct `eval`.

use vstd::prelude::*;

use crate::compile::{table_find, CompileBinding};
use crate::locator::{decode_environment, BindingLocator, BindingLocatorEnvironment};
use crate::object::JsObject;
use crate::stack::{
    lexical_target_ok, nearest_declarative, slot_written, target_slots, Environment,
    EnvironmentStack,
};
use crate::value::JsValue;

verus! {

/// The execution context as the environment subsystem sees it: the stack of
/// environments and the global object.
pub struct Context {
    pub environments: EnvironmentStack,
    pub global_object: JsObject,
}

/// Whether the locator points at the global object or the global declarative
/// record.
pub open spec fn locator_is_global(loc: BindingLocator) -> bool {
    match decode_environment(loc.environment) {
        BindingLocatorEnvironment::GlobalObject => true,
        BindingLocatorEnvironment::GlobalDeclarative => true,
        BindingLocatorEnvironment::Stack(_) => false,
    }
}

/// The lowest stack index the re-resolution walk may descend to: a stack
/// locator shadows nothing below its own environment.
pub open spec fn min_scan_index(loc: BindingLocator) -> int {
    match decode_environment(loc.environment) {
        BindingLocatorEnvironment::GlobalObject => 0,
        BindingLocatorEnvironment::GlobalDeclarative => 0,
        BindingLocatorEnvironment::Stack(i) => i as int,
    }
}

/// The locator repointed at a statically known binding.
pub open spec fn rewritten(loc: BindingLocator, b: CompileBinding) -> BindingLocator {
    BindingLocator { name: loc.name, environment: b.environment, binding_index: b.binding_index }
}

/// The locator repointed at the object environment at stack index `i`.
pub open spec fn rewritten_to_stack(loc: BindingLocator, i: int) -> BindingLocator {
    BindingLocator {
        name: loc.name,
        environment: (i + 2) as u32,
        binding_index: loc.binding_index,
    }
}

/// Whether the re-resolution walk may stop before scanning: the innermost
/// declarative record (skipping object environments; the global record when
/// the stack holds none) carries neither sticky flag, so the locator is
/// already accurate.
pub open spec fn fast_path_applies(s: EnvironmentStack) -> bool {
    !nearest_declarative(s.stack@, s.global).with && !nearest_declarative(s.stack@, s.global).poisoned
}

/// What the top-down walk from index `i` down to `min` decides: `Some` with
/// the settled locator when a record decides, `None` when the walk falls off
/// the bottom of its range.
pub open spec fn scan_locator(
    stack: Seq<Environment>,
    loc: BindingLocator,
    min: int,
    i: int,
) -> Option<BindingLocator>
    decreases i - min + 1,
{
    if i < min {
        None
    } else {
        match stack[i] {
            Environment::Declarative(d) => {
                if d.poisoned {
                    if d.kind.is_function() && table_find(d.compile_env.table@, loc.name@)
                        is Some {
                        Some(rewritten(loc, table_find(d.compile_env.table@, loc.name@)->Some_0))
                    } else {
                        scan_locator(stack, loc, min, i - 1)
                    }
                } else if !d.with {
                    Some(loc)
                } else {
                    scan_locator(stack, loc, min, i - 1)
                }
            },
            Environment::Object(o) => {
                if o.spec_has(loc.name@) && !o.spec_blocked(loc.name@) {
                    Some(rewritten_to_stack(loc, i))
                } else {
                    scan_locator(stack, loc, min, i - 1)
                }
            },
        }
    }
}

/// What a walk that fell off the bottom yields: a global locator is repaired
/// against the global compile-time environment when the global record is
/// poisoned; anything else stays.
pub open spec fn global_fallback(s: EnvironmentStack, loc: BindingLocator) -> BindingLocator {
    if locator_is_global(loc) && s.global.poisoned {
        match table_find(s.global.compile_env.table@, loc.name@) {
            Some(b) => rewritten(loc, b),
            None => loc,
        }
    } else {
        loc
    }
}

/// The locator `find_runtime_binding` leaves behind.
pub open spec fn resolved_locator(c: Context, loc: BindingLocator) -> BindingLocator {
    if fast_path_applies(c.environments) {
        loc
    } else {
        match scan_locator(
            c.environments.stack@,
            loc,
            min_scan_index(loc),
            c.environments.stack@.len() - 1,
        ) {
            Some(l) => l,
            None => global_fallback(c.environments, loc),
        }
    }
}

/// What the parallel walk for a `with`-call `this` yields: the object of the
/// object environment that captures the name, `None` when a declarative
/// record settles the name first or nothing captures it.
pub open spec fn scan_this_object(
    stack: Seq<Environment>,
    name: Seq<char>,
    min: int,
    i: int,
) -> Option<JsObject>
    decreases i - min + 1,
{
    if i < min {
        None
    } else {
        match stack[i] {
            Environment::Declarative(d) => {
                if d.poisoned {
                    if d.kind.is_function() && table_find(d.compile_env.table@, name) is Some {
                        None
                    } else {
                        scan_this_object(stack, name, min, i - 1)
                    }
                } else if !d.with {
                    None
                } else {
                    scan_this_object(stack, name, min, i - 1)
                }
            },
            Environment::Object(o) => {
                if o.spec_has(name) && !o.spec_blocked(name) {
                    Some(o)
                } else {
                    scan_this_object(stack, name, min, i - 1)
                }
            },
        }
    }
}

/// The object `this_from_object_environment_binding` returns.
pub open spec fn this_object_result(c: Context, loc: BindingLocator) -> Option<JsObject> {
    if !nearest_declarative(c.environments.stack@, c.environments.global).with {
        None
    } else {
        scan_this_object(
            c.environments.stack@,
            loc.name@,
            min_scan_index(loc),
            c.environments.stack@.len() - 1,
        )
    }
}

/// Whether every index the locator carries is in range for this context; the
/// locator-driven operations may only be called on such locators.
pub open spec fn locator_in_bounds(c: Context, loc: BindingLocator) -> bool {
    match decode_environment(loc.environment) {
        BindingLocatorEnvironment::GlobalObject => true,
        BindingLocatorEnvironment::GlobalDeclarative => loc.binding_index
            < c.environments.global.bindings@.len(),
        BindingLocatorEnvironment::Stack(i) => i < c.environments.stack@.len() && (
        c.environments.stack@[i as int] matches Environment::Declarative(d) ==> loc.binding_index
            < d.bindings@.len()),
    }
}

/// The value a read through the locator yields: a property of the global
/// object (`None` when absent), a slot of the global record or a stack record
/// (`None` is an uninitialized binding), or an ordinary property get on an
/// object environment (`Undefined` when absent).
pub open spec fn binding_value(c: Context, loc: BindingLocator) -> Option<JsValue> {
    match decode_environment(loc.environment) {
        BindingLocatorEnvironment::GlobalObject => c.global_object.spec_try_get(loc.name@),
        BindingLocatorEnvironment::GlobalDeclarative => c.environments.global.bindings@[
            loc.binding_index as int
        ],
        BindingLocatorEnvironment::Stack(i) => match c.environments.stack@[i as int] {
            Environment::Declarative(d) => d.bindings@[loc.binding_index as int],
            Environment::Object(o) => Some(o.spec_get(loc.name@)),
        },
    }
}

/// Whether the binding the locator points at is initialized: property
/// existence on object targets, a `Some` slot on declarative targets.
pub open spec fn binding_initialized(c: Context, loc: BindingLocator) -> bool {
    match decode_environment(loc.environment) {
        BindingLocatorEnvironment::GlobalObject => c.global_object.spec_has(loc.name@),
        BindingLocatorEnvironment::GlobalDeclarative => c.environments.global.bindings@[
            loc.binding_index as int
        ] is Some,
        BindingLocatorEnvironment::Stack(i) => match c.environments.stack@[i as int] {
            Environment::Declarative(d) => d.bindings@[loc.binding_index as int] is Some,
            Environment::Object(o) => o.spec_has(loc.name@),
        },
    }
}

/// How a write through the locator relates the context after to the context
/// before, for a written value `value`.
pub open spec fn binding_written(
    c0: Context,
    c1: Context,
    loc: BindingLocator,
    value: JsValue,
) -> bool {
    match decode_environment(loc.environment) {
        BindingLocatorEnvironment::GlobalObject => {
            &&& c1.environments == c0.environments
            &&& c1.global_object.spec_try_get(loc.name@) == Some(value)
            &&& (forall|m: Seq<char>| m != loc.name@ ==> c1.global_object.spec_try_get(m)
                == c0.global_object.spec_try_get(m))
            &&& c1.global_object.unscopables == c0.global_object.unscopables
        },
        BindingLocatorEnvironment::GlobalDeclarative => {
            &&& c1.global_object == c0.global_object
            &&& slot_written(
                c0.environments,
                c1.environments,
                BindingLocatorEnvironment::GlobalDeclarative,
                c0.environments.global.bindings@.update(loc.binding_index as int, Some(value)),
            )
        },
        BindingLocatorEnvironment::Stack(i) => match c0.environments.stack@[i as int] {
            Environment::Declarative(d) => {
                &&& c1.global_object == c0.global_object
                &&& slot_written(
                    c0.environments,
                    c1.environments,
                    BindingLocatorEnvironment::Stack(i),
                    d.bindings@.update(loc.binding_index as int, Some(value)),
                )
            },
            Environment::Object(o) => {
                &&& c1.global_object == c0.global_object
                &&& c1.environments.global == c0.environments.global
                &&& c1.environments.private_stack == c0.environments.private_stack
                &&& c1.environments.stack@.len() == c0.environments.stack@.len()
                &&& (forall|j: int|
                    0 <= j < c0.environments.stack@.len() && j != i
                        ==> c1.environments.stack@[j] == c0.environments.stack@[j])
                &&& (c1.environments.stack@[i as int] matches Environment::Object(o1) && {
                    &&& o1.spec_try_get(loc.name@) == Some(value)
                    &&& (forall|m: Seq<char>| m != loc.name@ ==> o1.spec_try_get(m)
                        == o.spec_try_get(m))
                    &&& o1.unscopables == o.unscopables
                })
            },
        },
    }
}

impl Context {
    /// A context over a fresh stack with the given global record and global
    /// object.
    pub fn new(global: crate::declarative::DeclarativeEnvironment, global_object: JsObject) -> (r:
        Self)
        requires
            global.kind.is_global(),
        ensures
            r.environments.stack@.len() == 0,
            r.environments.global == global,
            r.environments.private_stack@.len() == 0,
            r.global_object == global_object,
            r.environments.well_formed(),
    {
        Context { environments: EnvironmentStack::new(global), global_object }
    }

    /// The environment at a stack index the caller knows to be in range.
    pub fn environment_expect(&self, index: u32) -> (r: &Environment)
        requires
            index < self.environments.stack@.len(),
        ensures
            *r == self.environments.stack@[index as int],
    {
        &self.environments.stack[index as usize]
    }

    /// Repairs a locator whose compile-time indices a `with` environment or
    /// an `eval` call may have invalidated, in place. When the innermost
    /// record is declarative and carries neither sticky flag the locator is
    /// already accurate; otherwise the stack is walked from the top down to
    /// the locator's own environment, and the locator is repointed at the
    /// first object environment that captures the name (honouring
    /// `@@unscopables`) or at the slot a poisoned function scope's
    /// compile-time environment knows for it.
    pub fn find_runtime_binding(&self, locator: &mut BindingLocator)
        requires
            self.environments.stack@.len() + 2 <= u32::MAX,
        ensures
            *final(locator) == resolved_locator(*self, *old(locator)),
    {
        match self.environments.current_declarative_ref() {
            Some(env) => {
                if !env.with() && !env.poisoned() {
                    return ;
                }
            },
            None => {},
        }

        let is_global_target = match locator.environment() {
            BindingLocatorEnvironment::GlobalObject => true,
            BindingLocatorEnvironment::GlobalDeclarative => true,
            BindingLocatorEnvironment::Stack(_) => false,
        };
        let min_index: u32 = match locator.environment() {
            BindingLocatorEnvironment::GlobalObject => 0,
            BindingLocatorEnvironment::GlobalDeclarative => 0,
            BindingLocatorEnvironment::Stack(index) => index,
        };
        let stack_len = self.environments.len();
        proof {
            assert(stack_len <= u32::MAX - 2);
        }
        let max_index: u32 = stack_len as u32;

        let mut i: u32 = max_index;
        while i > min_index
            invariant
                min_index <= i <= max_index || i == max_index,
                max_index == self.environments.stack@.len(),
                self.environments.stack@.len() + 2 <= u32::MAX,
                min_index as int == min_scan_index(*old(locator)),
                is_global_target == locator_is_global(*old(locator)),
                !fast_path_applies(self.environments),
                *locator == *old(locator),
                scan_locator(
                    self.environments.stack@,
                    *old(locator),
                    min_scan_index(*old(locator)),
                    max_index as int - 1,
                ) == scan_locator(
                    self.environments.stack@,
                    *old(locator),
                    min_scan_index(*old(locator)),
                    i as int - 1,
                ),
            decreases i,
        {
            i -= 1;
            match self.environment_expect(i) {
                Environment::Declarative(env) => {
                    if env.poisoned() {
                        if env.is_function_kind() {
                            match env.compile_env().get_binding(locator.name()) {
                                Some(b) => {
                                    locator.environment = b.environment;
                                    locator.binding_index = b.binding_index;
                                    return ;
                                },
                                None => {},
                            }
                        }
                    } else if !env.with() {
                        return ;
                    }
                },
                Environment::Object(o) => {
                    if o.has_property(locator.name()) {
                        if !o.is_unscopable(locator.name()) {
                            locator.environment = i + 2;
                            return ;
                        }
                    }
                },
            }
        }

        if is_global_target {
            let env = self.environments.global();
            if env.poisoned() {
                match env.compile_env().get_binding(locator.name()) {
                    Some(b) => {
                        locator.environment = b.environment;
                        locator.binding_index = b.binding_index;
                    },
                    None => {},
                }
            }
        }
    }

    /// The `this` of a method call resolved inside `with`: the object of the
    /// object environment that captures the locator's name, `None` when the
    /// name resolves declaratively.
    pub fn this_from_object_environment_binding(&self, locator: &BindingLocator) -> (r: Option<
        &JsObject,
    >)
        ensures
            match r {
                Some(o) => this_object_result(*self, *locator) == Some(*o),
                None => this_object_result(*self, *locator) is None,
            },
    {
        match self.environments.current_declarative_ref() {
            Some(env) => {
                if !env.with() {
                    return None;
                }
            },
            None => {},
        }

        let min_u32: u32 = match locator.environment() {
            BindingLocatorEnvironment::GlobalObject => 0,
            BindingLocatorEnvironment::GlobalDeclarative => 0,
            BindingLocatorEnvironment::Stack(index) => index,
        };
        let max_index: usize = self.environments.len();
        let min_index: usize = if (min_u32 as usize) > max_index {
            max_index
        } else {
            min_u32 as usize
        };

        let mut i: usize = max_index;
        while i > min_index
            invariant
                min_index <= i <= max_index,
                max_index == self.environments.stack@.len(),
                min_index as int == min_scan_index(*locator) || i == min_index,
                nearest_declarative(self.environments.stack@, self.environments.global).with,
                scan_this_object(
                    self.environments.stack@,
                    locator.name@,
                    min_scan_index(*locator),
                    max_index as int - 1,
                ) == scan_this_object(
                    self.environments.stack@,
                    locator.name@,
                    min_scan_index(*locator),
                    i as int - 1,
                ),
            decreases i,
        {
            i -= 1;
            match &self.environments.stack[i] {
                Environment::Declarative(env) => {
                    if env.poisoned() {
                        if env.is_function_kind() && env.compile_env().get_binding(
                            locator.name(),
                        ).is_some() {
                            return None;
                        }
                    } else if !env.with() {
                        return None;
                    }
                },
                Environment::Object(o) => {
                    if o.has_property(locator.name()) {
                        if !o.is_unscopable(locator.name()) {
                            return Some(o);
                        }
                    }
                },
            }
        }

        None
    }

    /// Whether the binding the locator points at is initialized.
    pub fn is_initialized_binding(&self, locator: &BindingLocator) -> (r: bool)
        requires
            locator_in_bounds(*self, *locator),
        ensures
            r == binding_initialized(*self, *locator),
    {
        match locator.environment() {
            BindingLocatorEnvironment::GlobalObject => self.global_object.has_property(
                locator.name(),
            ),
            BindingLocatorEnvironment::GlobalDeclarative => self.environments.global.get(
                locator.binding_index(),
            ).is_some(),
            BindingLocatorEnvironment::Stack(index) => match self.environment_expect(index) {
                Environment::Declarative(env) => env.get(locator.binding_index()).is_some(),
                Environment::Object(obj) => obj.has_property(locator.name()),
            },
        }
    }

    /// Reads the binding the locator points at; `None` is an uninitialized
    /// binding, the caller's temporal-dead-zone `ReferenceError`.
    pub fn get_binding(&self, locator: &BindingLocator) -> (r: Option<JsValue>)
        requires
            locator_in_bounds(*self, *locator),
        ensures
            r == binding_value(*self, *locator),
    {
        match locator.environment() {
            BindingLocatorEnvironment::GlobalObject => self.global_object.try_get(locator.name()),
            BindingLocatorEnvironment::GlobalDeclarative => self.environments.global.get(
                locator.binding_index(),
            ),
            BindingLocatorEnvironment::Stack(index) => match self.environment_expect(index) {
                Environment::Declarative(env) => env.get(locator.binding_index()),
                Environment::Object(obj) => Some(obj.get(locator.name())),
            },
        }
    }

    /// Writes the binding the locator points at. The strict flag is handed to
    /// object `[[Set]]`; declarative slots are written unconditionally, their
    /// immutability being the compiler's static responsibility.
    pub fn set_binding(&mut self, locator: &BindingLocator, value: JsValue, strict: bool)
        requires
            locator_in_bounds(*old(self), *locator),
        ensures
            binding_written(*old(self), *final(self), *locator, value),
    {
        match locator.environment() {
            BindingLocatorEnvironment::GlobalObject => {
                let key = locator.name().clone();
                self.global_object.set(key, value, strict);
            },
            BindingLocatorEnvironment::GlobalDeclarative => {
                self.environments.global.set(locator.binding_index(), value);
            },
            BindingLocatorEnvironment::Stack(index) => {
                let idx = locator.binding_index();
                let key = locator.name().clone();
                let env = &mut self.environments.stack[index as usize];
                match env {
                    Environment::Declarative(decl) => {
                        decl.set(idx, value);
                    },
                    Environment::Object(obj) => {
                        obj.set(key, value, strict);
                    },
                }
            },
        }
    }

    /// Deletes the binding the locator points at. Declarative bindings are
    /// never deletable; object-backed bindings delegate to `[[Delete]]`,
    /// which on these model objects always succeeds.
    pub fn delete_binding(&mut self, locator: &BindingLocator) -> (r: bool)
        requires
            locator_in_bounds(*old(self), *locator),
        ensures
            match decode_environment(locator.environment) {
                BindingLocatorEnvironment::GlobalObject => {
                    &&& r == true
                    &&& final(self).environments == old(self).environments
                    &&& final(self).global_object.spec_try_get(locator.name@) is None
                    &&& (forall|m: Seq<char>| m != locator.name@
                        ==> final(self).global_object.spec_try_get(m) == old(
                        self,
                    ).global_object.spec_try_get(m))
                    &&& final(self).global_object.unscopables == old(self).global_object.unscopables
                },
                BindingLocatorEnvironment::GlobalDeclarative => r == false && *final(self) == *old(
                    self,
                ),
                BindingLocatorEnvironment::Stack(i) => match old(self).environments.stack@[
                    i as int
                ] {
                    Environment::Declarative(_) => r == false && *final(self) == *old(self),
                    Environment::Object(o) => {
                        &&& r == true
                        &&& final(self).global_object == old(self).global_object
                        &&& final(self).environments.global == old(self).environments.global
                        &&& final(self).environments.private_stack == old(
                            self,
                        ).environments.private_stack
                        &&& final(self).environments.stack@.len() == old(
                            self,
                        ).environments.stack@.len()
                        &&& (forall|j: int|
                            0 <= j < old(self).environments.stack@.len() && j != i ==> final(self).environments.stack@[j] == old(self).environments.stack@[j])
                        &&& (final(self).environments.stack@[i as int] matches Environment::Object(
                            o1,
                        ) && {
                            &&& o1.spec_try_get(locator.name@) is None
                            &&& (forall|m: Seq<char>| m != locator.name@ ==> o1.spec_try_get(m)
                                == o.spec_try_get(m))
                            &&& o1.unscopables == o.unscopables
                        })
                    },
                },
            },
    {
        match locator.environment() {
            BindingLocatorEnvironment::GlobalObject => {
                let r = self.global_object.delete(locator.name());
                r
            },
            BindingLocatorEnvironment::GlobalDeclarative => false,
            BindingLocatorEnvironment::Stack(index) => {
                let is_decl = match self.environment_expect(index) {
                    Environment::Declarative(_) => true,
                    Environment::Object(_) => false,
                };
                if is_decl {
                    return false;
                }
                let env = &mut self.environments.stack[index as usize];
                match env {
                    Environment::Object(obj) => {
                        let r = obj.delete(locator.name());
                        r
                    },
                    Environment::Declarative(_) => {
                        proof {
                            assert(false);
                        }
                        false
                    },
                }
            },
        }
    }
}

/// Re-resolving a locator is a no-op whenever the innermost declarative
/// record has neither sticky flag set: repeated `find_runtime_binding` calls
/// then leave every locator unchanged.
pub proof fn lemma_find_runtime_binding_noop(c: Context, loc: BindingLocator)
    requires
        fast_path_applies(c.environments),
    ensures
        resolved_locator(c, loc) == loc,
{
}

/// After a direct lexical write through a locator that targets a declarative
/// environment, reading through the same locator yields the written value.
pub proof fn lemma_put_lexical_then_get(c0: Context, c1: Context, loc: BindingLocator, value: JsValue)
    requires
        decode_environment(loc.environment) != BindingLocatorEnvironment::GlobalObject,
        lexical_target_ok(c0.environments, decode_environment(loc.environment), loc.binding_index),
        slot_written(
            c0.environments,
            c1.environments,
            decode_environment(loc.environment),
            target_slots(c0.environments, decode_environment(loc.environment)).update(
                loc.binding_index as int,
                Some(value),
            ),
        ),
        c1.global_object == c0.global_object,
    ensures
        binding_value(c1, loc) == Some(value),
{
}

/// Of two conditional initializations through one slot the first wins: after
/// `put_value_if_uninitialized` writes `v1` into an uninitialized slot, a
/// second `put_value_if_uninitialized` of `v2` leaves `v1` in place.
pub proof fn lemma_put_if_uninitialized_first_wins(
    s0: EnvironmentStack,
    s1: EnvironmentStack,
    s2: EnvironmentStack,
    environment: BindingLocatorEnvironment,
    binding_index: u32,
    v1: JsValue,
    v2: JsValue,
)
    requires
        lexical_target_ok(s0, environment, binding_index),
        target_slots(s0, environment)[binding_index as int] is None,
        slot_written(
            s0,
            s1,
            environment,
            (if target_slots(s0, environment)[binding_index as int] is None {
                target_slots(s0, environment).update(binding_index as int, Some(v1))
            } else {
                target_slots(s0, environment)
            }),
        ),
        slot_written(
            s1,
            s2,
            environment,
            (if target_slots(s1, environment)[binding_index as int] is None {
                target_slots(s1, environment).update(binding_index as int, Some(v2))
            } else {
                target_slots(s1, environment)
            }),
        ),
    ensures
        target_slots(s2, environment)[binding_index as int] == Some(v1),
{
    assert(target_slots(s1, environment) == target_slots(s0, environment).update(
        binding_index as int,
        Some(v1),
    ));
    assert(target_slots(s1, environment)[binding_index as int] == Some(v1));
    assert(target_slots(s2, environment) == target_slots(s1, environment));
}

} // verus!
