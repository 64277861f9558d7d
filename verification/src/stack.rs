//! The execution context's stack of environments, plus the parallel stack of
//! private environments.

use vstd::prelude::*;

use crate::declarative::{
    DeclarativeEnvironment, DeclarativeEnvironmentKind, FunctionSlots,
};
use crate::compile::CompileTimeEnvironment;
use crate::locator::BindingLocatorEnvironment;
use crate::object::JsObject;
use crate::private_env::{PrivateEnvironment, PrivateName};
use crate::value::{JsError, JsValue};

verus! {

/// One entry of the environment stack: a declarative record, or an object
/// environment introduced by `with`.
pub enum Environment {
    Declarative(DeclarativeEnvironment),
    Object(JsObject),
}

impl Environment {
    pub open spec fn is_object(self) -> bool {
        self matches Environment::Object(_)
    }

    pub open spec fn spec_as_declarative(self) -> Option<DeclarativeEnvironment> {
        match self {
            Environment::Declarative(d) => Some(d),
            Environment::Object(_) => None,
        }
    }

    /// The declarative record, if this entry is one.
    pub fn as_declarative(&self) -> (r: Option<&DeclarativeEnvironment>)
        ensures
            match r {
                Some(d) => self.spec_as_declarative() == Some(*d),
                None => self.spec_as_declarative() is None,
            },
    {
        match self {
            Environment::Declarative(d) => Some(d),
            Environment::Object(_) => None,
        }
    }
}

/// Whether an entry is a declarative record that provides a `this` binding.
pub open spec fn provides_this(e: Environment) -> bool {
    e matches Environment::Declarative(d) && d.kind.spec_has_this_binding()
}

/// Whether an entry is a declarative record of Function kind.
pub open spec fn is_function_record(e: Environment) -> bool {
    e matches Environment::Declarative(d) && d.kind.is_function()
}

/// The entry with its declarative record marked poisoned; an object entry is
/// returned unchanged.
pub open spec fn poisoned_env(e: Environment) -> Environment {
    match e {
        Environment::Declarative(d) => Environment::Declarative(
            DeclarativeEnvironment { poisoned: true, ..d },
        ),
        Environment::Object(o) => Environment::Object(o),
    }
}

/// No Function-kind declarative record lies strictly above index `i`.
pub open spec fn no_function_above(stack: Seq<Environment>, i: int) -> bool {
    forall|j: int| i < j < stack.len() ==> !is_function_record(#[trigger] stack[j])
}

/// The innermost declarative record, skipping object environments; the global
/// record when the stack holds none.
pub open spec fn nearest_declarative(
    stack: Seq<Environment>,
    global: DeclarativeEnvironment,
) -> DeclarativeEnvironment
    decreases stack.len(),
{
    if stack.len() == 0 {
        global
    } else {
        match stack.last() {
            Environment::Declarative(d) => d,
            Environment::Object(_) => nearest_declarative(stack.drop_last(), global),
        }
    }
}

/// The innermost Function-kind declarative record; the global record when the
/// stack holds none.
pub open spec fn outer_function(
    stack: Seq<Environment>,
    global: DeclarativeEnvironment,
) -> DeclarativeEnvironment
    decreases stack.len(),
{
    if stack.len() == 0 {
        global
    } else if is_function_record(stack.last()) {
        stack.last()->Declarative_0
    } else {
        outer_function(stack.drop_last(), global)
    }
}

/// The kind of the innermost declarative record that provides a `this`
/// binding; the global record's kind when the stack holds none.
pub open spec fn this_env_kind(
    stack: Seq<Environment>,
    global: DeclarativeEnvironment,
) -> DeclarativeEnvironmentKind
    decreases stack.len(),
{
    if stack.len() == 0 {
        global.kind
    } else if provides_this(stack.last()) {
        stack.last()->Declarative_0.kind
    } else {
        this_env_kind(stack.drop_last(), global)
    }
}

/// What scanning the stack top-down for a `this` binding yields: the first
/// record whose own `this` read yields a value or an error decides; the
/// global record's `this` when no stack record provides one.
pub open spec fn this_binding_of(
    stack: Seq<Environment>,
    global: DeclarativeEnvironment,
) -> Result<Option<JsValue>, JsError>
    decreases stack.len(),
{
    if stack.len() == 0 {
        global.kind.spec_this_binding()
    } else {
        match stack.last() {
            Environment::Declarative(d) => {
                if d.kind.spec_this_binding() == Ok::<Option<JsValue>, JsError>(None) {
                    this_binding_of(stack.drop_last(), global)
                } else {
                    d.kind.spec_this_binding()
                }
            },
            Environment::Object(_) => this_binding_of(stack.drop_last(), global),
        }
    }
}

/// Whether the top entry of the stack is an object environment.
pub open spec fn top_is_object(stack: Seq<Environment>) -> bool {
    stack.len() > 0 && stack.last() matches Environment::Object(_)
}

/// The fields a record keeps when only its binding slots change.
pub open spec fn same_record_but_slots(
    d0: DeclarativeEnvironment,
    d1: DeclarativeEnvironment,
    slots: Seq<Option<JsValue>>,
) -> bool {
    &&& d1.kind == d0.kind
    &&& d1.compile_env == d0.compile_env
    &&& d1.poisoned == d0.poisoned
    &&& d1.with == d0.with
    &&& d1.bindings@ == slots
}

/// Whether a direct slot write may be performed through this target: the
/// global record for the two global targets, a declarative record with the
/// slot in range for a stack target.
pub open spec fn lexical_target_ok(
    s: EnvironmentStack,
    environment: BindingLocatorEnvironment,
    binding_index: u32,
) -> bool {
    match environment {
        BindingLocatorEnvironment::GlobalObject => binding_index < s.global.bindings@.len(),
        BindingLocatorEnvironment::GlobalDeclarative => binding_index < s.global.bindings@.len(),
        BindingLocatorEnvironment::Stack(i) => i < s.stack@.len() && (s.stack@[i as int] matches
            Environment::Declarative(d) && binding_index < d.bindings@.len()),
    }
}

/// How one direct slot write relates the stack after to the stack before:
/// exactly the targeted record's targeted slot becomes `slots1`, everything
/// else stays.
pub open spec fn slot_written(
    s0: EnvironmentStack,
    s1: EnvironmentStack,
    environment: BindingLocatorEnvironment,
    slots1: Seq<Option<JsValue>>,
) -> bool {
    &&& s1.private_stack == s0.private_stack
    &&& match environment {
        BindingLocatorEnvironment::GlobalObject | BindingLocatorEnvironment::GlobalDeclarative => {
            &&& s1.stack == s0.stack
            &&& same_record_but_slots(s0.global, s1.global, slots1)
        },
        BindingLocatorEnvironment::Stack(i) => {
            &&& s1.global == s0.global
            &&& s1.stack@.len() == s0.stack@.len()
            &&& (forall|j: int| 0 <= j < s0.stack@.len() && j != i ==> s1.stack@[j] == s0.stack@[j])
            &&& (s0.stack@[i as int] matches Environment::Declarative(d0) && (s1.stack@[
                i as int
            ] matches Environment::Declarative(d1) && same_record_but_slots(d0, d1, slots1)))
        },
    }
}

/// The slots of the record a direct write targets.
pub open spec fn target_slots(
    s: EnvironmentStack,
    environment: BindingLocatorEnvironment,
) -> Seq<Option<JsValue>> {
    match environment {
        BindingLocatorEnvironment::GlobalObject | BindingLocatorEnvironment::GlobalDeclarative => {
            s.global.bindings@
        },
        BindingLocatorEnvironment::Stack(i) => s.stack@[
            i as int
        ]->Declarative_0.bindings@,
    }
}

/// The execution-context-local stack of environments: the scopes themselves,
/// the distinguished global declarative record, and the parallel stack of
/// private environments.
pub struct EnvironmentStack {
    pub stack: Vec<Environment>,
    pub global: DeclarativeEnvironment,
    pub private_stack: Vec<PrivateEnvironment>,
}

impl EnvironmentStack {
    /// The one invariant of the stack: the distinguished record is of Global
    /// kind, at all times.
    pub open spec fn well_formed(self) -> bool {
        self.global.kind.is_global()
    }

    /// A stack holding only the global record.
    pub fn new(global: DeclarativeEnvironment) -> (r: Self)
        requires
            global.kind.is_global(),
        ensures
            r.stack@.len() == 0,
            r.global == global,
            r.private_stack@.len() == 0,
            r.well_formed(),
    {
        EnvironmentStack { stack: Vec::new(), global, private_stack: Vec::new() }
    }

    /// Replaces the global record; the replacement must be of Global kind.
    pub fn replace_global(&mut self, global: DeclarativeEnvironment)
        requires
            global.kind.is_global(),
        ensures
            final(self).global == global,
            final(self).stack == old(self).stack,
            final(self).private_stack == old(self).private_stack,
            final(self).well_formed(),
    {
        self.global = global;
    }

    /// The current global record.
    pub fn global(&self) -> (r: &DeclarativeEnvironment)
        ensures
            *r == self.global,
    {
        &self.global
    }

    /// The innermost Function-kind record, or the global record when no
    /// function scope is on the stack; `new.target`, `super` and the arguments
    /// object resolve against it.
    pub fn outer_function_environment(&self) -> (r: &DeclarativeEnvironment)
        ensures
            *r == outer_function(self.stack@, self.global),
    {
        let mut i: usize = self.stack.len();
        proof {
            assert(self.stack@.take(self.stack@.len() as int) =~= self.stack@);
        }
        while i > 0
            invariant
                0 <= i <= self.stack@.len(),
                outer_function(self.stack@, self.global) == outer_function(
                    self.stack@.take(i as int),
                    self.global,
                ),
            decreases i,
        {
            i -= 1;
            proof {
                assert(self.stack@.take(i as int + 1).drop_last() =~= self.stack@.take(i as int));
                assert(self.stack@.take(i as int + 1).last() == self.stack@[i as int]);
            }
            match &self.stack[i] {
                Environment::Declarative(d) => {
                    if d.is_function_kind() {
                        return d;
                    }
                },
                Environment::Object(_) => {},
            }
        }
        proof {
            assert(self.stack@.take(0) =~= Seq::<Environment>::empty());
        }
        &self.global
    }

    /// Removes and returns every environment above the global record; the
    /// private stack is untouched.
    pub fn pop_to_global(&mut self) -> (r: Vec<Environment>)
        ensures
            r@ == old(self).stack@,
            final(self).stack@.len() == 0,
            final(self).global == old(self).global,
            final(self).private_stack == old(self).private_stack,
    {
        let mut envs: Vec<Environment> = Vec::new();
        core::mem::swap(&mut envs, &mut self.stack);
        envs
    }

    /// How many environments lie above the global record. Every `push_*` call
    /// raises this by one and every `pop` lowers it by one, as their
    /// contracts state.
    pub fn len(&self) -> (r: usize)
        ensures
            r == self.stack@.len(),
    {
        self.stack.len()
    }

    /// Cuts the stack down to `len` environments; a longer `len` is a no-op.
    pub fn truncate(&mut self, len: usize)
        ensures
            len <= old(self).stack@.len() ==> final(self).stack@ == old(self).stack@.take(
                len as int,
            ),
            len > old(self).stack@.len() ==> final(self).stack@ == old(self).stack@,
            final(self).global == old(self).global,
            final(self).private_stack == old(self).private_stack,
    {
        self.stack.truncate(len);
    }

    /// Puts environments back on top of the stack, in order.
    pub fn extend(&mut self, other: Vec<Environment>)
        ensures
            final(self).stack@ == old(self).stack@ + other@,
            final(self).global == old(self).global,
            final(self).private_stack == old(self).private_stack,
    {
        let mut other = other;
        self.stack.append(&mut other);
    }

    /// `GetThisEnvironment`: the kind of the innermost record that provides a
    /// `this` binding, the global record's kind when none does.
    pub fn get_this_environment(&self) -> (r: DeclarativeEnvironmentKind)
        ensures
            r == this_env_kind(self.stack@, self.global),
    {
        let mut i: usize = self.stack.len();
        proof {
            assert(self.stack@.take(self.stack@.len() as int) =~= self.stack@);
        }
        while i > 0
            invariant
                0 <= i <= self.stack@.len(),
                this_env_kind(self.stack@, self.global) == this_env_kind(
                    self.stack@.take(i as int),
                    self.global,
                ),
            decreases i,
        {
            i -= 1;
            proof {
                assert(self.stack@.take(i as int + 1).drop_last() =~= self.stack@.take(i as int));
                assert(self.stack@.take(i as int + 1).last() == self.stack@[i as int]);
            }
            match &self.stack[i] {
                Environment::Declarative(d) => {
                    if d.has_this_binding() {
                        return d.kind;
                    }
                },
                Environment::Object(_) => {},
            }
        }
        proof {
            assert(self.stack@.take(0) =~= Seq::<Environment>::empty());
        }
        self.global.kind
    }

    /// `GetThisBinding` over the stack: the same scan as
    /// `get_this_environment`, returning the value. The innermost record
    /// whose own `this` read yields a value or an error decides; when no
    /// stack record provides a `this`, the global record's `this` is
    /// returned.
    pub fn get_this_binding(&self) -> (r: Result<Option<JsValue>, JsError>)
        ensures
            r == this_binding_of(self.stack@, self.global),
    {
        let mut i: usize = self.stack.len();
        proof {
            assert(self.stack@.take(self.stack@.len() as int) =~= self.stack@);
        }
        while i > 0
            invariant
                0 <= i <= self.stack@.len(),
                this_binding_of(self.stack@, self.global) == this_binding_of(
                    self.stack@.take(i as int),
                    self.global,
                ),
            decreases i,
        {
            i -= 1;
            proof {
                assert(self.stack@.take(i as int + 1).drop_last() =~= self.stack@.take(i as int));
                assert(self.stack@.take(i as int + 1).last() == self.stack@[i as int]);
            }
            match &self.stack[i] {
                Environment::Declarative(d) => {
                    match d.get_this_binding() {
                        Ok(None) => {},
                        Ok(Some(v)) => {
                            return Ok(Some(v));
                        },
                        Err(e) => {
                            return Err(e);
                        },
                    }
                },
                Environment::Object(_) => {},
            }
        }
        proof {
            assert(self.stack@.take(0) =~= Seq::<Environment>::empty());
        }
        self.global.get_this_binding()
    }

    /// Pushes an object environment, entered by `with (obj)`.
    pub fn push_object(&mut self, object: JsObject)
        ensures
            final(self).stack@ == old(self).stack@.push(Environment::Object(object)),
            final(self).global == old(self).global,
            final(self).private_stack == old(self).private_stack,
    {
        self.stack.push(Environment::Object(object));
    }

    /// The sticky flags a newly pushed record inherits: `poisoned` from the
    /// nearest enclosing declarative record (or the global), and `with` from
    /// the same record or from an object environment sitting on top.
    fn inherited_flags(&self) -> (r: (bool, bool))
        ensures
            r.0 == nearest_declarative(self.stack@, self.global).poisoned,
            r.1 == (top_is_object(self.stack@) || nearest_declarative(
                self.stack@,
                self.global,
            ).with),
    {
        let with = if self.stack.len() > 0 {
            match &self.stack[self.stack.len() - 1] {
                Environment::Declarative(_) => false,
                Environment::Object(_) => true,
            }
        } else {
            false
        };
        let mut i: usize = self.stack.len();
        proof {
            assert(self.stack@.take(self.stack@.len() as int) =~= self.stack@);
        }
        while i > 0
            invariant
                0 <= i <= self.stack@.len(),
                with == top_is_object(self.stack@),
                nearest_declarative(self.stack@, self.global) == nearest_declarative(
                    self.stack@.take(i as int),
                    self.global,
                ),
            decreases i,
        {
            i -= 1;
            proof {
                assert(self.stack@.take(i as int + 1).drop_last() =~= self.stack@.take(i as int));
                assert(self.stack@.take(i as int + 1).last() == self.stack@[i as int]);
            }
            match &self.stack[i] {
                Environment::Declarative(d) => {
                    return (d.poisoned(), with || d.with());
                },
                Environment::Object(_) => {},
            }
        }
        proof {
            assert(self.stack@.take(0) =~= Seq::<Environment>::empty());
        }
        (self.global.poisoned, with || self.global.with)
    }

    /// Pushes a block scope and returns its stack index. The new record
    /// inherits `poisoned` from the nearest enclosing declarative record, and
    /// its `with` flag is set when the current top is an object environment
    /// or the enclosing record already carried it.
    pub fn push_lexical(&mut self, compile_environment: CompileTimeEnvironment) -> (r: u32)
        requires
            old(self).stack@.len() + 2 <= u32::MAX,
        ensures
            r == old(self).stack@.len(),
            fresh_record_pushed(
                *old(self),
                *final(self),
                DeclarativeEnvironmentKind::Lexical,
                compile_environment,
                nearest_declarative(old(self).stack@, old(self).global).poisoned,
                top_is_object(old(self).stack@) || nearest_declarative(
                    old(self).stack@,
                    old(self).global,
                ).with,
            ),
    {
        let flags = self.inherited_flags();
        let index = self.stack.len() as u32;
        let record = DeclarativeEnvironment::new(
            DeclarativeEnvironmentKind::Lexical,
            compile_environment,
            flags.0,
            flags.1,
        );
        self.stack.push(Environment::Declarative(record));
        proof {
            assert(self.stack@.take(old(self).stack@.len() as int) =~= old(self).stack@);
        }
        index
    }

    /// Pushes a function body scope carrying `function_slots`; the sticky
    /// flags are inherited as for a block scope.
    pub fn push_function(
        &mut self,
        compile_environment: CompileTimeEnvironment,
        function_slots: FunctionSlots,
    )
        ensures
            fresh_record_pushed(
                *old(self),
                *final(self),
                DeclarativeEnvironmentKind::Function(function_slots),
                compile_environment,
                nearest_declarative(old(self).stack@, old(self).global).poisoned,
                top_is_object(old(self).stack@) || nearest_declarative(
                    old(self).stack@,
                    old(self).global,
                ).with,
            ),
    {
        let flags = self.inherited_flags();
        let record = DeclarativeEnvironment::new(
            DeclarativeEnvironmentKind::Function(function_slots),
            compile_environment,
            flags.0,
            flags.1,
        );
        self.stack.push(Environment::Declarative(record));
        proof {
            assert(self.stack@.take(old(self).stack@.len() as int) =~= old(self).stack@);
        }
    }

    /// Pushes a module top-level scope. Modules are top level: the record
    /// inherits no flags.
    pub fn push_module(&mut self, compile_environment: CompileTimeEnvironment)
        ensures
            fresh_record_pushed(
                *old(self),
                *final(self),
                DeclarativeEnvironmentKind::Module,
                compile_environment,
                false,
                false,
            ),
    {
        let record = DeclarativeEnvironment::new(
            DeclarativeEnvironmentKind::Module,
            compile_environment,
            false,
            false,
        );
        self.stack.push(Environment::Declarative(record));
        proof {
            assert(self.stack@.take(old(self).stack@.len() as int) =~= old(self).stack@);
        }
    }

    /// Removes the top environment. Popping past the global record is a
    /// caller error.
    pub fn pop(&mut self)
        requires
            old(self).stack@.len() > 0,
        ensures
            final(self).stack@ == old(self).stack@.drop_last(),
            final(self).global == old(self).global,
            final(self).private_stack == old(self).private_stack,
    {
        self.stack.pop();
        proof {
            assert(self.stack@ =~= old(self).stack@.drop_last());
        }
    }

    /// The innermost declarative record, skipping object environments; the
    /// global record when the stack holds none. Always a record.
    pub fn current_declarative_ref(&self) -> (r: Option<&DeclarativeEnvironment>)
        ensures
            match r {
                Some(d) => *d == nearest_declarative(self.stack@, self.global),
                None => false,
            },
    {
        let mut i: usize = self.stack.len();
        proof {
            assert(self.stack@.take(self.stack@.len() as int) =~= self.stack@);
        }
        while i > 0
            invariant
                0 <= i <= self.stack@.len(),
                nearest_declarative(self.stack@, self.global) == nearest_declarative(
                    self.stack@.take(i as int),
                    self.global,
                ),
            decreases i,
        {
            i -= 1;
            proof {
                assert(self.stack@.take(i as int + 1).drop_last() =~= self.stack@.take(i as int));
                assert(self.stack@.take(i as int + 1).last() == self.stack@[i as int]);
            }
            match &self.stack[i] {
                Environment::Declarative(d) => {
                    return Some(d);
                },
                Environment::Object(_) => {},
            }
        }
        proof {
            assert(self.stack@.take(0) =~= Seq::<Environment>::empty());
        }
        Some(&self.global)
    }

    /// The compile-time descriptor of the innermost declarative record, the
    /// global record's when the stack holds none.
    pub fn current_compile_environment(&self) -> (r: &CompileTimeEnvironment)
        ensures
            *r == nearest_declarative(self.stack@, self.global).compile_env,
    {
        let mut i: usize = self.stack.len();
        proof {
            assert(self.stack@.take(self.stack@.len() as int) =~= self.stack@);
        }
        while i > 0
            invariant
                0 <= i <= self.stack@.len(),
                nearest_declarative(self.stack@, self.global) == nearest_declarative(
                    self.stack@.take(i as int),
                    self.global,
                ),
            decreases i,
        {
            i -= 1;
            proof {
                assert(self.stack@.take(i as int + 1).drop_last() =~= self.stack@.take(i as int));
                assert(self.stack@.take(i as int + 1).last() == self.stack@[i as int]);
            }
            match &self.stack[i] {
                Environment::Declarative(d) => {
                    return &d.compile_env;
                },
                Environment::Object(_) => {},
            }
        }
        proof {
            assert(self.stack@.take(0) =~= Seq::<Environment>::empty());
        }
        &self.global.compile_env
    }

    /// Marks every declarative record from the top down to and including the
    /// innermost Function-kind record as poisoned; records below it, and
    /// object environments, are untouched. When no function scope is on the
    /// stack, every record and the global record are poisoned. Called when a
    /// `with` or direct `eval` may inject bindings into any enclosing scope
    /// of the current function body.
    pub fn poison_until_last_function(&mut self)
        ensures
            final(self).stack@.len() == old(self).stack@.len(),
            forall|i: int| 0 <= i < old(self).stack@.len() ==> final(self).stack@[i] == (
                if no_function_above(old(self).stack@, i) {
                    poisoned_env(#[trigger] old(self).stack@[i])
                } else {
                    old(self).stack@[i]
                }
            ),
            final(self).global == (if no_function_above(old(self).stack@, -1) {
                DeclarativeEnvironment { poisoned: true, ..old(self).global }
            } else {
                old(self).global
            }),
            final(self).private_stack == old(self).private_stack,
    {
        let mut i: usize = self.stack.len();
        proof {
            assert(self.stack@.take(self.stack@.len() as int) =~= self.stack@);
        }
        while i > 0
            invariant
                0 <= i <= self.stack@.len(),
                self.stack@.len() == old(self).stack@.len(),
                self.global == old(self).global,
                self.private_stack == old(self).private_stack,
                forall|j: int| i <= j < old(self).stack@.len() ==> !is_function_record(
                    #[trigger] old(self).stack@[j],
                ),
                forall|j: int| i <= j < old(self).stack@.len() ==> self.stack@[j] == poisoned_env(
                    #[trigger] old(self).stack@[j],
                ),
                forall|j: int| 0 <= j < i ==> self.stack@[j] == old(self).stack@[j],
            decreases i,
        {
            i -= 1;
            let env = &mut self.stack[i];
            match env {
                Environment::Declarative(d) => {
                    let is_function = d.is_function_kind();
                    d.poison();
                    if is_function {
                        return ;
                    }
                },
                Environment::Object(_) => {},
            }
        }
        self.global.poison();
    }

    /// Pushes a private environment for a class body being entered.
    pub fn push_private(&mut self, environment: PrivateEnvironment)
        ensures
            final(self).private_stack@ == old(self).private_stack@.push(environment),
            final(self).stack == old(self).stack,
            final(self).global == old(self).global,
    {
        self.private_stack.push(environment);
    }

    /// Pops the innermost private environment; a no-op on an empty private
    /// stack.
    pub fn pop_private(&mut self)
        ensures
            final(self).private_stack@ == (if old(self).private_stack@.len() > 0 {
                old(self).private_stack@.drop_last()
            } else {
                old(self).private_stack@
            }),
            final(self).stack == old(self).stack,
            final(self).global == old(self).global,
    {
        self.private_stack.pop();
        proof {
            if old(self).private_stack@.len() > 0 {
                assert(self.private_stack@ =~= old(self).private_stack@.drop_last());
            }
        }
    }

    /// `ResolvePrivateIdentifier`: the innermost private environment that
    /// declares this spelling wins; `None` when no live private environment
    /// declares it.
    pub fn resolve_private_identifier(&self, identifier: String) -> (r: Option<PrivateName>)
        ensures
            match r {
                Some(p) => p.description == identifier && (exists|i: int|
                    {
                        &&& 0 <= i < self.private_stack@.len()
                        &&& (#[trigger] self.private_stack@[i]).spec_contains(identifier@)
                        &&& p.id == self.private_stack@[i].id
                        &&& forall|j: int|
                            i < j < self.private_stack@.len() ==> !(
                            #[trigger] self.private_stack@[j]).spec_contains(identifier@)
                    }),
                None => forall|i: int|
                    0 <= i < self.private_stack@.len() ==> !(
                    #[trigger] self.private_stack@[i]).spec_contains(identifier@),
            },
    {
        let mut i: usize = self.private_stack.len();
        while i > 0
            invariant
                0 <= i <= self.private_stack@.len(),
                forall|j: int| i <= j < self.private_stack@.len() ==> !(
                #[trigger] self.private_stack@[j]).spec_contains(identifier@),
            decreases i,
        {
            i -= 1;
            if self.private_stack[i].contains_description(&identifier) {
                let id = self.private_stack[i].id;
                return Some(PrivateName::new(identifier, id));
            }
        }
        None
    }

    /// Every private-name spelling visible from the current scope, innermost
    /// environment first, each spelling once at its first appearance.
    pub fn private_name_descriptions(&self) -> (r: Vec<String>)
        ensures
            r@.map_values(|s: String| s@) == collect_private_names(
                Seq::<Seq<char>>::empty(),
                self.private_stack@,
                self.private_stack@.len() - 1,
            ),
    {
        let mut names: Vec<String> = Vec::new();
        proof {
            assert(names@.map_values(|s: String| s@) =~= Seq::<Seq<char>>::empty());
        }
        let mut i: usize = self.private_stack.len();
        while i > 0
            invariant
                0 <= i <= self.private_stack@.len(),
                collect_private_names(
                    Seq::<Seq<char>>::empty(),
                    self.private_stack@,
                    self.private_stack@.len() - 1,
                ) == collect_private_names(
                    names@.map_values(|s: String| s@),
                    self.private_stack@,
                    i as int - 1,
                ),
            decreases i,
        {
            i -= 1;
            let ghost entry_acc = names@.map_values(|s: String| s@);
            let mut k: usize = 0;
            while k < self.private_stack[i].descriptions.len()
                invariant
                    0 <= i < self.private_stack@.len(),
                    0 <= k <= self.private_stack@[i as int].descriptions@.len(),
                    collect_private_names(
                        Seq::<Seq<char>>::empty(),
                        self.private_stack@,
                        self.private_stack@.len() - 1,
                    ) == collect_private_names(entry_acc, self.private_stack@, i as int),
                    collect_descs(entry_acc, self.private_stack@[i as int].descriptions@, 0)
                        == collect_descs(
                        names@.map_values(|s: String| s@),
                        self.private_stack@[i as int].descriptions@,
                        k as int,
                    ),
                decreases self.private_stack@[i as int].descriptions@.len() - k,
            {
                let ghost acc = names@.map_values(|s: String| s@);
                let name = &self.private_stack[i].descriptions[k];
                if !names_contain(&names, name) {
                    names.push(name.clone());
                    proof {
                        assert(names@.map_values(|s: String| s@) =~= acc.push(name@));
                    }
                }
                k += 1;
            }
        }
        names
    }

    /// Whether any object environment is on the stack; the fast paths of
    /// runtime re-resolution key off this.
    pub fn has_object_environment(&self) -> (r: bool)
        ensures
            r == exists|i: int| 0 <= i < self.stack@.len() && (#[trigger] self.stack@[i]).is_object(),
    {
        let mut i: usize = 0;
        while i < self.stack.len()
            invariant
                0 <= i <= self.stack@.len(),
                forall|j: int| 0 <= j < i ==> !(#[trigger] self.stack@[j]).is_object(),
            decreases self.stack@.len() - i,
        {
            match &self.stack[i] {
                Environment::Object(_) => {
                    return true;
                },
                Environment::Declarative(_) => {},
            }
            i += 1;
        }
        false
    }

    /// Writes the slot of a lexical binding directly; the target must be a
    /// declarative record and the slot in range.
    pub fn put_lexical_value(
        &mut self,
        environment: BindingLocatorEnvironment,
        binding_index: u32,
        value: JsValue,
    )
        requires
            lexical_target_ok(*old(self), environment, binding_index),
        ensures
            slot_written(
                *old(self),
                *final(self),
                environment,
                target_slots(*old(self), environment).update(binding_index as int, Some(value)),
            ),
    {
        match environment {
            BindingLocatorEnvironment::GlobalObject | BindingLocatorEnvironment::GlobalDeclarative
                => {
                self.global.set(binding_index, value);
            },
            BindingLocatorEnvironment::Stack(index) => {
                let env = &mut self.stack[index as usize];
                match env {
                    Environment::Declarative(d) => {
                        d.set(binding_index, value);
                    },
                    Environment::Object(_) => {
                        proof {
                            assert(false);
                        }
                    },
                }
            },
        }
    }

    /// Writes the slot only when it is still uninitialized; the first write
    /// wins, later ones are ignored.
    pub fn put_value_if_uninitialized(
        &mut self,
        environment: BindingLocatorEnvironment,
        binding_index: u32,
        value: JsValue,
    )
        requires
            lexical_target_ok(*old(self), environment, binding_index),
        ensures
            slot_written(
                *old(self),
                *final(self),
                environment,
                (if target_slots(*old(self), environment)[binding_index as int] is None {
                    target_slots(*old(self), environment).update(binding_index as int, Some(value))
                } else {
                    target_slots(*old(self), environment)
                }),
            ),
    {
        match environment {
            BindingLocatorEnvironment::GlobalObject | BindingLocatorEnvironment::GlobalDeclarative
                => {
                if self.global.get(binding_index).is_none() {
                    self.global.set(binding_index, value);
                }
            },
            BindingLocatorEnvironment::Stack(index) => {
                let env = &mut self.stack[index as usize];
                match env {
                    Environment::Declarative(d) => {
                        if d.get(binding_index).is_none() {
                            d.set(binding_index, value);
                        }
                    },
                    Environment::Object(_) => {
                        proof {
                            assert(false);
                        }
                    },
                }
            },
        }
    }
}

/// A name list grown by one name, unless the list already holds it.
pub open spec fn dedup_add(acc: Seq<Seq<char>>, name: Seq<char>) -> Seq<Seq<char>> {
    if acc.contains(name) {
        acc
    } else {
        acc.push(name)
    }
}

/// One private environment's spellings folded into a name list, in order.
pub open spec fn collect_descs(acc: Seq<Seq<char>>, descs: Seq<String>, k: int) -> Seq<Seq<char>>
    decreases descs.len() - k,
{
    if k < 0 || k >= descs.len() {
        acc
    } else {
        collect_descs(dedup_add(acc, descs[k]@), descs, k + 1)
    }
}

/// The private-name spellings of environments `i` down to `0` folded into a
/// name list: innermost first, first appearance wins.
pub open spec fn collect_private_names(
    acc: Seq<Seq<char>>,
    ps: Seq<PrivateEnvironment>,
    i: int,
) -> Seq<Seq<char>>
    decreases i + 1,
{
    if i < 0 || i >= ps.len() {
        acc
    } else {
        collect_private_names(collect_descs(acc, ps[i].descriptions@, 0), ps, i - 1)
    }
}

/// Whether the list already holds this name.
fn names_contain(names: &Vec<String>, name: &String) -> (r: bool)
    ensures
        r == names@.map_values(|s: String| s@).contains(name@),
{
    let mut j: usize = 0;
    while j < names.len()
        invariant
            0 <= j <= names@.len(),
            forall|t: int| 0 <= t < j ==> (#[trigger] names@[t])@ != name@,
        decreases names@.len() - j,
    {
        if names[j] == *name {
            proof {
                assert(names@.map_values(|s: String| s@)[j as int] == name@);
            }
            return true;
        }
        j += 1;
    }
    proof {
        let mapped = names@.map_values(|s: String| s@);
        if mapped.contains(name@) {
            let witness = choose|t: int| 0 <= t < mapped.len() && (#[trigger] mapped[t]) == name@;
            assert((names@[witness])@ == name@);
        }
    }
    false
}

/// `GetThisEnvironment` always lands on a record that provides a `this`
/// binding: the kind it yields is the innermost stack record's that provides
/// one, and the global record's kind — of Global kind, which always provides
/// one — when no stack record does. In a chain of arrow-function records none
/// provides a `this`, so the walk lands on the enclosing function, module or
/// global record.
pub proof fn lemma_this_env_kind_innermost(
    stack: Seq<Environment>,
    global: DeclarativeEnvironment,
)
    requires
        global.kind.is_global(),
    ensures
        this_env_kind(stack, global).spec_has_this_binding(),
        (forall|i: int| 0 <= i < stack.len() ==> !provides_this(#[trigger] stack[i]))
            ==> this_env_kind(stack, global) == global.kind,
        (exists|i: int| 0 <= i < stack.len() && provides_this(#[trigger] stack[i])) ==> (exists|
            i: int,
        |
            {
                &&& 0 <= i < stack.len()
                &&& provides_this(#[trigger] stack[i])
                &&& (stack[i] matches Environment::Declarative(d) && this_env_kind(stack, global)
                    == d.kind)
                &&& forall|j: int| i < j < stack.len() ==> !provides_this(#[trigger] stack[j])
            }),
    decreases stack.len(),
{
    if stack.len() == 0 {
    } else if provides_this(stack.last()) {
        let iw = stack.len() - 1;
        assert(provides_this(stack[iw]));
        assert(forall|j: int| iw < j < stack.len() ==> !provides_this(#[trigger] stack[j]));
    } else {
        let sub = stack.drop_last();
        lemma_this_env_kind_innermost(sub, global);
        assert(forall|j: int| 0 <= j < sub.len() ==> sub[j] == stack[j]);
        assert(this_env_kind(stack, global) == this_env_kind(sub, global));
        if exists|i: int| 0 <= i < stack.len() && provides_this(#[trigger] stack[i]) {
            let i0 = choose|i: int| 0 <= i < stack.len() && provides_this(#[trigger] stack[i]);
            assert(stack[stack.len() - 1] == stack.last());
            assert(i0 != stack.len() - 1);
            assert(provides_this(sub[i0]));
            assert(exists|i: int| 0 <= i < sub.len() && provides_this(#[trigger] sub[i]));
            let iw = choose|i: int|
                {
                    &&& 0 <= i < sub.len()
                    &&& provides_this(#[trigger] sub[i])
                    &&& (sub[i] matches Environment::Declarative(d) && this_env_kind(sub, global)
                        == d.kind)
                    &&& forall|j: int| i < j < sub.len() ==> !provides_this(#[trigger] sub[j])
                };
            assert(provides_this(stack[iw]));
            assert(forall|j: int| iw < j < stack.len() - 1 ==> !provides_this(#[trigger] stack[j]));
            assert(forall|j: int| iw < j < stack.len() ==> !provides_this(#[trigger] stack[j]));
        }
    }
}

/// What every `push_lexical`, `push_function` and `push_module` leaves
/// behind: one fresh record of the stated kind and flags on top, every slot
/// uninitialized, and everything else untouched.
pub open spec fn fresh_record_pushed(
    s0: EnvironmentStack,
    s1: EnvironmentStack,
    kind: DeclarativeEnvironmentKind,
    compile_environment: CompileTimeEnvironment,
    poisoned: bool,
    with: bool,
) -> bool {
    &&& s1.stack@.len() == s0.stack@.len() + 1
    &&& s1.stack@.take(s0.stack@.len() as int) == s0.stack@
    &&& (s1.stack@.last() matches Environment::Declarative(d) && {
        &&& d.kind == kind
        &&& d.compile_env == compile_environment
        &&& d.bindings@ == Seq::new(
            compile_environment.num_bindings as nat,
            |i: int| None::<JsValue>,
        )
        &&& d.poisoned == poisoned
        &&& d.with == with
    })
    &&& s1.global == s0.global
    &&& s1.private_stack == s0.private_stack
}

} // verus!
