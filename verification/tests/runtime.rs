use js_environments::compile::{CompileBinding, CompileTimeEnvironment};
use js_environments::context::Context;
use js_environments::declarative::{
    DeclarativeEnvironment, DeclarativeEnvironmentKind, FunctionSlots, ThisBindingStatus,
};
use js_environments::locator::{BindingLocator, BindingLocatorEnvironment};
use js_environments::object::JsObject;
use js_environments::private_env::PrivateEnvironment;
use js_environments::stack::{Environment, EnvironmentStack};
use js_environments::value::{JsError, JsValue};

fn global_record(num_bindings: u32) -> DeclarativeEnvironment {
    DeclarativeEnvironment::new(
        DeclarativeEnvironmentKind::Global { global_this: JsValue::Undefined },
        CompileTimeEnvironment::new(num_bindings, false),
        false,
        false,
    )
}

fn plain_compile_env(num_bindings: u32) -> CompileTimeEnvironment {
    CompileTimeEnvironment::new(num_bindings, false)
}

fn initialized_slots(this: JsValue) -> FunctionSlots {
    FunctionSlots {
        this,
        this_status: ThisBindingStatus::Initialized,
        new_target: JsValue::Undefined,
        home_object: None,
    }
}

fn object_with(name: &str, value: JsValue) -> JsObject {
    let mut obj = JsObject::new();
    obj.set(name.to_string(), value, false);
    obj
}

fn global_decl_locator(name: &str, slot: u32) -> BindingLocator {
    let mut locator = BindingLocator::global(name.to_string());
    locator.set_environment(BindingLocatorEnvironment::GlobalDeclarative);
    locator.binding_index = slot;
    locator
}

#[test]
fn tdz_read_of_fresh_lexical_slot_is_none() {
    let mut ctx = Context::new(global_record(0), JsObject::new());
    let index = ctx.environments.push_lexical(plain_compile_env(1));
    assert_eq!(index, 0);
    let locator = BindingLocator::declarative("a".to_string(), 0, 0);
    assert_eq!(ctx.get_binding(&locator), None);
}

#[test]
fn with_shadowing_rewrites_locator_to_object_environment() {
    let mut global_compile = CompileTimeEnvironment::new(1, false);
    global_compile.add_binding(CompileBinding::new(
        "x".to_string(),
        BindingLocatorEnvironment::GlobalDeclarative,
        0,
    ));
    let global = DeclarativeEnvironment::new(
        DeclarativeEnvironmentKind::Global { global_this: JsValue::Undefined },
        global_compile,
        false,
        false,
    );
    let mut ctx = Context::new(global, JsObject::new());
    ctx.environments.put_lexical_value(
        BindingLocatorEnvironment::GlobalDeclarative,
        0,
        JsValue::Integer(1),
    );
    ctx.environments.push_object(object_with("x", JsValue::Integer(42)));
    ctx.environments.push_lexical(plain_compile_env(0));

    let mut locator = global_decl_locator("x", 0);
    ctx.find_runtime_binding(&mut locator);
    assert_eq!(
        locator.environment(),
        BindingLocatorEnvironment::Stack(0)
    );
    assert_eq!(ctx.get_binding(&locator), Some(JsValue::Integer(42)));
}

#[test]
fn unscopables_keeps_locator_on_global_declarative() {
    let mut ctx = Context::new(global_record(1), JsObject::new());
    ctx.environments.put_lexical_value(
        BindingLocatorEnvironment::GlobalDeclarative,
        0,
        JsValue::Integer(1),
    );
    let mut obj = object_with("x", JsValue::Integer(42));
    obj.add_unscopable("x".to_string());
    ctx.environments.push_object(obj);
    ctx.environments.push_lexical(plain_compile_env(0));

    let mut locator = global_decl_locator("x", 0);
    ctx.find_runtime_binding(&mut locator);
    assert_eq!(
        locator.environment(),
        BindingLocatorEnvironment::GlobalDeclarative
    );
    assert_eq!(ctx.get_binding(&locator), Some(JsValue::Integer(1)));
}

#[test]
fn eval_poisoned_function_scope_rewrites_stale_locator() {
    let mut function_compile = CompileTimeEnvironment::new(4, true);
    function_compile.add_binding(CompileBinding::new(
        "y".to_string(),
        BindingLocatorEnvironment::Stack(0),
        3,
    ));
    let mut ctx = Context::new(global_record(0), JsObject::new());
    ctx.environments
        .push_function(function_compile, initialized_slots(JsValue::Undefined));
    ctx.environments.poison_until_last_function();
    ctx.environments.put_lexical_value(
        BindingLocatorEnvironment::Stack(0),
        3,
        JsValue::Integer(99),
    );

    let mut locator = BindingLocator::declarative("y".to_string(), 0, 1);
    ctx.find_runtime_binding(&mut locator);
    assert_eq!(locator.environment(), BindingLocatorEnvironment::Stack(0));
    assert_eq!(locator.binding_index(), 3);
    assert_eq!(ctx.get_binding(&locator), Some(JsValue::Integer(99)));
}

#[test]
fn derived_constructor_this_errors_until_initialized() {
    let mut stack = EnvironmentStack::new(global_record(0));
    let slots = FunctionSlots {
        this: JsValue::Undefined,
        this_status: ThisBindingStatus::Uninitialized,
        new_target: JsValue::Undefined,
        home_object: None,
    };
    stack.push_function(plain_compile_env(0), slots);
    assert_eq!(stack.get_this_binding(), Err(JsError::Reference));

    stack.pop();
    stack.push_function(plain_compile_env(0), initialized_slots(JsValue::Integer(5)));
    assert_eq!(stack.get_this_binding(), Ok(Some(JsValue::Integer(5))));
}

#[test]
fn private_name_shadowing_is_innermost_wins() {
    let mut stack = EnvironmentStack::new(global_record(0));
    stack.push_private(PrivateEnvironment::new(1, vec!["#x".to_string()]));
    stack.push_private(PrivateEnvironment::new(2, vec!["#x".to_string()]));

    let resolved = stack.resolve_private_identifier("#x".to_string()).unwrap();
    assert_eq!(resolved.description, "#x".to_string());
    assert_eq!(resolved.id, 2);

    stack.pop_private();
    let resolved = stack.resolve_private_identifier("#x".to_string()).unwrap();
    assert_eq!(resolved.id, 1);

    stack.pop_private();
    assert!(stack.resolve_private_identifier("#x".to_string()).is_none());
}

#[test]
fn len_counts_pushes_and_pops_and_pop_to_global_clears() {
    let mut stack = EnvironmentStack::new(global_record(0));
    assert_eq!(stack.len(), 0);
    stack.push_lexical(plain_compile_env(0));
    stack.push_object(JsObject::new());
    stack.push_function(plain_compile_env(0), initialized_slots(JsValue::Null));
    stack.push_module(plain_compile_env(0));
    assert_eq!(stack.len(), 4);
    stack.pop();
    assert_eq!(stack.len(), 3);
    let removed = stack.pop_to_global();
    assert_eq!(removed.len(), 3);
    assert_eq!(stack.len(), 0);
    stack.extend(removed);
    assert_eq!(stack.len(), 3);
    assert!(stack.stack[0].as_declarative().is_some());
    assert!(stack.stack[1].as_declarative().is_none());
    assert!(stack.stack[2].as_declarative().is_some());
    stack.truncate(1);
    assert_eq!(stack.len(), 1);
}

#[test]
fn locator_constructors_round_trip() {
    let locator = BindingLocator::declarative("n".to_string(), 4, 7);
    assert_eq!(locator.environment(), BindingLocatorEnvironment::Stack(4));
    assert_eq!(locator.binding_index(), 7);
    assert_eq!(locator.name(), &"n".to_string());
    assert!(!locator.is_global());

    let locator = BindingLocator::global("g".to_string());
    assert!(locator.is_global());
    assert_eq!(
        locator.environment(),
        BindingLocatorEnvironment::GlobalObject
    );

    let mut locator = BindingLocator::global("g".to_string());
    locator.set_environment(BindingLocatorEnvironment::Stack(0));
    assert_eq!(locator.environment(), BindingLocatorEnvironment::Stack(0));
    assert!(!locator.is_global());
}

fn poisoned_at(stack: &EnvironmentStack, index: usize) -> bool {
    match &stack.stack[index] {
        Environment::Declarative(d) => d.poisoned(),
        Environment::Object(_) => panic!("expected a declarative record"),
    }
}

#[test]
fn poison_until_last_function_stops_at_innermost_function() {
    let mut stack = EnvironmentStack::new(global_record(0));
    stack.push_lexical(plain_compile_env(0));
    stack.push_function(CompileTimeEnvironment::new(0, true), initialized_slots(JsValue::Null));
    stack.push_lexical(plain_compile_env(0));
    stack.push_lexical(plain_compile_env(0));

    stack.poison_until_last_function();

    assert!(!poisoned_at(&stack, 0));
    assert!(poisoned_at(&stack, 1));
    assert!(poisoned_at(&stack, 2));
    assert!(poisoned_at(&stack, 3));
    assert!(!stack.global().poisoned());
}

#[test]
fn poison_until_last_function_reaches_global_without_function() {
    let mut stack = EnvironmentStack::new(global_record(0));
    stack.push_lexical(plain_compile_env(0));
    stack.poison_until_last_function();
    assert!(poisoned_at(&stack, 0));
    assert!(stack.global().poisoned());
}

fn with_flag_at(stack: &EnvironmentStack, index: usize) -> bool {
    match &stack.stack[index] {
        Environment::Declarative(d) => d.with(),
        Environment::Object(_) => panic!("expected a declarative record"),
    }
}

#[test]
fn push_lexical_sets_with_over_object_environment() {
    let mut stack = EnvironmentStack::new(global_record(0));
    stack.push_lexical(plain_compile_env(0));
    assert!(!with_flag_at(&stack, 0));

    stack.push_object(JsObject::new());
    stack.push_lexical(plain_compile_env(0));
    assert!(with_flag_at(&stack, 2));

    // A record created under one keeps inheriting the flag.
    stack.push_lexical(plain_compile_env(0));
    assert!(with_flag_at(&stack, 3));
}

#[test]
fn get_this_environment_skips_arrow_functions() {
    let mut stack = EnvironmentStack::new(global_record(0));
    stack.push_function(plain_compile_env(0), initialized_slots(JsValue::Integer(7)));
    let arrow = FunctionSlots {
        this: JsValue::Undefined,
        this_status: ThisBindingStatus::Lexical,
        new_target: JsValue::Undefined,
        home_object: None,
    };
    stack.push_function(plain_compile_env(0), arrow);
    stack.push_lexical(plain_compile_env(0));

    match stack.get_this_environment() {
        DeclarativeEnvironmentKind::Function(slots) => {
            assert_eq!(slots.this, JsValue::Integer(7));
        }
        _ => panic!("expected the outer function environment"),
    }
}

#[test]
fn get_this_environment_defaults_to_global() {
    let mut stack = EnvironmentStack::new(global_record(0));
    stack.push_lexical(plain_compile_env(0));
    assert!(matches!(
        stack.get_this_environment(),
        DeclarativeEnvironmentKind::Global { .. }
    ));
}

#[test]
fn put_lexical_value_then_get_binding_round_trips() {
    let mut ctx = Context::new(global_record(0), JsObject::new());
    ctx.environments.push_lexical(plain_compile_env(2));
    ctx.environments.put_lexical_value(
        BindingLocatorEnvironment::Stack(0),
        1,
        JsValue::Boolean(true),
    );
    let locator = BindingLocator::declarative("b".to_string(), 0, 1);
    assert_eq!(ctx.get_binding(&locator), Some(JsValue::Boolean(true)));
}

#[test]
fn put_value_if_uninitialized_first_write_wins() {
    let mut ctx = Context::new(global_record(0), JsObject::new());
    ctx.environments.push_lexical(plain_compile_env(1));
    ctx.environments.put_value_if_uninitialized(
        BindingLocatorEnvironment::Stack(0),
        0,
        JsValue::Integer(10),
    );
    ctx.environments.put_value_if_uninitialized(
        BindingLocatorEnvironment::Stack(0),
        0,
        JsValue::Integer(20),
    );
    let locator = BindingLocator::declarative("v".to_string(), 0, 0);
    assert_eq!(ctx.get_binding(&locator), Some(JsValue::Integer(10)));
}

#[test]
fn find_runtime_binding_is_noop_on_clean_innermost_scope() {
    let mut ctx = Context::new(global_record(0), JsObject::new());
    ctx.environments.push_lexical(plain_compile_env(1));
    let mut locator = BindingLocator::declarative("q".to_string(), 0, 0);
    ctx.find_runtime_binding(&mut locator);
    assert_eq!(locator.environment(), BindingLocatorEnvironment::Stack(0));
    assert_eq!(locator.binding_index(), 0);
    ctx.find_runtime_binding(&mut locator);
    assert_eq!(locator.environment(), BindingLocatorEnvironment::Stack(0));
    assert_eq!(locator.binding_index(), 0);
}

#[test]
fn this_from_object_environment_binding_finds_the_with_object() {
    let mut ctx = Context::new(global_record(0), JsObject::new());
    ctx.environments.push_object(object_with("f", JsValue::Integer(3)));
    ctx.environments.push_lexical(plain_compile_env(0));

    let locator = BindingLocator::global("f".to_string());
    let this_object = ctx.this_from_object_environment_binding(&locator);
    let obj = this_object.expect("the object environment should capture the name");
    assert!(obj.has_property(&"f".to_string()));

    let locator = BindingLocator::global("absent".to_string());
    assert!(ctx.this_from_object_environment_binding(&locator).is_none());
}

#[test]
fn this_from_object_environment_binding_honours_unscopables() {
    let mut ctx = Context::new(global_record(0), JsObject::new());
    let mut obj = object_with("f", JsValue::Integer(3));
    obj.add_unscopable("f".to_string());
    ctx.environments.push_object(obj);
    ctx.environments.push_lexical(plain_compile_env(0));

    let locator = BindingLocator::global("f".to_string());
    assert!(ctx.this_from_object_environment_binding(&locator).is_none());
}

#[test]
fn set_binding_writes_global_object_and_object_environments() {
    let mut ctx = Context::new(global_record(0), JsObject::new());
    let locator = BindingLocator::global("g".to_string());
    ctx.set_binding(&locator, JsValue::Integer(8), true);
    assert_eq!(ctx.get_binding(&locator), Some(JsValue::Integer(8)));
    assert!(ctx.is_initialized_binding(&locator));

    ctx.environments.push_object(JsObject::new());
    let mut stack_locator = BindingLocator::global("s".to_string());
    stack_locator.set_environment(BindingLocatorEnvironment::Stack(0));
    ctx.set_binding(&stack_locator, JsValue::Integer(9), false);
    assert_eq!(ctx.get_binding(&stack_locator), Some(JsValue::Integer(9)));
}

#[test]
fn get_binding_on_missing_object_property_is_undefined() {
    let mut ctx = Context::new(global_record(0), JsObject::new());
    ctx.environments.push_object(JsObject::new());
    let mut locator = BindingLocator::global("nothing".to_string());
    locator.set_environment(BindingLocatorEnvironment::Stack(0));
    assert_eq!(ctx.get_binding(&locator), Some(JsValue::Undefined));
    assert!(!ctx.is_initialized_binding(&locator));
}

#[test]
fn delete_binding_refuses_declarative_and_deletes_object_properties() {
    let mut ctx = Context::new(global_record(1), JsObject::new());
    let locator = global_decl_locator("d", 0);
    assert!(!ctx.delete_binding(&locator));

    let global_locator = BindingLocator::global("gp".to_string());
    ctx.set_binding(&global_locator, JsValue::Integer(1), false);
    assert!(ctx.delete_binding(&global_locator));
    assert_eq!(ctx.get_binding(&global_locator), None);

    ctx.environments.push_object(object_with("op", JsValue::Integer(2)));
    let mut object_locator = BindingLocator::global("op".to_string());
    object_locator.set_environment(BindingLocatorEnvironment::Stack(0));
    assert!(ctx.delete_binding(&object_locator));
    assert_eq!(ctx.get_binding(&object_locator), Some(JsValue::Undefined));

    ctx.environments.push_lexical(plain_compile_env(1));
    let lexical_locator = BindingLocator::declarative("dl".to_string(), 1, 0);
    assert!(!ctx.delete_binding(&lexical_locator));
}

#[test]
fn private_name_descriptions_deduplicates_top_down() {
    let mut stack = EnvironmentStack::new(global_record(0));
    stack.push_private(PrivateEnvironment::new(
        1,
        vec!["#a".to_string(), "#b".to_string()],
    ));
    stack.push_private(PrivateEnvironment::new(
        2,
        vec!["#b".to_string(), "#c".to_string()],
    ));
    let names = stack.private_name_descriptions();
    assert_eq!(
        names,
        vec!["#b".to_string(), "#c".to_string(), "#a".to_string()]
    );
}

#[test]
fn has_object_environment_sees_with_scopes() {
    let mut stack = EnvironmentStack::new(global_record(0));
    stack.push_lexical(plain_compile_env(0));
    assert!(!stack.has_object_environment());
    stack.push_object(JsObject::new());
    assert!(stack.has_object_environment());
}

#[test]
fn outer_function_environment_skips_blocks() {
    let mut stack = EnvironmentStack::new(global_record(0));
    assert!(matches!(
        stack.outer_function_environment().kind,
        DeclarativeEnvironmentKind::Global { .. }
    ));
    stack.push_function(plain_compile_env(0), initialized_slots(JsValue::Integer(6)));
    stack.push_lexical(plain_compile_env(0));
    match stack.outer_function_environment().kind {
        DeclarativeEnvironmentKind::Function(slots) => {
            assert_eq!(slots.this, JsValue::Integer(6));
        }
        _ => panic!("expected a function record"),
    }
}

#[test]
fn current_compile_environment_is_the_innermost_declarative() {
    let mut stack = EnvironmentStack::new(global_record(3));
    assert_eq!(stack.current_compile_environment().num_bindings(), 3);
    stack.push_lexical(plain_compile_env(5));
    stack.push_object(JsObject::new());
    assert_eq!(stack.current_compile_environment().num_bindings(), 5);
}

#[test]
fn current_declarative_ref_skips_object_environments() {
    let mut stack = EnvironmentStack::new(global_record(0));
    let current = stack.current_declarative_ref().unwrap();
    assert!(matches!(current.kind, DeclarativeEnvironmentKind::Global { .. }));

    stack.push_object(JsObject::new());
    let current = stack.current_declarative_ref().unwrap();
    assert!(matches!(current.kind, DeclarativeEnvironmentKind::Global { .. }));

    stack.push_lexical(plain_compile_env(2));
    let current = stack.current_declarative_ref().unwrap();
    assert!(matches!(current.kind, DeclarativeEnvironmentKind::Lexical));
    assert_eq!(current.num_slots(), 2);

    stack.push_object(JsObject::new());
    let current = stack.current_declarative_ref().unwrap();
    assert!(matches!(current.kind, DeclarativeEnvironmentKind::Lexical));
}

#[test]
fn get_this_binding_falls_back_to_the_global_record() {
    let global = DeclarativeEnvironment::new(
        DeclarativeEnvironmentKind::Global { global_this: JsValue::Integer(3) },
        CompileTimeEnvironment::new(0, false),
        false,
        false,
    );
    let mut stack = EnvironmentStack::new(global);
    assert_eq!(stack.get_this_binding(), Ok(Some(JsValue::Integer(3))));

    stack.push_lexical(plain_compile_env(0));
    assert_eq!(stack.get_this_binding(), Ok(Some(JsValue::Integer(3))));

    let arrow = FunctionSlots {
        this: JsValue::Undefined,
        this_status: ThisBindingStatus::Lexical,
        new_target: JsValue::Undefined,
        home_object: None,
    };
    stack.push_function(plain_compile_env(0), arrow);
    assert_eq!(stack.get_this_binding(), Ok(Some(JsValue::Integer(3))));
}

#[test]
fn module_records_provide_undefined_this() {
    let mut stack = EnvironmentStack::new(global_record(0));
    stack.push_module(plain_compile_env(0));
    assert_eq!(stack.get_this_binding(), Ok(Some(JsValue::Undefined)));
    assert!(matches!(
        stack.get_this_environment(),
        DeclarativeEnvironmentKind::Module
    ));
}

#[test]
fn replace_global_swaps_the_global_record() {
    let mut stack = EnvironmentStack::new(global_record(0));
    let replacement = DeclarativeEnvironment::new(
        DeclarativeEnvironmentKind::Global { global_this: JsValue::Integer(11) },
        CompileTimeEnvironment::new(2, false),
        false,
        false,
    );
    stack.replace_global(replacement);
    assert_eq!(stack.global().num_slots(), 2);
}

#[test]
fn compile_binding_round_trips_its_target() {
    let binding = CompileBinding::new(
        "z".to_string(),
        BindingLocatorEnvironment::Stack(6),
        9,
    );
    assert_eq!(binding.environment(), BindingLocatorEnvironment::Stack(6));
    assert_eq!(binding.binding_index(), 9);

    let binding = CompileBinding::new(
        "w".to_string(),
        BindingLocatorEnvironment::GlobalObject,
        0,
    );
    assert_eq!(binding.environment(), BindingLocatorEnvironment::GlobalObject);
}

#[test]
fn compile_environment_lookup_finds_first_match() {
    let mut compile = CompileTimeEnvironment::new(0, true);
    assert!(compile.get_binding(&"m".to_string()).is_none());
    compile.add_binding(CompileBinding::new(
        "m".to_string(),
        BindingLocatorEnvironment::Stack(1),
        0,
    ));
    compile.add_binding(CompileBinding::new(
        "m".to_string(),
        BindingLocatorEnvironment::Stack(2),
        5,
    ));
    let found = compile.get_binding(&"m".to_string()).unwrap();
    assert_eq!(found.environment(), BindingLocatorEnvironment::Stack(1));
    assert_eq!(found.binding_index(), 0);
}

#[test]
fn object_model_set_get_and_unscopables() {
    let mut obj = JsObject::new();
    assert!(!obj.has_property(&"p".to_string()));
    assert_eq!(obj.get(&"p".to_string()), JsValue::Undefined);

    obj.set("p".to_string(), JsValue::Integer(1), false);
    obj.set("p".to_string(), JsValue::Integer(2), true);
    assert_eq!(obj.try_get(&"p".to_string()), Some(JsValue::Integer(2)));

    assert!(!obj.is_unscopable(&"p".to_string()));
    obj.add_unscopable("p".to_string());
    assert!(obj.is_unscopable(&"p".to_string()));

    assert!(obj.delete(&"p".to_string()));
    assert!(!obj.has_property(&"p".to_string()));
    assert!(obj.delete(&"p".to_string()));
}
