use std::sync::Arc;

use rn_lang::lang_value::LangValue;
use rn_lang::module::ModuleUID;
use rn_lang::module_store::ModuleStore;
use rn_lang::runtime_scope::{InterpreterModule, ModuleScope, Scope};

fn int_of(v: &Option<LangValue>) -> Option<i32> {
    match v {
        Some(LangValue::Int(i)) => Some(*i),
        _ => None,
    }
}

fn module_with(uid: u64, name: &str, value: i32) -> InterpreterModule {
    let mut scope = ModuleScope::new(ModuleUID(uid));
    scope.set_var(name.to_string(), LangValue::Int(value));
    InterpreterModule { uid: ModuleUID(uid), scope: Arc::new(scope) }
}

#[test]
fn store_get_after_insert() {
    let mut store: ModuleStore<u32> = ModuleStore::new();
    assert_eq!(store.len(), 0);
    assert!(store.get(ModuleUID(1)).is_none());
    store.insert(ModuleUID(1), 10);
    store.insert(ModuleUID(2), 20);
    assert_eq!(store.len(), 2);
    assert_eq!(store.get(ModuleUID(1)).map(|m| *m), Some(10));
    assert_eq!(store.get(ModuleUID(2)).map(|m| *m), Some(20));
    store.insert(ModuleUID(1), 11);
    assert_eq!(store.len(), 2);
    assert_eq!(store.get(ModuleUID(1)).map(|m| *m), Some(11));
    assert!(store.get(ModuleUID(3)).is_none());
}

#[test]
fn module_scope_set_and_get() {
    let mut scope = ModuleScope::new(ModuleUID(5));
    assert!(scope.get_var(&"x".to_string()).is_none());
    scope.set_var("x".to_string(), LangValue::Int(3));
    assert_eq!(int_of(&scope.get_var(&"x".to_string())), Some(3));
    scope.set_var("x".to_string(), LangValue::Int(4));
    assert_eq!(int_of(&scope.get_var(&"x".to_string())), Some(4));
    assert!(scope.get_var(&"y".to_string()).is_none());
}

#[test]
fn module_scope_searches_other_modules() {
    let mut store: ModuleStore<InterpreterModule> = ModuleStore::new();
    store.insert(ModuleUID(2), module_with(2, "shared", 42));
    let mut own = ModuleScope::new(ModuleUID(1));
    own.set_var("local".to_string(), LangValue::Int(1));

    assert_eq!(int_of(&own.search_var(&store, ModuleUID(1), &"local".to_string())), Some(1));
    assert!(own.search_var(&store, ModuleUID(1), &"shared".to_string()).is_none());
    assert_eq!(int_of(&own.search_var(&store, ModuleUID(2), &"shared".to_string())), Some(42));
    assert!(own.search_var(&store, ModuleUID(2), &"local".to_string()).is_none());
    assert!(own.search_var(&store, ModuleUID(3), &"shared".to_string()).is_none());
}

#[test]
fn scope_declare_get_and_blocks() {
    let store: ModuleStore<InterpreterModule> = ModuleStore::new();
    let mut module = ModuleScope::new(ModuleUID(1));
    module.set_var("global".to_string(), LangValue::Int(100));
    let mut scope = Scope::new_module_child(Arc::new(module));

    assert_eq!(int_of(&scope.get_var(&store, ModuleUID(1), &"global".to_string())), Some(100));
    assert!(scope.get_var(&store, ModuleUID(1), &"a".to_string()).is_none());

    scope.declare_var("a".to_string(), LangValue::Int(1));
    assert_eq!(int_of(&scope.get_var(&store, ModuleUID(1), &"a".to_string())), Some(1));

    scope.new_child();
    assert_eq!(int_of(&scope.get_var(&store, ModuleUID(1), &"a".to_string())), Some(1));
    scope.declare_var("a".to_string(), LangValue::Int(2));
    assert_eq!(int_of(&scope.get_var(&store, ModuleUID(1), &"a".to_string())), Some(2));
    scope.close_child();
    assert_eq!(int_of(&scope.get_var(&store, ModuleUID(1), &"a".to_string())), Some(1));
}

#[test]
fn scope_set_var_reaches_outer_blocks() {
    let store: ModuleStore<InterpreterModule> = ModuleStore::new();
    let mut scope = Scope::new();
    scope.declare_var("a".to_string(), LangValue::Int(1));

    // The current block declares it.
    assert!(scope.set_var(&"a".to_string(), LangValue::Int(5)));
    assert_eq!(int_of(&scope.get_var(&store, ModuleUID(0), &"a".to_string())), Some(5));

    // Only an outer block declares it: the outer block is changed.
    scope.new_child();
    assert!(scope.set_var(&"a".to_string(), LangValue::Int(6)));
    scope.close_child();
    assert_eq!(int_of(&scope.get_var(&store, ModuleUID(0), &"a".to_string())), Some(6));

    // An inner block answers `true` even for a name that no block declares.
    scope.new_child();
    assert!(scope.set_var(&"missing".to_string(), LangValue::Int(1)));
    assert!(scope.get_var(&store, ModuleUID(0), &"missing".to_string()).is_none());
    scope.close_child();

    // With one block, a name that it lacks is refused.
    assert!(!scope.set_var(&"missing".to_string(), LangValue::Int(1)));
}

#[test]
fn scope_set_var_leaves_module_variables() {
    let store: ModuleStore<InterpreterModule> = ModuleStore::new();
    let mut module = ModuleScope::new(ModuleUID(1));
    module.set_var("global".to_string(), LangValue::Int(100));
    let mut scope = Scope::new_module_child(Arc::new(module));
    assert!(!scope.set_var(&"global".to_string(), LangValue::Int(1)));
    assert_eq!(int_of(&scope.get_var(&store, ModuleUID(1), &"global".to_string())), Some(100));
}
