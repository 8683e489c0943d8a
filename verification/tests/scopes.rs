use rn_lang::class::ClassType;
use rn_lang::errors::{BuildErrorKind, LangError};
use rn_lang::module::ModuleUID;
use rn_lang::module_scope::{ParserModuleScope, ScopeGetResult};
use rn_lang::parser_scope::ParserScope;
use rn_lang::parsing_types::{ParsableFunctionType, ParsableType};
use rn_lang::type_check::TypeScope;
use rn_lang::types::{ClassKind, ClassRef, FunctionType, TypeKind};

fn point_class(module: u64) -> ClassType {
    ClassType { name: "Point".to_string(), module: ModuleUID(module), kind: ClassKind::Normal, fields: vec![], methods: vec![] }
}

#[test]
fn module_scope_get_after_declare() {
    let mut scope = ParserModuleScope::new(ModuleUID(7));
    assert_eq!(scope.get(&"x".to_string()), ScopeGetResult::NotFound);
    scope.declare_var("x".to_string(), TypeKind::Int);
    assert_eq!(scope.get(&"x".to_string()), ScopeGetResult::Ref(ModuleUID(7), TypeKind::Int));
    scope.declare_func("f".to_string(), FunctionType(vec![TypeKind::Int], Box::new(TypeKind::Bool)));
    assert_eq!(
        scope.get(&"f".to_string()),
        ScopeGetResult::Ref(ModuleUID(7), TypeKind::Function(FunctionType(vec![TypeKind::Int], Box::new(TypeKind::Bool))))
    );
    assert_eq!(scope.get(&"x".to_string()), ScopeGetResult::Ref(ModuleUID(7), TypeKind::Int));
}

#[test]
fn module_scope_later_declaration_wins() {
    let mut scope = ParserModuleScope::new(ModuleUID(1));
    scope.declare_var("x".to_string(), TypeKind::Int);
    scope.declare_external_var("x".to_string(), ModuleUID(2), TypeKind::String);
    assert_eq!(scope.get(&"x".to_string()), ScopeGetResult::Ref(ModuleUID(2), TypeKind::String));
    scope.declare_external_func("g".to_string(), ModuleUID(3), FunctionType(vec![], Box::new(TypeKind::Nothing)));
    assert_eq!(
        scope.get(&"g".to_string()),
        ScopeGetResult::Ref(ModuleUID(3), TypeKind::Function(FunctionType(vec![], Box::new(TypeKind::Nothing))))
    );
}

#[test]
fn module_scope_classes() {
    let mut scope = ParserModuleScope::new(ModuleUID(1));
    scope.declare_class("Point".to_string(), point_class(1));
    assert_eq!(scope.get(&"Point".to_string()), ScopeGetResult::Class(ModuleUID(1), point_class(1)));
    scope.declare_external_class("Shape".to_string(), ModuleUID(9), point_class(9));
    assert_eq!(scope.get(&"Shape".to_string()), ScopeGetResult::Class(ModuleUID(9), point_class(9)));
    assert_eq!(scope.get_class(&"Point".to_string()), Ok(point_class(1)));
    assert_eq!(scope.get_class(&"nope".to_string()), Err(LangError::Build { kind: BuildErrorKind::UnexpectedError }));
}

#[test]
fn converting_declared_types() {
    let mut scope = ParserModuleScope::new(ModuleUID(1));
    scope.declare_class("Point".to_string(), point_class(1));
    let t = ParsableType::Vector(Box::new(ParsableType::Custom("Point".to_string())));
    assert_eq!(
        scope.convert_parsable_type(&t),
        Ok(TypeKind::Vector(Box::new(TypeKind::Class(ClassRef { name: "Point".to_string(), module: ModuleUID(1) }))))
    );
    let f = ParsableFunctionType(vec![ParsableType::Int, ParsableType::Custom("Point".to_string())], Box::new(ParsableType::Bool));
    assert_eq!(
        scope.convert_parsable_func_type(&f),
        Ok(FunctionType(
            vec![TypeKind::Int, TypeKind::Class(ClassRef { name: "Point".to_string(), module: ModuleUID(1) })],
            Box::new(TypeKind::Bool)
        ))
    );
    let bad = ParsableType::Function(ParsableFunctionType(vec![ParsableType::Custom("Nope".to_string())], Box::new(ParsableType::Int)));
    assert_eq!(scope.convert_parsable_type(&bad), Err(LangError::Build { kind: BuildErrorKind::UnexpectedError }));
}

#[test]
fn converting_a_variable_name_is_refused() {
    let mut scope = ParserModuleScope::new(ModuleUID(1));
    scope.declare_var("Point".to_string(), TypeKind::Int);
    assert!(scope.convert_parsable_type(&ParsableType::Custom("Point".to_string())).is_err());
}

#[test]
fn parser_scope_shadowing_and_closing() {
    let mut module = ParserModuleScope::new(ModuleUID(5));
    module.declare_var("g".to_string(), TypeKind::Bool);
    let mut scope = ParserScope::new_module_child(&module);
    assert_eq!(scope.get(&"g".to_string()), ScopeGetResult::Ref(ModuleUID(5), TypeKind::Bool));
    scope.declare("a".to_string(), TypeKind::Int);
    assert_eq!(scope.get(&"a".to_string()), ScopeGetResult::Ref(ModuleUID(5), TypeKind::Int));
    scope.new_child();
    assert_eq!(scope.get(&"a".to_string()), ScopeGetResult::Ref(ModuleUID(5), TypeKind::Int));
    scope.declare("a".to_string(), TypeKind::String);
    scope.declare("g".to_string(), TypeKind::Float);
    assert_eq!(scope.get(&"a".to_string()), ScopeGetResult::Ref(ModuleUID(5), TypeKind::String));
    assert_eq!(scope.get(&"g".to_string()), ScopeGetResult::Ref(ModuleUID(5), TypeKind::Float));
    let frame = scope.close_child();
    assert_eq!(frame.eval_type, TypeKind::Nothing);
    assert_eq!(scope.get(&"a".to_string()), ScopeGetResult::Ref(ModuleUID(5), TypeKind::Int));
    assert_eq!(scope.get(&"g".to_string()), ScopeGetResult::Ref(ModuleUID(5), TypeKind::Bool));
    assert_eq!(scope.get(&"zzz".to_string()), ScopeGetResult::NotFound);
}

#[test]
fn parser_scope_many_names_go_past_the_inline_storage() {
    let module = ParserModuleScope::new(ModuleUID(5));
    let mut scope = ParserScope::new_module_child(&module);
    for i in 0..40 {
        scope.declare(format!("v{}", i), if i % 2 == 0 { TypeKind::Int } else { TypeKind::Bool });
    }
    assert_eq!(scope.get(&"v0".to_string()), ScopeGetResult::Ref(ModuleUID(5), TypeKind::Int));
    assert_eq!(scope.get(&"v39".to_string()), ScopeGetResult::Ref(ModuleUID(5), TypeKind::Bool));
    assert_eq!(scope.get(&"v40".to_string()), ScopeGetResult::NotFound);
}

#[test]
fn parser_scope_eval_type() {
    let module = ParserModuleScope::new(ModuleUID(5));
    let mut scope = ParserScope::new_module_child(&module);
    scope.new_child();
    scope.set_eval_type(TypeKind::Int);
    let frame = scope.close_child();
    assert_eq!(frame.eval_type, TypeKind::Int);
}

#[test]
fn type_scope_lookups() {
    let mut scope = TypeScope::new_root();
    assert_eq!(scope.get_type(&"x".to_string()), TypeKind::Unknown);
    scope.declare_type("x".to_string(), TypeKind::Int);
    assert_eq!(scope.get_type(&"x".to_string()), TypeKind::Int);
    scope.new_child();
    assert_eq!(scope.get_type(&"x".to_string()), TypeKind::Int);
    scope.declare_type("x".to_string(), TypeKind::String);
    assert_eq!(scope.get_type(&"x".to_string()), TypeKind::String);
    scope.close_child();
    assert_eq!(scope.get_type(&"x".to_string()), TypeKind::Int);
    scope.new_child_with_ret(TypeKind::Bool);
    assert_eq!(scope.frames[scope.frames.len() - 1].ret_type, TypeKind::Bool);
}
