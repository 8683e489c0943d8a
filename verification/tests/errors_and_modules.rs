use std::collections::hash_map::DefaultHasher;
use std::hash::{Hash, Hasher};
use rn_lang::config::Config;
use rn_lang::errors::{format_build, format_error, format_load, format_runtime, type_debug, BuildErrorKind, LangError, LoadErrorKind, ParserErrorKind, RuntimeErrorKind, TokenizerErrorKind};
use rn_lang::types::ClassRef;
use rn_lang::module::{Class, ClassDefinition, FunctionDefinition, Module, ModuleFeature, ModuleIdentifier, ModuleUID, VariableDefinition};
use rn_lang::class::ClassType;
use rn_lang::tokens::{LiteralKind, Token, TokenKind};
use rn_lang::types::{ClassKind, FunctionType, TypeKind};

#[test]
fn build_messages() {
    assert_eq!(format_build(BuildErrorKind::UnexpectedError), "Unexpected error");
    assert_eq!(format_build(BuildErrorKind::Unsupported("closures".to_string())), "Unsupported feature (closures)");
    assert_eq!(format_build(BuildErrorKind::FuncNotFound("main".to_string())), "Function not found (main)");
    assert_eq!(format_build(BuildErrorKind::ModuleNotFound(ModuleUID(42))), "Module not found (ModuleUID(42))");
    assert_eq!(format_build(BuildErrorKind::InvalidStackType), "Invalid stack type");
    assert_eq!(format_build(BuildErrorKind::InvalidStackSize(3, 10)), "Expected 3 items on the stack found 10");
}

#[test]
fn load_messages() {
    assert_eq!(format_load(LoadErrorKind::ModuleNotFound("util".to_string())), "Module not found (util)");
    assert_eq!(format_load(LoadErrorKind::LoadModuleError("net".to_string())), "Erro while loading module: net");
}

#[test]
fn runtime_messages() {
    assert_eq!(format_runtime(RuntimeErrorKind::UnexpectedError("boom".to_string())), "Unexpected error: boom");
    assert_eq!(format_runtime(RuntimeErrorKind::CantConvertValue), "Can't convert value");
    assert_eq!(
        format_runtime(RuntimeErrorKind::FuncInvalidParamCount(2, 0)),
        "Incorrect number of parameters, expected 2 found 0"
    );
    assert_eq!(
        format_runtime(RuntimeErrorKind::ExtFuncParamCount(1, 12)),
        "Incorrect number of parameters in external function, expected 1 found 12"
    );
    assert_eq!(format_runtime(RuntimeErrorKind::ExtFuncParamType), "Wrong type in external function paramter");
    assert_eq!(format_runtime(RuntimeErrorKind::VarNotFound("x".to_string())), "Variable not found (x)");
    assert_eq!(format_runtime(RuntimeErrorKind::ValueNotNumber), "Variable is not a number");
    assert_eq!(format_runtime(RuntimeErrorKind::ValueNotFunc), "Variable is not a function");
    assert_eq!(format_runtime(RuntimeErrorKind::ModuleNotFound(ModuleUID(0))), "Module not found (ModuleUID(0))");
}

#[test]
fn module_uid_from_string_is_the_default_hash() {
    let mut hasher = DefaultHasher::new();
    "src/main".to_string().hash(&mut hasher);
    assert_eq!(ModuleUID::from_string("src/main".to_string()).0, hasher.finish());
}

#[test]
fn module_uid_from_string_is_deterministic() {
    let a = ModuleUID::from_string("player/movement".to_string());
    let b = ModuleUID::from_string("player/movement".to_string());
    let c = ModuleUID::from_string("player/combat".to_string());
    assert_eq!(a, b);
    assert_ne!(a, c);
}

#[test]
fn error_constructors() {
    let t = Token::new(TokenKind::Return, 4, 10);
    match LangError::new_parser_unexpected_token(&t) {
        LangError::Parser { token, kind } => {
            assert_eq!(token, t);
            assert_eq!(kind, ParserErrorKind::UnexpectedToken);
        },
        _ => panic!("not a parser error"),
    }
    match LangError::new_parser_end_of_file() {
        LangError::Parser { kind, .. } => assert_eq!(kind, ParserErrorKind::UnexpectedEndOfFile),
        _ => panic!("not a parser error"),
    }
    match LangError::wrong_type(&t, &TypeKind::Int, &TypeKind::Bool) {
        LangError::Parser { kind, .. } => assert_eq!(kind, ParserErrorKind::WrontType(TypeKind::Int, TypeKind::Bool)),
        _ => panic!("not a parser error"),
    }
}

fn sample_module() -> Module {
    let class = ClassType {
        name: "Point".to_string(),
        module: ModuleUID(1),
        kind: ClassKind::Normal,
        fields: vec![],
        methods: vec![("len".to_string(), FunctionType(vec![], Box::new(TypeKind::Int)))],
    };
    Module {
        id: ModuleIdentifier("main".to_string()),
        uid: ModuleUID(1),
        imports: vec![],
        features: vec![
            ("x".to_string(), ModuleFeature::Variable(VariableDefinition { data: Some(LiteralKind::Int(1)), metadata: TypeKind::Int })),
            ("f".to_string(), ModuleFeature::Function(FunctionDefinition {
                data: None,
                metadata: FunctionType(vec![TypeKind::Int], Box::new(TypeKind::Nothing)),
            })),
            ("Point".to_string(), ModuleFeature::Class(ClassDefinition { data: Class::new(vec![]), metadata: class })),
            ("x".to_string(), ModuleFeature::Variable(VariableDefinition { data: Some(LiteralKind::Int(2)), metadata: TypeKind::Int })),
        ],
    }
}

#[test]
fn module_features_by_name() {
    let m = sample_module();
    let x = m.get_var_feature(&"x".to_string()).unwrap();
    assert_eq!(x.data, Some(LiteralKind::Int(2)));
    assert!(m.get_func_feature(&"x".to_string()).is_none());
    assert!(m.get_func_feature(&"f".to_string()).is_some());
    assert!(m.get_class_feature(&"Point".to_string()).is_some());
    assert!(m.get_var_feature(&"missing".to_string()).is_none());
}

#[test]
fn class_method_definition() {
    let m = sample_module();
    let class = m.get_class_feature(&"Point".to_string()).unwrap();
    let def = class.get_method_def(&"len".to_string()).unwrap();
    assert_eq!(def.metadata, FunctionType(vec![], Box::new(TypeKind::Int)));
    assert!(def.data.is_none());
    assert!(class.get_method_def(&"area".to_string()).is_none());
}

#[test]
fn default_config() {
    let c = Config::default();
    assert_eq!(c.name, "Project name");
    assert_eq!(c.src_dir, "src");
    assert_eq!(c.main, "main");
    assert_eq!(c.build_path, "output.wasm");
}

#[test]
fn type_text_is_the_debug_text() {
    let samples = vec![
        TypeKind::Unknown,
        TypeKind::Int,
        TypeKind::Float,
        TypeKind::String,
        TypeKind::Bool,
        TypeKind::Nothing,
        TypeKind::Vector(Box::new(TypeKind::Vector(Box::new(TypeKind::Int)))),
        TypeKind::Function(FunctionType(vec![], Box::new(TypeKind::Nothing))),
        TypeKind::Function(FunctionType(vec![TypeKind::Int, TypeKind::Bool, TypeKind::String], Box::new(TypeKind::Float))),
        TypeKind::Class(ClassRef { name: "Point".to_string(), module: ModuleUID(77) }),
    ];
    for t in &samples {
        assert_eq!(type_debug(t), format!("{:?}", t));
    }
}

#[test]
fn parser_error_with_its_place() {
    let source = "var x = 1\nvar y int = \"s\"\n".to_string();
    let err = LangError::Parser {
        token: Token::new(TokenKind::Variable, 10, 13),
        kind: ParserErrorKind::WrontType(TypeKind::Int, TypeKind::String),
    };
    assert_eq!(format_error(&source, err), "Error from 2:1 to 2:4\nExpected type Int, instead found String");
    let err = LangError::Parser { token: Token::new(TokenKind::NewLine, 4, 5), kind: ParserErrorKind::InvalidArgCount(2) };
    assert_eq!(format_error(&source, err), "Error from 1:5 to 1:6\nExpected 2 parameters");
}

#[test]
fn end_of_file_error_place() {
    let source = "ab\nc".to_string();
    let err = LangError::new_parser_end_of_file();
    assert_eq!(format_error(&source, err), "Error from 2:2 to 2:2\nUnexpected end of file");
}

#[test]
fn tokenizer_error_with_its_place() {
    let source = "x = 1.2.3".to_string();
    let err = LangError::Tokenizer {
        token: Token::new(TokenKind::NewLine, 4, 9),
        kind: TokenizerErrorKind::FloatParse("1.2.3".to_string()),
    };
    assert_eq!(format_error(&source, err), "Error from 1:5 to 1:10\nError while parsing float literal (1.2.3)");
}

#[test]
fn other_errors_are_their_messages() {
    let source = String::new();
    assert_eq!(format_error(&source, LangError::Build { kind: BuildErrorKind::InvalidStackType }), "Invalid stack type");
    assert_eq!(
        format_error(&source, LangError::Load { kind: LoadErrorKind::ModuleNotFound("m".to_string()) }),
        "Module not found (m)"
    );
    assert_eq!(format_error(&source, LangError::Runtime { kind: RuntimeErrorKind::ValueNotFunc }), "Variable is not a function");
}
