use rn_lang::errors::{LangError, LoadErrorKind, ParserErrorKind};
use rn_lang::module::{ModuleFeature, ModuleIdentifier, ModuleUID};
use rn_lang::module_initializer::ModuleInitializer;
use rn_lang::module_loader::{GlobalDeclarationKind, ModuleLoader, ModuleLoaderContext};
use rn_lang::module_parser::{ModuleImporter, ModuleParser};
use rn_lang::module_preparser::ModulePreParser;
use rn_lang::parsing_types::ParsableType;
use rn_lang::tokens::{LiteralKind, Token, TokenKind, Tokens};
use rn_lang::types::{FunctionType, MathOperatorKind, OperatorKind, ParenthesisKind, ParenthesisState, PrimitiveType, TypeKind};
use rn_lang::types::ParenthesisKind::{Curly, Round};
use rn_lang::types::ParenthesisState::{Close, Open};
use std::sync::Arc;

fn tok(kind: TokenKind) -> Token {
    Token::new(kind, 0, 0)
}

fn sym(s: &str) -> TokenKind {
    TokenKind::Symbol(s.to_string())
}

fn tokens(kinds: Vec<TokenKind>) -> Tokens {
    Tokens::new(kinds.into_iter().map(tok).collect())
}

fn paren(kind: ParenthesisKind, state: ParenthesisState) -> TokenKind {
    TokenKind::Parenthesis(kind, state)
}

fn int_type() -> TokenKind {
    TokenKind::Type(PrimitiveType::Int)
}

struct NameImporter {
    known: Vec<String>,
}

impl ModuleImporter for NameImporter {
    fn resolves(&self, identifier: ModuleIdentifier, uid: Option<ModuleUID>) -> bool {
        self.get_unique_identifier(&identifier) == uid
    }

    fn get_unique_identifier(&self, identifier: &ModuleIdentifier) -> Option<ModuleUID> {
        if self.known.contains(&identifier.0) {
            Some(ModuleUID::from_string(identifier.0.clone()))
        } else {
            None
        }
    }

    fn load_module(&self, _identifier: &ModuleIdentifier, _declaration: bool) -> Option<String> {
        None
    }
}

/// var x int = 5
/// func add(a int, b int) int { return a + b }
/// class Point { px int  func get() int { return self.px } }
fn main_tokens() -> Tokens {
    tokens(vec![
        TokenKind::Variable, sym("x"), int_type(), TokenKind::Operator(OperatorKind::Assign),
        TokenKind::Literal(LiteralKind::Int(5)), TokenKind::NewLine,
        TokenKind::Function, sym("add"), paren(Round, Open), sym("a"), int_type(), TokenKind::Operator(OperatorKind::Comma),
        sym("b"), int_type(), paren(Round, Close), int_type(), paren(Curly, Open),
        TokenKind::Return, sym("a"), TokenKind::MathOperator(MathOperatorKind::Plus), sym("b"), TokenKind::NewLine,
        paren(Curly, Close), TokenKind::NewLine,
        TokenKind::Class, sym("Point"), paren(Curly, Open),
        sym("px"), int_type(), TokenKind::NewLine,
        TokenKind::Function, sym("get"), paren(Round, Open), paren(Round, Close), int_type(), paren(Curly, Open),
        TokenKind::Return, sym("self"), TokenKind::Operator(OperatorKind::Dot), sym("px"), paren(Curly, Close), TokenKind::NewLine,
        paren(Curly, Close), TokenKind::NewLine,
    ])
}

#[test]
fn prepare_module_reads_declarations() {
    let uid = ModuleUID::from_string("main".to_string());
    let m = ModulePreParser::prepare_module(main_tokens(), ModuleIdentifier("main".to_string()), uid).unwrap();
    assert_eq!(m.uid, uid);
    assert_eq!(m.variables.len(), 1);
    assert_eq!(m.variables[0].0, "x");
    assert_eq!(m.variables[0].1.type_kind, ParsableType::Int);
    assert_eq!(m.variables[0].1.body.map(|b| b.0), Some(4));
    assert_eq!(m.functions.len(), 1);
    assert_eq!(m.functions[0].0, "add");
    assert_eq!(m.functions[0].1.params, vec!["a".to_string(), "b".to_string()]);
    assert_eq!(m.functions[0].1.body.map(|b| b.0), Some(17));
    assert_eq!(m.classes.len(), 1);
    assert_eq!(m.classes[0].0, "Point");
    assert_eq!(m.classes[0].1.fields.len(), 1);
    assert_eq!(m.classes[0].1.methods.len(), 1);
}

#[test]
fn prepare_module_refuses_methods_in_data_classes() {
    let t = tokens(vec![
        TokenKind::Class, TokenKind::Data, sym("P"), paren(Curly, Open),
        TokenKind::Function, sym("f"), paren(Round, Open), paren(Round, Close), paren(Curly, Close),
    ]);
    match ModulePreParser::prepare_module(t, ModuleIdentifier("m".to_string()), ModuleUID(1)) {
        Err(LangError::Parser { kind: ParserErrorKind::Unsupported(_), .. }) => {},
        _ => panic!("expected an unsupported feature"),
    }
}

#[test]
fn parse_module_defines_everything() {
    let uid = ModuleUID::from_string("main".to_string());
    let m = ModulePreParser::prepare_module(main_tokens(), ModuleIdentifier("main".to_string()), uid).unwrap();
    let mut parser = ModuleParser::new(vec![m]);
    let importer = NameImporter { known: vec![] };
    let module = parser.parse_module(uid, &importer).unwrap();
    assert_eq!(module.uid, uid);
    assert_eq!(module.id.0, "main");
    assert_eq!(module.features.len(), 3);
    match &module.features[0].1 {
        ModuleFeature::Variable(v) => {
            assert_eq!(v.data, Some(LiteralKind::Int(5)));
            assert_eq!(v.metadata, TypeKind::Int);
        },
        _ => panic!("not a variable"),
    }
    match &module.features[1].1 {
        ModuleFeature::Function(f) => {
            assert_eq!(f.metadata, FunctionType(vec![TypeKind::Int, TypeKind::Int], Box::new(TypeKind::Int)));
            let data = f.data.as_ref().unwrap();
            assert_eq!(data.parameters, vec!["a".to_string(), "b".to_string()]);
            assert_eq!(data.body.len(), 1);
        },
        _ => panic!("not a function"),
    }
    match &module.features[2].1 {
        ModuleFeature::Class(c) => {
            assert_eq!(c.metadata.name, "Point");
            assert_eq!(c.data.methods.len(), 1);
            assert_eq!(c.data.methods[0].0, "get");
            let get = c.data.methods[0].1.data.as_ref().unwrap();
            assert!(get.method.is_some());
            assert_eq!(c.metadata.fields[0].1, TypeKind::Int);
        },
        _ => panic!("not a class"),
    }
    assert!(parser.modules[0].1.loaded);
}

#[test]
fn parse_module_of_unknown_identifier() {
    let mut parser = ModuleParser::new(vec![]);
    let importer = NameImporter { known: vec![] };
    match parser.parse_module(ModuleUID(99), &importer) {
        Err(LangError::Parser { token, kind: ParserErrorKind::UnexpectedError(_) }) => {
            assert_eq!(token, Token::new(TokenKind::NewLine, 0, 0));
        },
        _ => panic!("expected an error"),
    }
}

#[test]
fn parse_module_with_imports() {
    let lib_uid = ModuleUID::from_string("lib".to_string());
    let main_uid = ModuleUID::from_string("main".to_string());
    let lib = ModulePreParser::prepare_module(
        tokens(vec![TokenKind::Variable, sym("y"), TokenKind::Type(PrimitiveType::Bool), TokenKind::NewLine]),
        ModuleIdentifier("lib".to_string()),
        lib_uid,
    ).unwrap();
    let main = ModulePreParser::prepare_module(
        tokens(vec![TokenKind::Import, TokenKind::Literal(LiteralKind::String("lib".to_string())), TokenKind::NewLine]),
        ModuleIdentifier("main".to_string()),
        main_uid,
    ).unwrap();
    let mut parser = ModuleParser::new(vec![lib, main]);
    let module = parser.parse_module(main_uid, &NameImporter { known: vec!["lib".to_string()] }).unwrap();
    assert_eq!(module.imports, vec![lib_uid]);

    match parser.parse_module(main_uid, &NameImporter { known: vec![] }) {
        Err(LangError::Load { kind }) => assert_eq!(kind, LoadErrorKind::LoadModuleError("lib".to_string())),
        _ => panic!("expected a load error"),
    }
}

#[test]
fn parse_module_reports_a_wrong_variable_type() {
    let uid = ModuleUID(3);
    let m = ModulePreParser::prepare_module(
        tokens(vec![
            TokenKind::Variable, sym("x"), TokenKind::Type(PrimitiveType::String), TokenKind::Operator(OperatorKind::Assign),
            TokenKind::Literal(LiteralKind::Int(1)), TokenKind::NewLine,
        ]),
        ModuleIdentifier("m".to_string()),
        uid,
    ).unwrap();
    let mut parser = ModuleParser::new(vec![m]);
    match parser.parse_module(uid, &NameImporter { known: vec![] }) {
        Err(LangError::Parser { kind, .. }) => assert_eq!(kind, rn_lang::errors::ParserErrorKind::WrontType(TypeKind::String, TypeKind::Int)),
        _ => panic!("expected a type error"),
    }
}

#[test]
fn initialize_module_with_indentation() {
    let t = tokens(vec![
        TokenKind::Variable, sym("x"), int_type(), TokenKind::Operator(OperatorKind::Assign),
        TokenKind::Literal(LiteralKind::Int(5)), TokenKind::NewLine,
        TokenKind::Function, sym("f"), paren(ParenthesisKind::Round, ParenthesisState::Open),
        paren(ParenthesisKind::Round, ParenthesisState::Close), int_type(), TokenKind::Indent,
        TokenKind::Return, TokenKind::Literal(LiteralKind::Int(1)), TokenKind::NewLine, TokenKind::Dedent,
        TokenKind::Class, sym("Point"), TokenKind::Indent,
        TokenKind::Variable, sym("px"), int_type(), TokenKind::NewLine,
        TokenKind::Function, sym("get"), paren(ParenthesisKind::Round, ParenthesisState::Open),
        paren(ParenthesisKind::Round, ParenthesisState::Close), int_type(), TokenKind::Indent,
        TokenKind::Return, TokenKind::Literal(LiteralKind::Int(0)), TokenKind::Dedent,
        TokenKind::Dedent,
    ]);
    let m = ModuleInitializer::initialize_module(t, ModuleUID(8)).unwrap();
    assert_eq!(m.uid, ModuleUID(8));
    assert_eq!(m.variables.len(), 1);
    assert_eq!(m.variables[0].1.type_kind, TypeKind::Int);
    assert_eq!(m.variables[0].1.body.0, 4);
    assert_eq!(m.functions.len(), 1);
    assert_eq!(m.functions[0].1.func_type, FunctionType(vec![], Box::new(TypeKind::Int)));
    assert_eq!(m.functions[0].1.body.0, 12);
    assert_eq!(m.classes.len(), 1);
    let class = &m.classes[0].1;
    assert_eq!(class.class_type.fields, vec![("px".to_string(), TypeKind::Int)]);
    assert_eq!(class.class_type.methods, vec![("get".to_string(), FunctionType(vec![], Box::new(TypeKind::Int)))]);
    assert_eq!(class.functions.len(), 1);
}

#[test]
fn declaration_modules() {
    let t = tokens(vec![
        TokenKind::Function, sym("print"), paren(ParenthesisKind::Round, ParenthesisState::Open), sym("s"),
        TokenKind::Type(PrimitiveType::String), paren(ParenthesisKind::Round, ParenthesisState::Close), TokenKind::NewLine,
        TokenKind::Class, sym("File"), TokenKind::Indent, TokenKind::Variable, sym("path"),
        TokenKind::Type(PrimitiveType::String), TokenKind::NewLine, TokenKind::Dedent,
    ]);
    let m = ModuleInitializer::parse_declaration_module(t, ModuleIdentifier("io".to_string()), ModuleUID(2)).unwrap();
    assert_eq!(m.id.0, "io");
    assert_eq!(m.functions, vec![("print".to_string(), FunctionType(vec![TypeKind::String], Box::new(TypeKind::Nothing)))]);
    assert_eq!(m.classes.len(), 1);
    assert_eq!(m.classes[0].0, "File");

    let t = tokens(vec![TokenKind::Variable, sym("x"), int_type()]);
    match ModuleInitializer::parse_declaration_module(t, ModuleIdentifier("io".to_string()), ModuleUID(2)) {
        Err(LangError::Parser { kind: ParserErrorKind::Unsupported(_), .. }) => {},
        _ => panic!("expected an unsupported feature"),
    }
}

#[test]
fn loader_declarations() {
    let uid = ModuleUID::from_string("main".to_string());
    let m = ModulePreParser::prepare_module(main_tokens(), ModuleIdentifier("main".to_string()), uid).unwrap();
    let loader = ModuleLoader::new();
    let context = ModuleLoaderContext { module_loader: &loader, modules: vec![(uid, m)] };
    let decls = context.get_declarations(uid);
    assert_eq!(decls.len(), 2);
    assert_eq!(decls[0].0, "add");
    assert_eq!(decls[1].0, "x");
    match &decls[1].1 {
        GlobalDeclarationKind::Var(t) => assert_eq!(*t, ParsableType::Int),
        _ => panic!("not a variable"),
    }
    assert_eq!(context.get_declarations(ModuleUID(12345)).len(), 0);
}

#[test]
fn loader_keeps_parsed_modules() {
    let uid = ModuleUID::from_string("main".to_string());
    let m = ModulePreParser::prepare_module(main_tokens(), ModuleIdentifier("main".to_string()), uid).unwrap();
    let mut parser = ModuleParser::new(vec![m]);
    let module = parser.parse_module(uid, &NameImporter { known: vec![] }).unwrap();
    let mut loader = ModuleLoader::new();
    assert!(loader.get_module(uid).is_none());
    loader.insert_module(uid, Arc::new(module));
    assert!(loader.get_module(uid).is_some());
    let context = ModuleLoaderContext { module_loader: &loader, modules: vec![] };
    let decls = context.get_declarations(uid);
    assert_eq!(decls.len(), 3);
    match &decls[2].1 {
        GlobalDeclarationKind::Class(c) => assert_eq!(c.name, "Point"),
        _ => panic!("not a class"),
    }
}
