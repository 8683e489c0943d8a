use rn_lang::ast::NodeKind;
use rn_lang::errors::{LangError, ParserErrorKind};
use rn_lang::module::{ModuleFeature, ModuleIdentifier, ModuleUID};
use rn_lang::module_parser::{ModuleImporter, ModuleParser, MODULE_NOT_FOUND_MESSAGE, PARAMS_LENGTH_MESSAGE};
use rn_lang::module_preparser::{ModulePreParser, ParsableFunction, ParsableModule};
use rn_lang::parsing_types::{ParsableFunctionType, ParsableType};
use rn_lang::tokens::{LiteralKind, Token, TokenKind, TokenSnapshot, Tokens};
use rn_lang::types::ParenthesisKind::{Curly, Round};
use rn_lang::types::ParenthesisState::{Close, Open};
use rn_lang::types::{PrimitiveType, TypeKind};

fn tok(kind: TokenKind) -> Token {
    Token::new(kind, 0, 0)
}

fn sym(s: &str) -> TokenKind {
    TokenKind::Symbol(s.to_string())
}

fn tokens(kinds: Vec<TokenKind>) -> Tokens {
    Tokens::new(kinds.into_iter().map(tok).collect())
}

struct NoImports;

impl ModuleImporter for NoImports {
    fn resolves(&self, _identifier: ModuleIdentifier, uid: Option<ModuleUID>) -> bool {
        uid.is_none()
    }

    fn get_unique_identifier(&self, _identifier: &ModuleIdentifier) -> Option<ModuleUID> {
        None
    }

    fn load_module(&self, _identifier: &ModuleIdentifier, _declaration: bool) -> Option<String> {
        None
    }
}

fn parse(kinds: Vec<TokenKind>) -> Result<rn_lang::module::Module, LangError> {
    let uid = ModuleUID(7);
    let m = ModulePreParser::prepare_module(tokens(kinds), ModuleIdentifier("m".to_string()), uid).unwrap();
    let mut parser = ModuleParser::new(vec![m]);
    parser.parse_module(uid, &NoImports)
}

#[test]
fn function_body_reads_a_global_variable() {
    // var x int = 5
    // func f() int { return x }
    let module = parse(vec![
        TokenKind::Variable, sym("x"), TokenKind::Type(PrimitiveType::Int), TokenKind::Operator(rn_lang::types::OperatorKind::Assign),
        TokenKind::Literal(LiteralKind::Int(5)), TokenKind::NewLine,
        TokenKind::Function, sym("f"), TokenKind::Parenthesis(Round, Open), TokenKind::Parenthesis(Round, Close),
        TokenKind::Type(PrimitiveType::Int), TokenKind::Parenthesis(Curly, Open),
        TokenKind::Return, sym("x"), TokenKind::NewLine, TokenKind::Parenthesis(Curly, Close), TokenKind::NewLine,
    ])
    .unwrap();
    match &module.features[1].1 {
        ModuleFeature::Function(f) => {
            let data = f.data.as_ref().unwrap();
            assert_eq!(data.body.len(), 1);
            match &*data.body[0].kind {
                NodeKind::ReturnStatement { value: Some(v), .. } => {
                    assert_eq!(v.eval_type, TypeKind::Int);
                    match &*v.kind {
                        NodeKind::VariableRef { module, name } => {
                            assert_eq!(*module, ModuleUID(7));
                            assert_eq!(name, "x");
                        },
                        _ => panic!("expected a reference to the global"),
                    }
                },
                _ => panic!("expected a return statement"),
            }
        },
        _ => panic!("not a function"),
    }
}

#[test]
fn function_body_sees_its_parameters() {
    // func id(a bool) bool { return a }
    let module = parse(vec![
        TokenKind::Function, sym("id"), TokenKind::Parenthesis(Round, Open), sym("a"), TokenKind::Type(PrimitiveType::Bool),
        TokenKind::Parenthesis(Round, Close), TokenKind::Type(PrimitiveType::Bool), TokenKind::Parenthesis(Curly, Open),
        TokenKind::Return, sym("a"), TokenKind::Parenthesis(Curly, Close), TokenKind::NewLine,
    ])
    .unwrap();
    match &module.features[0].1 {
        ModuleFeature::Function(f) => {
            let data = f.data.as_ref().unwrap();
            assert_eq!(data.parameters, vec!["a".to_string()]);
            assert!(data.method.is_none());
            match &*data.body[0].kind {
                NodeKind::ReturnStatement { value: Some(v), .. } => {
                    assert_eq!(v.eval_type, TypeKind::Bool);
                    assert!(matches!(&*v.kind, NodeKind::VariableRef { module, .. } if *module == ModuleUID(7)));
                },
                _ => panic!("expected a return statement"),
            }
        },
        _ => panic!("not a function"),
    }
}

#[test]
fn function_returning_the_wrong_type() {
    // func f() int { return true }
    let result = parse(vec![
        TokenKind::Function, sym("f"), TokenKind::Parenthesis(Round, Open), TokenKind::Parenthesis(Round, Close),
        TokenKind::Type(PrimitiveType::Int), TokenKind::Parenthesis(Curly, Open),
        TokenKind::Return, TokenKind::Literal(LiteralKind::Bool(true)), TokenKind::Parenthesis(Curly, Close), TokenKind::NewLine,
    ]);
    match result {
        Err(LangError::Parser { token, kind }) => {
            assert_eq!(kind, ParserErrorKind::WrontType(TypeKind::Int, TypeKind::Bool));
            assert_eq!(token.kind, TokenKind::Return);
        },
        _ => panic!("expected a type error"),
    }
}

#[test]
fn function_with_an_unknown_name_in_its_body() {
    // func f() { y }
    let result = parse(vec![
        TokenKind::Function, sym("f"), TokenKind::Parenthesis(Round, Open), TokenKind::Parenthesis(Round, Close),
        TokenKind::Parenthesis(Curly, Open), sym("y"), TokenKind::Parenthesis(Curly, Close), TokenKind::NewLine,
    ]);
    match result {
        Err(LangError::Parser { token, kind }) => {
            assert_eq!(kind, ParserErrorKind::VarNotFound);
            assert_eq!(token.kind, sym("y"));
        },
        _ => panic!("expected an unknown name"),
    }
}

#[test]
fn variables_fail_before_functions() {
    // var x string = 1
    // func f() { y }
    let result = parse(vec![
        TokenKind::Variable, sym("x"), TokenKind::Type(PrimitiveType::String), TokenKind::Operator(rn_lang::types::OperatorKind::Assign),
        TokenKind::Literal(LiteralKind::Int(1)), TokenKind::NewLine,
        TokenKind::Function, sym("f"), TokenKind::Parenthesis(Round, Open), TokenKind::Parenthesis(Round, Close),
        TokenKind::Parenthesis(Curly, Open), sym("y"), TokenKind::Parenthesis(Curly, Close), TokenKind::NewLine,
    ]);
    match result {
        Err(LangError::Parser { kind, .. }) => assert_eq!(kind, ParserErrorKind::WrontType(TypeKind::String, TypeKind::Int)),
        _ => panic!("expected the variable's error"),
    }
}

#[test]
fn function_with_more_parameters_than_types() {
    let uid = ModuleUID(8);
    let module = ParsableModule {
        id: ModuleIdentifier("m".to_string()),
        uid,
        tokens: tokens(vec![TokenKind::Parenthesis(Curly, Close)]),
        imports: vec![],
        variables: vec![],
        functions: vec![(
            "f".to_string(),
            ParsableFunction {
                func_type: ParsableFunctionType(vec![], Box::new(ParsableType::Nothing)),
                params: vec!["a".to_string()],
                body: Some(TokenSnapshot(0)),
            },
        )],
        classes: vec![],
    };
    let mut parser = ModuleParser::new(vec![module]);
    match parser.parse_module(uid, &NoImports) {
        Err(LangError::Parser { token, kind: ParserErrorKind::UnexpectedError(message) }) => {
            assert_eq!(message, PARAMS_LENGTH_MESSAGE);
            assert_eq!(token.kind, TokenKind::Parenthesis(Curly, Close));
        },
        _ => panic!("expected an unexpected error"),
    }
}

#[test]
fn missing_module_message() {
    let mut parser = ModuleParser::new(vec![]);
    match parser.parse_module(ModuleUID(5), &NoImports) {
        Err(LangError::Parser { kind: ParserErrorKind::UnexpectedError(message), .. }) => {
            assert_eq!(message, MODULE_NOT_FOUND_MESSAGE);
        },
        _ => panic!("expected an error"),
    }
}

#[test]
fn parsing_records_the_filled_class_descriptions() {
    // class P { a int  func get() int { return 1 } }
    let uid = ModuleUID(9);
    let m = ModulePreParser::prepare_module(
        tokens(vec![
            TokenKind::Class, sym("P"), TokenKind::Parenthesis(Curly, Open),
            sym("a"), TokenKind::Type(PrimitiveType::Int), TokenKind::NewLine,
            TokenKind::Function, sym("get"), TokenKind::Parenthesis(Round, Open), TokenKind::Parenthesis(Round, Close),
            TokenKind::Type(PrimitiveType::Int), TokenKind::Parenthesis(Curly, Open),
            TokenKind::Return, TokenKind::Literal(LiteralKind::Int(1)), TokenKind::Parenthesis(Curly, Close), TokenKind::NewLine,
            TokenKind::Parenthesis(Curly, Close), TokenKind::NewLine,
        ]),
        ModuleIdentifier("m".to_string()),
        uid,
    )
    .unwrap();
    let mut parser = ModuleParser::new(vec![m]);
    assert_eq!(parser.modules[0].1.types[0].1.fields.len(), 0);
    let module = parser.parse_module(uid, &NoImports).unwrap();
    match &module.features[0].1 {
        ModuleFeature::Class(c) => {
            assert_eq!(c.metadata.fields.len(), 2);
            assert_eq!(c.metadata.methods.len(), 2);
            assert_eq!(c.metadata.methods[1].0, "get");
        },
        _ => panic!("not a class"),
    }
    let stored = &parser.modules[0].1.types[0].1;
    assert_eq!(stored.name, "P");
    assert_eq!(stored.fields.len(), 2);
    assert_eq!(stored.fields[0].1, TypeKind::Int);
    assert_eq!(stored.methods.len(), 2);
    assert!(parser.modules[0].1.loaded);
}

#[test]
fn checked_parse_refuses_a_module_that_does_not_fit() {
    let uid = ModuleUID(11);
    let module = ParsableModule {
        id: ModuleIdentifier("m".to_string()),
        uid,
        tokens: tokens(vec![TokenKind::Parenthesis(Curly, Close)]),
        imports: vec![],
        variables: vec![],
        functions: vec![(
            "f".to_string(),
            ParsableFunction {
                func_type: ParsableFunctionType(vec![], Box::new(ParsableType::Nothing)),
                params: vec![],
                body: Some(TokenSnapshot(5)),
            },
        )],
        classes: vec![],
    };
    let mut parser = ModuleParser::new(vec![module]);
    assert!(!parser.check_fits());
    assert!(parser.parse_module_checked(uid, &NoImports).is_none());
    assert!(!parser.modules[0].1.loaded);
}

#[test]
fn checked_parse_of_a_module_that_fits() {
    let uid = ModuleUID(7);
    let m = ModulePreParser::prepare_module(
        tokens(vec![TokenKind::Variable, sym("x"), TokenKind::Type(PrimitiveType::Int), TokenKind::NewLine]),
        ModuleIdentifier("m".to_string()),
        uid,
    )
    .unwrap();
    let mut parser = ModuleParser::new(vec![m]);
    assert!(parser.check_fits());
    let module = parser.parse_module_checked(uid, &NoImports).unwrap().unwrap();
    assert_eq!(module.features.len(), 1);
}
