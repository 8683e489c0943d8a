use rn_lang::ast::{ASTNode, NodeKind};
use rn_lang::class::ClassType;
use rn_lang::types::{ClassKind, ClassRef};
use rn_lang::errors::{LangError, ParserErrorKind};
use rn_lang::module::ModuleUID;
use rn_lang::module_scope::ParserModuleScope;
use rn_lang::parser_scope::ParserScope;
use rn_lang::tokens::{LiteralKind, Token, TokenKind, Tokens};
use rn_lang::types::{
    BoolOperatorKind, FunctionType, MathOperatorKind, OperatorKind, ParenthesisKind, ParenthesisState, PrimitiveType, TypeKind,
};
use rn_lang::utils::{parse_parameter_names, parse_type_error, parse_type_option};

fn tok(kind: TokenKind) -> Token {
    Token::new(kind, 0, 0)
}

fn sym(s: &str) -> TokenKind {
    TokenKind::Symbol(s.to_string())
}

fn int_lit(i: i32) -> TokenKind {
    TokenKind::Literal(LiteralKind::Int(i))
}

fn tokens(kinds: Vec<TokenKind>) -> Tokens {
    Tokens::new(kinds.into_iter().map(tok).collect())
}

#[test]
fn parse_variable_declaration_with_type() {
    let module = ParserModuleScope::new(ModuleUID(1));
    let mut scope = ParserScope::new_module_child(&module);
    let mut t = tokens(vec![
        TokenKind::Variable,
        sym("x"),
        TokenKind::Type(PrimitiveType::Int),
        TokenKind::Operator(OperatorKind::Assign),
        int_lit(3),
    ]);
    let node = scope.parse_statement(&mut t).unwrap();
    assert_eq!(node.eval_type, TypeKind::Int);
    match *node.kind {
        NodeKind::VariableDecl { name, value } => {
            assert_eq!(name, "x");
            assert_eq!(*value.kind, NodeKind::Literal { value: LiteralKind::Int(3) });
        },
        _ => panic!("not a declaration"),
    }
    let r = scope.get(&"x".to_string());
    assert_eq!(r, rn_lang::module_scope::ScopeGetResult::Ref(ModuleUID(1), TypeKind::Int));
}

#[test]
fn parse_variable_declaration_with_wrong_type() {
    let module = ParserModuleScope::new(ModuleUID(1));
    let mut scope = ParserScope::new_module_child(&module);
    let mut t = tokens(vec![
        TokenKind::Variable,
        sym("x"),
        TokenKind::Type(PrimitiveType::Bool),
        TokenKind::Operator(OperatorKind::Assign),
        int_lit(3),
    ]);
    match scope.parse_statement(&mut t) {
        Err(LangError::Parser { kind: ParserErrorKind::WrontType(expected, found), .. }) => {
            assert_eq!(expected, TypeKind::Bool);
            assert_eq!(found, TypeKind::Int);
        },
        _ => panic!("expected a type error"),
    }
}

#[test]
fn parse_math_expression() {
    let module = ParserModuleScope::new(ModuleUID(1));
    let mut scope = ParserScope::new_module_child(&module);
    let mut t = tokens(vec![int_lit(1), TokenKind::MathOperator(MathOperatorKind::Divide), int_lit(2)]);
    let node = scope.parse_statement(&mut t).unwrap();
    assert_eq!(node.eval_type, TypeKind::Float);
    let mut t = tokens(vec![int_lit(1), TokenKind::BoolOperator(BoolOperatorKind::Smaller), int_lit(2)]);
    let node = scope.parse_statement(&mut t).unwrap();
    assert_eq!(node.eval_type, TypeKind::Bool);
}

#[test]
fn parse_unknown_variable() {
    let module = ParserModuleScope::new(ModuleUID(1));
    let mut scope = ParserScope::new_module_child(&module);
    let mut t = tokens(vec![sym("nope")]);
    match scope.parse_statement(&mut t) {
        Err(LangError::Parser { kind, .. }) => assert_eq!(kind, ParserErrorKind::VarNotFound),
        _ => panic!("expected an error"),
    }
}

#[test]
fn parse_empty_input_is_end_of_file() {
    let module = ParserModuleScope::new(ModuleUID(1));
    let mut scope = ParserScope::new_module_child(&module);
    let mut t = tokens(vec![]);
    match scope.parse_statement(&mut t) {
        Err(LangError::Parser { kind, .. }) => assert_eq!(kind, ParserErrorKind::UnexpectedEndOfFile),
        _ => panic!("expected an error"),
    }
}

#[test]
fn parse_function_call_checks_arguments() {
    let mut module = ParserModuleScope::new(ModuleUID(1));
    module.declare_func("f".to_string(), FunctionType(vec![TypeKind::Int], Box::new(TypeKind::String)));
    let mut scope = ParserScope::new_module_child(&module);
    let open = TokenKind::Parenthesis(ParenthesisKind::Round, ParenthesisState::Open);
    let close = TokenKind::Parenthesis(ParenthesisKind::Round, ParenthesisState::Close);
    let mut t = tokens(vec![sym("f"), open.clone_kind(), int_lit(4), close.clone_kind()]);
    let node = scope.parse_statement(&mut t).unwrap();
    assert_eq!(node.eval_type, TypeKind::String);
    let mut t = tokens(vec![sym("f"), open.clone_kind(), close.clone_kind()]);
    match scope.parse_statement(&mut t) {
        Err(LangError::Parser { kind, .. }) => assert_eq!(kind, ParserErrorKind::InvalidArgCount(1)),
        _ => panic!("expected an error"),
    }
}

#[test]
fn parse_vector_literal_and_index() {
    let module = ParserModuleScope::new(ModuleUID(1));
    let mut scope = ParserScope::new_module_child(&module);
    let mut t = tokens(vec![
        TokenKind::Parenthesis(ParenthesisKind::Square, ParenthesisState::Open),
        int_lit(1),
        TokenKind::Operator(OperatorKind::Comma),
        int_lit(2),
        TokenKind::Parenthesis(ParenthesisKind::Square, ParenthesisState::Close),
        TokenKind::Parenthesis(ParenthesisKind::Square, ParenthesisState::Open),
        int_lit(0),
        TokenKind::Parenthesis(ParenthesisKind::Square, ParenthesisState::Close),
    ]);
    let node = scope.parse_statement(&mut t).unwrap();
    assert_eq!(node.eval_type, TypeKind::Int);
}

#[test]
fn parse_body_reads_statements_up_to_the_brace() {
    let module = ParserModuleScope::new(ModuleUID(1));
    let mut scope = ParserScope::new_module_child(&module);
    let mut t = tokens(vec![
        TokenKind::Variable,
        sym("a"),
        TokenKind::Operator(OperatorKind::Assign),
        int_lit(1),
        TokenKind::NewLine,
        TokenKind::Return,
        sym("a"),
        TokenKind::NewLine,
        TokenKind::Parenthesis(ParenthesisKind::Curly, ParenthesisState::Close),
        int_lit(9),
    ]);
    let body = scope.parse_body(&mut t).unwrap();
    assert_eq!(body.len(), 2);
    assert_eq!(t.pos, 9);
    let frame = &scope.frames[scope.frames.len() - 1];
    assert_eq!(frame.eval_type, TypeKind::Int);
}

#[test]
fn parameter_lists() {
    let mut t = tokens(vec![
        sym("a"),
        TokenKind::Type(PrimitiveType::Int),
        TokenKind::Operator(OperatorKind::Comma),
        sym("b"),
        TokenKind::Type(PrimitiveType::String),
        TokenKind::Parenthesis(ParenthesisKind::Round, ParenthesisState::Close),
    ]);
    let (names, types) = parse_parameter_names(&mut t).unwrap();
    assert_eq!(names, vec!["a".to_string(), "b".to_string()]);
    assert_eq!(types, vec![TypeKind::Int, TypeKind::String]);

    let mut t = tokens(vec![sym("a"), TokenKind::Type(PrimitiveType::Int), sym("b")]);
    match parse_parameter_names(&mut t) {
        Err(LangError::Parser { kind, .. }) => assert_eq!(kind, ParserErrorKind::ParametersExpectedComma),
        _ => panic!("expected an error"),
    }

    let mut t = tokens(vec![TokenKind::Operator(OperatorKind::Comma)]);
    match parse_parameter_names(&mut t) {
        Err(LangError::Parser { kind, .. }) => assert_eq!(kind, ParserErrorKind::ParametersExpectedParam),
        _ => panic!("expected an error"),
    }
}

#[test]
fn type_names() {
    let mut t = tokens(vec![TokenKind::Type(PrimitiveType::Float), sym("x")]);
    assert_eq!(parse_type_option(&mut t), Some(TypeKind::Float));
    assert_eq!(parse_type_option(&mut t), None);
    assert_eq!(t.pos, 1);
    match parse_type_error(&mut t) {
        Err(LangError::Parser { kind, .. }) => assert_eq!(kind, ParserErrorKind::UnexpectedToken),
        _ => panic!("expected an error"),
    }
}

#[test]
fn parse_assignment_to_a_variable() {
    let module = ParserModuleScope::new(ModuleUID(1));
    let mut scope = ParserScope::new_module_child(&module);
    let mut t = tokens(vec![TokenKind::Variable, sym("x"), TokenKind::Operator(OperatorKind::Assign), int_lit(1)]);
    scope.parse_statement(&mut t).unwrap();
    let mut t = tokens(vec![sym("x"), TokenKind::Operator(OperatorKind::Assign), int_lit(2)]);
    let node = scope.parse_statement(&mut t).unwrap();
    assert_eq!(node.eval_type, TypeKind::Nothing);
    match *node.kind {
        NodeKind::VariableAsgn { name, value } => {
            assert_eq!(name, "x");
            assert_eq!(*value.kind, NodeKind::Literal { value: LiteralKind::Int(2) });
        },
        _ => panic!("not an assignment"),
    }
}

#[test]
fn parse_assignment_to_a_literal_is_no_step() {
    let module = ParserModuleScope::new(ModuleUID(1));
    let mut scope = ParserScope::new_module_child(&module);
    let mut t = tokens(vec![int_lit(1), TokenKind::Operator(OperatorKind::Assign), int_lit(2)]);
    let node = scope.parse_statement(&mut t).unwrap();
    assert_eq!(*node.kind, NodeKind::Literal { value: LiteralKind::Int(1) });
    assert_eq!(t.pos, 3);
}

#[test]
fn parse_operators_nest_to_the_right() {
    let module = ParserModuleScope::new(ModuleUID(1));
    let mut scope = ParserScope::new_module_child(&module);
    let mut t = tokens(vec![
        int_lit(1),
        TokenKind::MathOperator(MathOperatorKind::Plus),
        int_lit(2),
        TokenKind::MathOperator(MathOperatorKind::Multiply),
        int_lit(3),
    ]);
    let node = scope.parse_statement(&mut t).unwrap();
    assert_eq!(node.eval_type, TypeKind::Int);
    match *node.kind {
        NodeKind::MathOperation { operation, left, right } => {
            assert_eq!(operation, MathOperatorKind::Plus);
            assert_eq!(*left.kind, NodeKind::Literal { value: LiteralKind::Int(1) });
            assert!(matches!(*right.kind, NodeKind::MathOperation { operation: MathOperatorKind::Multiply, .. }));
        },
        _ => panic!("not an operation"),
    }
}

#[test]
fn parse_return_without_value_before_new_line() {
    let module = ParserModuleScope::new(ModuleUID(1));
    let mut scope = ParserScope::new_module_child(&module);
    let mut t = tokens(vec![TokenKind::Return, TokenKind::NewLine]);
    let node = scope.parse_statement(&mut t).unwrap();
    assert_eq!(node.eval_type, TypeKind::Nothing);
    assert!(matches!(*node.kind, NodeKind::ReturnStatement { value: None, .. }));
    let mut t = tokens(vec![TokenKind::Return, int_lit(5)]);
    let node = scope.parse_statement(&mut t).unwrap();
    assert!(matches!(*node.kind, NodeKind::ReturnStatement { value: Some(_), .. }));
}

#[test]
fn parse_token_that_starts_nothing() {
    let module = ParserModuleScope::new(ModuleUID(1));
    let mut scope = ParserScope::new_module_child(&module);
    let mut t = tokens(vec![TokenKind::Else]);
    match scope.parse_statement(&mut t) {
        Err(LangError::Parser { kind, .. }) => assert_eq!(kind, ParserErrorKind::UnexpectedToken),
        _ => panic!("expected an error"),
    }
}

#[test]
fn parse_index_of_a_non_vector_is_refused() {
    let module = ParserModuleScope::new(ModuleUID(1));
    let mut scope = ParserScope::new_module_child(&module);
    let mut t = tokens(vec![
        int_lit(1),
        TokenKind::Parenthesis(ParenthesisKind::Square, ParenthesisState::Open),
        int_lit(0),
        TokenKind::Parenthesis(ParenthesisKind::Square, ParenthesisState::Close),
    ]);
    match scope.parse_statement(&mut t) {
        Err(LangError::Parser { kind, .. }) => assert_eq!(kind, ParserErrorKind::NotIndexable),
        _ => panic!("expected an error"),
    }
}

#[test]
fn parse_vector_with_leading_comma_is_refused() {
    let module = ParserModuleScope::new(ModuleUID(1));
    let mut scope = ParserScope::new_module_child(&module);
    let mut t = tokens(vec![
        TokenKind::Parenthesis(ParenthesisKind::Square, ParenthesisState::Open),
        TokenKind::Operator(OperatorKind::Comma),
    ]);
    match scope.parse_statement(&mut t) {
        Err(LangError::Parser { kind, .. }) => assert_eq!(kind, ParserErrorKind::ParametersExpectedParam),
        _ => panic!("expected an error"),
    }
}

#[test]
fn parse_named_function_declares_it() {
    let module = ParserModuleScope::new(ModuleUID(1));
    let mut scope = ParserScope::new_module_child(&module);
    let mut t = tokens(vec![
        TokenKind::Function,
        sym("f"),
        TokenKind::Parenthesis(ParenthesisKind::Round, ParenthesisState::Open),
        sym("a"),
        TokenKind::Type(PrimitiveType::Int),
        TokenKind::Parenthesis(ParenthesisKind::Round, ParenthesisState::Close),
        TokenKind::Type(PrimitiveType::Int),
        TokenKind::Indent,
        TokenKind::Return,
        sym("a"),
        TokenKind::Parenthesis(ParenthesisKind::Curly, ParenthesisState::Close),
    ]);
    let node = scope.parse_statement(&mut t).unwrap();
    assert_eq!(node.eval_type, TypeKind::Nothing);
    match *node.kind {
        NodeKind::VariableDecl { name, value } => {
            assert_eq!(name, "f");
            assert_eq!(value.eval_type, TypeKind::Function(FunctionType(vec![TypeKind::Int], Box::new(TypeKind::Int))));
            match *value.kind {
                NodeKind::FunctionLiteral { value: f } => assert_eq!(f.parameters, vec!["a".to_string()]),
                _ => panic!("not a function literal"),
            }
        },
        _ => panic!("not a declaration"),
    }
    let r = scope.get(&"f".to_string());
    assert_eq!(
        r,
        rn_lang::module_scope::ScopeGetResult::Ref(
            ModuleUID(1),
            TypeKind::Function(FunctionType(vec![TypeKind::Int], Box::new(TypeKind::Int)))
        )
    );
}

#[test]
fn parse_object_values_reads_named_fields() {
    let module = ParserModuleScope::new(ModuleUID(1));
    let mut scope = ParserScope::new_module_child(&module);
    let mut t = tokens(vec![
        sym("a"),
        TokenKind::Operator(OperatorKind::Colon),
        int_lit(1),
        TokenKind::Operator(OperatorKind::Comma),
        sym("b"),
        TokenKind::Operator(OperatorKind::Colon),
        TokenKind::Literal(LiteralKind::Bool(true)),
        TokenKind::Parenthesis(ParenthesisKind::Curly, ParenthesisState::Close),
    ]);
    let fields = scope.parse_object_values(&mut t).unwrap();
    assert_eq!(fields.len(), 2);
    assert_eq!(fields[0].0, "a");
    assert_eq!(fields[0].1.eval_type, TypeKind::Int);
    assert_eq!(fields[1].0, "b");
    assert_eq!(fields[1].1.eval_type, TypeKind::Bool);
    assert_eq!(t.pos, 8);
}

#[test]
fn parse_object_values_needs_a_colon() {
    let module = ParserModuleScope::new(ModuleUID(1));
    let mut scope = ParserScope::new_module_child(&module);
    let mut t = tokens(vec![sym("a"), int_lit(1)]);
    match scope.parse_object_values(&mut t) {
        Err(LangError::Parser { token, kind }) => {
            assert_eq!(kind, ParserErrorKind::UnexpectedToken);
            assert_eq!(token.kind, sym("a"));
        },
        _ => panic!("expected an error"),
    }
    assert_eq!(t.pos, 2);
}

#[test]
fn parse_parameter_values_empty_and_missing_comma() {
    let module = ParserModuleScope::new(ModuleUID(1));
    let mut scope = ParserScope::new_module_child(&module);
    let close = TokenKind::Parenthesis(ParenthesisKind::Round, ParenthesisState::Close);
    let mut t = tokens(vec![close.clone_kind()]);
    let values = scope.parse_parameter_values(&mut t).unwrap();
    assert_eq!(values.len(), 0);
    assert_eq!(t.pos, 1);
    let mut t = tokens(vec![int_lit(1), int_lit(2), close.clone_kind()]);
    match scope.parse_parameter_values(&mut t) {
        Err(LangError::Parser { kind, .. }) => assert_eq!(kind, ParserErrorKind::ParametersExpectedComma),
        _ => panic!("expected an error"),
    }
}

#[test]
fn parse_vector_values_of_different_types_is_refused() {
    let module = ParserModuleScope::new(ModuleUID(1));
    let mut scope = ParserScope::new_module_child(&module);
    let mut t = tokens(vec![
        int_lit(1),
        TokenKind::Operator(OperatorKind::Comma),
        TokenKind::Literal(LiteralKind::Bool(true)),
        TokenKind::Parenthesis(ParenthesisKind::Square, ParenthesisState::Close),
    ]);
    match scope.parse_vector_values(&mut t) {
        Err(LangError::Parser { kind: ParserErrorKind::WrontType(found, expected), .. }) => {
            assert_eq!(found, TypeKind::Bool);
            assert_eq!(expected, TypeKind::Int);
        },
        _ => panic!("expected a type error"),
    }
}

#[test]
fn parse_block_declares_names_in_an_inner_block() {
    let module = ParserModuleScope::new(ModuleUID(1));
    let mut scope = ParserScope::new_module_child(&module);
    let mut t = tokens(vec![
        TokenKind::Return,
        sym("x"),
        TokenKind::Parenthesis(ParenthesisKind::Curly, ParenthesisState::Close),
    ]);
    let (body, frame) = scope.parse_block(&mut t, &vec!["x".to_string()], &vec![TypeKind::Float]);
    assert_eq!(body.unwrap().len(), 1);
    assert_eq!(frame.eval_type, TypeKind::Float);
    assert_eq!(scope.frames.len(), 1);
    assert!(matches!(scope.get(&"x".to_string()), rn_lang::module_scope::ScopeGetResult::NotFound));
}

#[test]
fn check_arguments_counts_then_types() {
    let call = tok(TokenKind::Parenthesis(ParenthesisKind::Round, ParenthesisState::Open));
    let module = ParserModuleScope::new(ModuleUID(1));
    let mut scope = ParserScope::new_module_child(&module);
    let mut t = tokens(vec![int_lit(1)]);
    let one = scope.parse_statement(&mut t).unwrap();
    let args = vec![one];
    assert!(rn_lang::parse::check_arguments(&call, &vec![TypeKind::Int], &args).is_ok());
    assert!(rn_lang::parse::check_arguments(&call, &vec![TypeKind::Unknown], &args).is_ok());
    match rn_lang::parse::check_arguments(&call, &vec![], &args) {
        Err(LangError::Parser { kind, .. }) => assert_eq!(kind, ParserErrorKind::InvalidArgCount(0)),
        _ => panic!("expected an error"),
    }
    match rn_lang::parse::check_arguments(&call, &vec![TypeKind::String], &args) {
        Err(LangError::Parser { kind: ParserErrorKind::WrontType(expected, found), .. }) => {
            assert_eq!(expected, TypeKind::String);
            assert_eq!(found, TypeKind::Int);
        },
        _ => panic!("expected a type error"),
    }
}

#[test]
fn parse_infix_reads_a_field_of_a_declared_class() {
    let uid = ModuleUID(4);
    let mut module = ParserModuleScope::new(uid);
    module.declare_class(
        "P".to_string(),
        ClassType {
            name: "P".to_string(),
            module: uid,
            kind: ClassKind::Normal,
            fields: vec![("x".to_string(), TypeKind::Int)],
            methods: vec![],
        },
    );
    let mut scope = ParserScope::new_module_child(&module);
    let class = || TypeKind::Class(ClassRef { name: "P".to_string(), module: uid });
    let node = ASTNode::new(NodeKind::VariableRef { module: uid, name: "p".to_string() }, class());
    let mut t = tokens(vec![TokenKind::Operator(OperatorKind::Dot), sym("x")]);
    let (n, parsed) = scope.parse_infix(node, &mut t).unwrap();
    assert!(parsed);
    assert_eq!(n.eval_type, TypeKind::Int);
    assert!(matches!(&*n.kind, NodeKind::FieldAccess { field_name, .. } if field_name == "x"));

    let node = ASTNode::new(NodeKind::VariableRef { module: uid, name: "p".to_string() }, class());
    let mut t = tokens(vec![TokenKind::Operator(OperatorKind::Dot), sym("y")]);
    match scope.parse_infix(node, &mut t) {
        Err(LangError::Parser { kind, .. }) => assert_eq!(kind, ParserErrorKind::FieldDoesntExist),
        _ => panic!("expected a missing field"),
    }

    let node = ASTNode::new(NodeKind::VariableRef { module: uid, name: "p".to_string() }, class());
    let mut t = tokens(vec![TokenKind::NewLine]);
    let (n, parsed) = scope.parse_infix(node, &mut t).unwrap();
    assert!(!parsed);
    assert_eq!(n.eval_type, class());
}
