use rn_lang::ast::{ASTNode, Function, NodeKind};
use rn_lang::errors::{LangError, ParserErrorKind};
use rn_lang::module::ModuleUID;
use rn_lang::tokens::{LiteralKind, Token, TokenKind};
use rn_lang::type_check::check_types;
use rn_lang::types::{FunctionType, MathOperatorKind, ReturnKind, TypeKind};

fn lit(value: LiteralKind, t: TypeKind) -> ASTNode {
    ASTNode::new(NodeKind::Literal { value }, t)
}

fn var_ref(name: &str, t: TypeKind) -> ASTNode {
    ASTNode::new(NodeKind::VariableRef { module: ModuleUID(0), name: name.to_string() }, t)
}

fn decl(name: &str, value: ASTNode, t: TypeKind) -> ASTNode {
    ASTNode::new(NodeKind::VariableDecl { name: name.to_string(), value }, t)
}

fn no_token() -> Token {
    Token::new(TokenKind::NewLine, 0, 0)
}

#[test]
fn empty_program_checks() {
    assert_eq!(check_types(&vec![]), Ok(()));
}

#[test]
fn assignment_of_the_declared_type() {
    let body = vec![
        decl("x", lit(LiteralKind::Int(1), TypeKind::Int), TypeKind::Int),
        ASTNode::new(NodeKind::VariableAsgn { name: "x".to_string(), value: lit(LiteralKind::Int(2), TypeKind::Int) }, TypeKind::Nothing),
    ];
    assert_eq!(check_types(&body), Ok(()));
}

#[test]
fn assignment_of_another_type() {
    let body = vec![
        decl("x", lit(LiteralKind::Int(1), TypeKind::Int), TypeKind::Int),
        ASTNode::new(
            NodeKind::VariableAsgn { name: "x".to_string(), value: lit(LiteralKind::String("s".to_string()), TypeKind::String) },
            TypeKind::Nothing,
        ),
    ];
    assert_eq!(
        check_types(&body),
        Err(LangError::Parser { token: no_token(), kind: ParserErrorKind::WrontType(TypeKind::Int, TypeKind::String) })
    );
}

#[test]
fn assignment_to_an_undeclared_name_is_unknown() {
    let body = vec![ASTNode::new(
        NodeKind::VariableAsgn { name: "y".to_string(), value: lit(LiteralKind::Bool(true), TypeKind::Bool) },
        TypeKind::Nothing,
    )];
    assert_eq!(check_types(&body), Ok(()));
}

#[test]
fn float_plus_float_is_a_string_to_the_checker() {
    let sum = ASTNode::new(
        NodeKind::MathOperation {
            operation: MathOperatorKind::Plus,
            left: lit(LiteralKind::Float(0), TypeKind::Float),
            right: lit(LiteralKind::Float(0), TypeKind::Float),
        },
        TypeKind::Float,
    );
    let body = vec![decl("y", sum, TypeKind::Float)];
    assert_eq!(
        check_types(&body),
        Err(LangError::Parser { token: no_token(), kind: ParserErrorKind::WrontType(TypeKind::Float, TypeKind::String) })
    );
}

#[test]
fn int_plus_float_is_a_float() {
    let sum = ASTNode::new(
        NodeKind::MathOperation {
            operation: MathOperatorKind::Plus,
            left: lit(LiteralKind::Int(1), TypeKind::Int),
            right: lit(LiteralKind::Float(0), TypeKind::Float),
        },
        TypeKind::Float,
    );
    assert_eq!(check_types(&vec![decl("y", sum, TypeKind::Float)]), Ok(()));
}

#[test]
fn return_in_a_function_literal() {
    let ret = ASTNode::new(
        NodeKind::ReturnStatement { value: Some(lit(LiteralKind::Bool(true), TypeKind::Bool)), kind: ReturnKind::Return },
        TypeKind::Nothing,
    );
    let func = ASTNode::new(
        NodeKind::FunctionLiteral { value: Function::new(vec![ret], vec![], None) },
        TypeKind::Function(FunctionType(vec![], Box::new(TypeKind::Int))),
    );
    assert_eq!(
        check_types(&vec![func]),
        Err(LangError::Parser { token: no_token(), kind: ParserErrorKind::WrontType(TypeKind::Int, TypeKind::Bool) })
    );
}

#[test]
fn calls_check_argument_count_and_types() {
    let f_type = TypeKind::Function(FunctionType(vec![TypeKind::Int], Box::new(TypeKind::String)));
    let call = |args: Vec<ASTNode>| ASTNode::new(
        NodeKind::FunctionInvok { variable: var_ref("f", TypeKind::Unknown), parameters: args },
        TypeKind::String,
    );
    let declare_f = || decl(
        "f",
        ASTNode::new(NodeKind::FunctionLiteral { value: Function::new(vec![], vec!["a".to_string()], None) }, f_type.clone_type()),
        f_type.clone_type(),
    );
    assert_eq!(check_types(&vec![declare_f(), call(vec![lit(LiteralKind::Int(1), TypeKind::Int)])]), Ok(()));
    assert_eq!(
        check_types(&vec![declare_f(), call(vec![])]),
        Err(LangError::Parser { token: no_token(), kind: ParserErrorKind::InvalidArgCount(0) })
    );
    assert_eq!(
        check_types(&vec![declare_f(), call(vec![lit(LiteralKind::Bool(false), TypeKind::Bool)])]),
        Err(LangError::Parser { token: no_token(), kind: ParserErrorKind::WrontType(TypeKind::Int, TypeKind::Bool) })
    );
}

#[test]
fn declarations_in_a_block_stay_in_it() {
    let inner = decl("z", lit(LiteralKind::Int(1), TypeKind::Int), TypeKind::Int);
    let if_node = ASTNode::new(
        NodeKind::IfStatement { condition: lit(LiteralKind::Bool(true), TypeKind::Bool), body: vec![inner] },
        TypeKind::Nothing,
    );
    let outer = decl("z", lit(LiteralKind::String("s".to_string()), TypeKind::String), TypeKind::String);
    let asgn = ASTNode::new(
        NodeKind::VariableAsgn { name: "z".to_string(), value: lit(LiteralKind::String("t".to_string()), TypeKind::String) },
        TypeKind::Nothing,
    );
    assert_eq!(check_types(&vec![outer, if_node, asgn]), Ok(()));
}
