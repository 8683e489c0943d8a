use rn_lang::ast::{ASTNode, NodeKind};
use rn_lang::parser_scope::ParserScope;
use rn_lang::tokens::{LiteralKind, Token, TokenKind, TokenSnapshot, Tokens};
use rn_lang::types::{ClassRef, FunctionType, MathOperatorKind, PrimitiveType, TypeKind};
use rn_lang::module::ModuleUID;

fn tok(kind: TokenKind) -> Token {
    Token::new(kind, 0, 0)
}

#[test]
fn compatible_same_types() {
    assert!(TypeKind::Int.is_compatible(&TypeKind::Int));
    assert!(TypeKind::String.is_compatible(&TypeKind::String));
    let v = TypeKind::Vector(Box::new(TypeKind::Bool));
    let w = TypeKind::Vector(Box::new(TypeKind::Bool));
    assert!(v.is_compatible(&w));
}

#[test]
fn compatible_different_types() {
    assert!(!TypeKind::Int.is_compatible(&TypeKind::Float));
    assert!(!TypeKind::Float.is_compatible(&TypeKind::Int));
    let v = TypeKind::Vector(Box::new(TypeKind::Bool));
    let w = TypeKind::Vector(Box::new(TypeKind::Int));
    assert!(!v.is_compatible(&w));
}

#[test]
fn unknown_is_compatible_with_everything() {
    let f = TypeKind::Function(FunctionType(vec![TypeKind::Int], Box::new(TypeKind::Nothing)));
    assert!(TypeKind::Unknown.is_compatible(&f));
    assert!(f.is_compatible(&TypeKind::Unknown));
    assert!(TypeKind::Unknown.is_compatible(&TypeKind::Unknown));
}

#[test]
fn compatibility_is_symmetric_on_examples() {
    let samples = vec![TypeKind::Int, TypeKind::Float, TypeKind::Unknown, TypeKind::Bool, TypeKind::Nothing];
    for a in &samples {
        for b in &samples {
            assert_eq!(a.is_compatible(b), b.is_compatible(a));
        }
        assert!(a.is_compatible(a));
    }
}

#[test]
fn classes_are_equal_by_name_and_module() {
    let a = TypeKind::Class(ClassRef { name: "Point".to_string(), module: ModuleUID(3) });
    let b = TypeKind::Class(ClassRef { name: "Point".to_string(), module: ModuleUID(3) });
    let c = TypeKind::Class(ClassRef { name: "Point".to_string(), module: ModuleUID(4) });
    assert!(a.is_compatible(&b));
    assert!(!a.is_compatible(&c));
}

#[test]
fn is_unknown_only_for_unknown() {
    assert!(TypeKind::Unknown.is_unknown());
    assert!(!TypeKind::Int.is_unknown());
    assert!(!TypeKind::Vector(Box::new(TypeKind::Unknown)).is_unknown());
}

#[test]
fn from_primitive_types() {
    assert!(TypeKind::from_primitive(&PrimitiveType::Int).equals(&TypeKind::Int));
    assert!(TypeKind::from_primitive(&PrimitiveType::Float).equals(&TypeKind::Float));
    assert!(TypeKind::from_primitive(&PrimitiveType::String).equals(&TypeKind::String));
    assert!(TypeKind::from_primitive(&PrimitiveType::Bool).equals(&TypeKind::Bool));
    assert!(TypeKind::from_primitive(&PrimitiveType::Nothing).equals(&TypeKind::Nothing));
}

#[test]
fn math_result_types() {
    let r = |k, a: TypeKind, b: TypeKind| ParserScope::predict_math_result(k, &a, &b);
    assert_eq!(r(MathOperatorKind::Plus, TypeKind::Int, TypeKind::Int), TypeKind::Int);
    assert_eq!(r(MathOperatorKind::Plus, TypeKind::Int, TypeKind::Float), TypeKind::Float);
    assert_eq!(r(MathOperatorKind::Plus, TypeKind::Float, TypeKind::Float), TypeKind::Float);
    assert_eq!(r(MathOperatorKind::Plus, TypeKind::String, TypeKind::Int), TypeKind::String);
    assert_eq!(r(MathOperatorKind::Minus, TypeKind::Int, TypeKind::Int), TypeKind::Int);
    assert_eq!(r(MathOperatorKind::Minus, TypeKind::Float, TypeKind::Int), TypeKind::Float);
    assert_eq!(r(MathOperatorKind::Minus, TypeKind::String, TypeKind::Int), TypeKind::Unknown);
    assert_eq!(r(MathOperatorKind::Multiply, TypeKind::Int, TypeKind::Int), TypeKind::Int);
    assert_eq!(r(MathOperatorKind::Modulus, TypeKind::Bool, TypeKind::Int), TypeKind::Unknown);
    assert_eq!(r(MathOperatorKind::Divide, TypeKind::Int, TypeKind::Int), TypeKind::Float);
    assert_eq!(r(MathOperatorKind::Divide, TypeKind::String, TypeKind::Int), TypeKind::Unknown);
    assert_eq!(r(MathOperatorKind::Power, TypeKind::Int, TypeKind::Int), TypeKind::Float);
}

#[test]
fn tokens_pop_and_peek() {
    let mut tokens = Tokens::new(vec![tok(TokenKind::NewLine), tok(TokenKind::Return)]);
    assert!(tokens.has_next());
    assert_eq!(tokens.peek().map(|t| t.kind), Some(TokenKind::NewLine));
    assert_eq!(tokens.pop().map(|t| t.kind), Some(TokenKind::NewLine));
    assert_eq!(tokens.pop().map(|t| t.kind), Some(TokenKind::Return));
    assert!(tokens.pop().is_none());
    assert!(!tokens.has_next());
    assert_eq!(tokens.pos, 2);
}

#[test]
fn tokens_rollback_reads_again() {
    let mut tokens = Tokens::new(vec![tok(TokenKind::If), tok(TokenKind::Else), tok(TokenKind::While)]);
    tokens.pop();
    let snap = tokens.snapshot();
    assert_eq!(snap, TokenSnapshot(1));
    assert_eq!(tokens.pop().map(|t| t.kind), Some(TokenKind::Else));
    assert_eq!(tokens.pop().map(|t| t.kind), Some(TokenKind::While));
    tokens.rollback(snap);
    assert_eq!(tokens.pop().map(|t| t.kind), Some(TokenKind::Else));
}

#[test]
fn tokens_new_clone_starts_at_snapshot() {
    let tokens = Tokens::new(vec![
        tok(TokenKind::Literal(LiteralKind::Int(1))),
        tok(TokenKind::Literal(LiteralKind::Int(2))),
    ]);
    let mut other = tokens.new_clone(TokenSnapshot(1));
    assert_eq!(other.pop().map(|t| t.kind), Some(TokenKind::Literal(LiteralKind::Int(2))));
    assert!(other.pop().is_none());
    assert_eq!(tokens.pos, 0);
}

#[test]
fn ast_node_constructors() {
    let n = ASTNode::new_empty();
    assert_eq!(*n.kind, NodeKind::Literal { value: LiteralKind::Nothing });
    assert_eq!(n.eval_type, TypeKind::Nothing);
    let m = ASTNode::new(NodeKind::new_literal(LiteralKind::Bool(true)), TypeKind::Bool);
    assert_eq!(m.eval_type, TypeKind::Bool);
}
