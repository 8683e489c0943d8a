use vstd::prelude::*;
use crate::ast::{ASTNode, Function, NodeKind};
use crate::class::{ClassTypeV, find_method};
use crate::errors::{LangError, ParserErrorKind, end_of_file_error};
use crate::module_scope::{GlobalV, ScopeGetV, class_lookup_v, decls_map, global_get};
use crate::parse::{CLASS_CONSTRUCTOR_NAME, literal_type, member_type, predict_math_spec};
use crate::parser_scope::{FrameV, frames_lookup};
use crate::tokens::{LiteralKind, Token, TokenKind};
use crate::types::{
    BoolOperatorKind, MathOperatorKind, OperatorKind, ParenthesisKind, ParenthesisState, PrimitiveType, ReturnKind, TypeV,
    compatible,
};
use crate::utils::{expect_spec, names_view, param_names_spec, step, token_at, type_option_spec, unexpected};

verus! {

broadcast use vstd::std_specs::vec::axiom_vec_decreases_to_view;

/// A node of the syntax tree as a mathematical value: what it is, and the type it evaluates to.
pub struct AstV {
    pub kind: KindV,
    pub ty: TypeV,
}

/// What a node of the syntax tree is, with its children as values.
pub enum KindV {
    VariableDecl(Seq<char>, Box<AstV>),
    VariableRef(u64, Seq<char>),
    VariableAsgn(Seq<char>, Box<AstV>),
    FieldAsgn(Box<AstV>, Seq<char>, Box<AstV>),
    FunctionInvok(Box<AstV>, Seq<AstV>),
    Literal(LiteralKind),
    MathOperation(MathOperatorKind, Box<AstV>, Box<AstV>),
    BoolOperation(BoolOperatorKind, Box<AstV>, Box<AstV>),
    ReturnStatement(Option<Box<AstV>>, ReturnKind),
    IfStatement(Box<AstV>, Seq<AstV>),
    ForStatement(Box<AstV>, Box<AstV>, Seq<AstV>, Seq<char>),
    WhileStatement(Box<AstV>, Seq<AstV>),
    FieldAccess(Box<AstV>, Seq<char>),
    VectorLiteral(Seq<AstV>),
    ObjectLiteral(Seq<(Seq<char>, AstV)>),
    FunctionLiteral(Seq<AstV>, Seq<Seq<char>>, Option<(Seq<char>, u64)>),
    ValueFieldAccess(Box<AstV>, Box<AstV>),
    ConstructClass(Seq<AstV>, Seq<char>, u64),
}

/// A node of the syntax tree, as a value.
pub open spec fn node_view(n: ASTNode) -> AstV
    decreases n, 1nat,
{
    AstV { kind: kind_view(*n.kind), ty: n.eval_type@ }
}

/// What a node is, as a value.
pub open spec fn kind_view(k: NodeKind) -> KindV
    decreases k, 0nat,
{
    match k {
        NodeKind::VariableDecl { name, value } => KindV::VariableDecl(name@, Box::new(node_view(value))),
        NodeKind::VariableRef { module, name } => KindV::VariableRef(module.0, name@),
        NodeKind::VariableAsgn { name, value } => KindV::VariableAsgn(name@, Box::new(node_view(value))),
        NodeKind::FieldAsgn { variable, field_name, value } =>
            KindV::FieldAsgn(Box::new(node_view(variable)), field_name@, Box::new(node_view(value))),
        NodeKind::FunctionInvok { variable, parameters } =>
            KindV::FunctionInvok(Box::new(node_view(variable)), nodes_view(parameters@)),
        NodeKind::Literal { value } => KindV::Literal(value),
        NodeKind::MathOperation { operation, left, right } =>
            KindV::MathOperation(operation, Box::new(node_view(left)), Box::new(node_view(right))),
        NodeKind::BoolOperation { operation, left, right } =>
            KindV::BoolOperation(operation, Box::new(node_view(left)), Box::new(node_view(right))),
        NodeKind::ReturnStatement { value, kind } => KindV::ReturnStatement(
            match value {
                Some(v) => Some(Box::new(node_view(v))),
                None => None,
            },
            kind,
        ),
        NodeKind::IfStatement { condition, body } => KindV::IfStatement(Box::new(node_view(condition)), nodes_view(body@)),
        NodeKind::ForStatement { left, right, body, iter_name } =>
            KindV::ForStatement(Box::new(node_view(left)), Box::new(node_view(right)), nodes_view(body@), iter_name@),
        NodeKind::WhileStatement { condition, body } => KindV::WhileStatement(Box::new(node_view(condition)), nodes_view(body@)),
        NodeKind::FieldAccess { variable, field_name } => KindV::FieldAccess(Box::new(node_view(variable)), field_name@),
        NodeKind::VectorLiteral { values } => KindV::VectorLiteral(nodes_view(values@)),
        NodeKind::ObjectLiteral { values } => KindV::ObjectLiteral(named_nodes_view(values@)),
        NodeKind::FunctionLiteral { value } => KindV::FunctionLiteral(
            nodes_view(value.body@),
            names_view(value.parameters@),
            match value.method {
                Some(c) => Some((c.name@, c.module.0)),
                None => None,
            },
        ),
        NodeKind::ValueFieldAccess { variable, value } =>
            KindV::ValueFieldAccess(Box::new(node_view(variable)), Box::new(node_view(value))),
        NodeKind::ConstructClass { parameters, class } =>
            KindV::ConstructClass(nodes_view(parameters@), class.name@, class.module.0),
    }
}

/// A list of nodes, as values.
pub open spec fn nodes_view(s: Seq<ASTNode>) -> Seq<AstV>
    decreases s, 0nat,
{
    if s.len() == 0 {
        Seq::empty()
    } else {
        nodes_view(s.drop_last()).push(node_view(s.last()))
    }
}

/// A list of named nodes, as values.
pub open spec fn named_nodes_view(s: Seq<(String, ASTNode)>) -> Seq<(Seq<char>, AstV)>
    decreases s, 0nat,
{
    if s.len() == 0 {
        Seq::empty()
    } else {
        named_nodes_view(s.drop_last()).push((s.last().0@, node_view(s.last().1)))
    }
}

/// An error of the parser as a value: a type mismatch holds the two types by their views, and
/// an unexpected failure its message by its view.
pub enum ErrV {
    Plain(LangError),
    WrongType(Token, TypeV, TypeV),
    Unexpected(Token, Seq<char>),
}

/// An error, as a value.
pub open spec fn err_view(e: LangError) -> ErrV {
    match e {
        LangError::Parser { token, kind: ParserErrorKind::WrontType(expected, got) } => ErrV::WrongType(token, expected@, got@),
        LangError::Parser { token, kind: ParserErrorKind::UnexpectedError(message) } => ErrV::Unexpected(token, message@),
        _ => ErrV::Plain(e),
    }
}

/// What parsing reads: the tokens, the declarations of the module in order, and its identifier.
pub struct PCtx {
    pub toks: Seq<Token>,
    pub globals: Seq<(Seq<char>, GlobalV)>,
    pub uid: u64,
}

/// What a name gives: the innermost block that declares it, else the globals.
pub open spec fn ctx_lookup(c: PCtx, f: Seq<FrameV>, name: Seq<char>) -> ScopeGetV {
    match frames_lookup(f, name) {
        Some(t) => ScopeGetV::Ref(c.uid, t),
        None => global_get(decls_map(c.globals), name),
    }
}

/// The blocks after `name` is declared with type `t` in the innermost one.
pub open spec fn frames_declare(f: Seq<FrameV>, name: Seq<char>, t: TypeV) -> Seq<FrameV> {
    f.update(f.len() - 1, FrameV { names: f.last().names.push(name), types: f.last().types.push(t), eval_type: f.last().eval_type })
}

/// The blocks after the innermost one is given the type `t` that its `return` gives.
pub open spec fn frames_set_eval(f: Seq<FrameV>, t: TypeV) -> Seq<FrameV> {
    f.update(f.len() - 1, FrameV { names: f.last().names, types: f.last().types, eval_type: t })
}

/// The error at the end of the tokens.
pub open spec fn eof() -> ErrV {
    ErrV::Plain(end_of_file_error())
}

/// A parser error at token `t`.
pub open spec fn perr(t: Token, kind: ParserErrorKind) -> ErrV {
    ErrV::Plain(LangError::Parser { token: t, kind })
}

/// The first argument whose type does not fit the parameter type at its place.
pub open spec fn first_misfit(args: Seq<AstV>, params: Seq<TypeV>, j: nat) -> Option<int>
    decreases args.len() - j,
{
    if j >= args.len() {
        None
    } else if !compatible(args[j as int].ty, params[j as int]) {
        Some(j as int)
    } else {
        first_misfit(args, params, j + 1)
    }
}

/// The error for arguments `args`, at token `t`, that do not fit the parameter types `params`:
/// a wrong number of them, else the first whose type does not fit; `None` where they fit.
pub open spec fn call_check(t: Token, params: Seq<TypeV>, args: Seq<AstV>) -> Option<ErrV> {
    if args.len() != params.len() {
        Some(perr(t, ParserErrorKind::InvalidArgCount(params.len() as usize)))
    } else {
        match first_misfit(args, params, 0) {
            Some(j) => Some(ErrV::WrongType(t, params[j], args[j].ty)),
            None => None,
        }
    }
}

/// Parsing one statement from position `p`: the node or error, the blocks, and the position after.
/// Parsing only moves forward: a step that succeeds reads at least one token, so the branches
/// for a position that did not move are never taken; they keep these definitions total.
pub open spec fn stmt_spec(c: PCtx, f: Seq<FrameV>, p: nat) -> (Result<AstV, ErrV>, Seq<FrameV>, nat)
    decreases c.toks.len() - p, 10nat,
{
    if p >= c.toks.len() {
        (Err(eof()), f, p)
    } else {
        let (r1, f1, p1) = primary_spec(c, f, p + 1, c.toks[p as int]);
        match r1 {
            Err(e) => (Err(e), f1, p1),
            Ok(n) => if p < p1 <= c.toks.len() {
                infix_loop_spec(c, f1, p1, n)
            } else {
                (Err(eof()), f1, p1)
            },
        }
    }
}

/// Applying infix steps to `node` from position `p` until one takes no step.
pub open spec fn infix_loop_spec(c: PCtx, f: Seq<FrameV>, p: nat, node: AstV) -> (Result<AstV, ErrV>, Seq<FrameV>, nat)
    decreases c.toks.len() - p, 6nat,
{
    let (r, f1, p1) = infix_spec(c, f, p, node);
    match r {
        Err(e) => (Err(e), f1, p1),
        Ok((n, true)) => if p < p1 <= c.toks.len() {
            infix_loop_spec(c, f1, p1, n)
        } else {
            (Err(eof()), f1, p1)
        },
        Ok((n, false)) => (Ok(n), f1, p1),
    }
}

/// One infix step on `node` at position `p`: the node built and whether a step was taken.
pub open spec fn infix_spec(c: PCtx, f: Seq<FrameV>, p: nat, node: AstV) -> (Result<(AstV, bool), ErrV>, Seq<FrameV>, nat)
    decreases c.toks.len() - p, 5nat,
{
    if p >= c.toks.len() {
        (Ok((node, false)), f, p)
    } else {
        let t = c.toks[p as int];
        match t.kind {
            TokenKind::MathOperator(op) => {
                let (r, f1, p1) = stmt_spec(c, f, p + 1);
                match r {
                    Err(e) => (Err(e), f1, p1),
                    Ok(right) => (Ok((AstV {
                        kind: KindV::MathOperation(op, Box::new(node), Box::new(right)),
                        ty: predict_math_spec(op, node.ty, right.ty),
                    }, true)), f1, p1),
                }
            },
            TokenKind::BoolOperator(op) => {
                let (r, f1, p1) = stmt_spec(c, f, p + 1);
                match r {
                    Err(e) => (Err(e), f1, p1),
                    Ok(right) => (Ok((AstV { kind: KindV::BoolOperation(op, Box::new(node), Box::new(right)), ty: TypeV::Bool }, true)), f1, p1),
                }
            },
            TokenKind::Parenthesis(ParenthesisKind::Square, ParenthesisState::Open) => {
                let (r, f1, p1) = stmt_spec(c, f, p + 1);
                match r {
                    Err(e) => (Err(e), f1, p1),
                    Ok(v) => match expect_spec(c.toks, p1, TokenKind::Parenthesis(ParenthesisKind::Square, ParenthesisState::Close)) {
                        Err(e) => (Err(err_view(e)), f1, step(c.toks, p1)),
                        Ok(_) => match node.ty {
                            TypeV::Vector(vt) => (Ok((AstV { kind: KindV::ValueFieldAccess(Box::new(node), Box::new(v)), ty: *vt }, true)), f1, p1 + 1),
                            _ => (Err(perr(t, ParserErrorKind::NotIndexable)), f1, p1 + 1),
                        },
                    },
                }
            },
            TokenKind::Parenthesis(ParenthesisKind::Round, ParenthesisState::Open) => {
                let (r, f1, p1) = params_spec(c, f, p + 1, Seq::empty(), true);
                match r {
                    Err(e) => (Err(e), f1, p1),
                    Ok(args) => match node.ty {
                        TypeV::Function(ps, ret) => match call_check(t, ps, args) {
                            Some(e) => (Err(e), f1, p1),
                            None => (Ok((AstV { kind: KindV::FunctionInvok(Box::new(node), args), ty: *ret }, true)), f1, p1),
                        },
                        _ => (Err(perr(t, ParserErrorKind::NotCallable)), f1, p1),
                    },
                }
            },
            TokenKind::Operator(OperatorKind::Dot) => match token_at(c.toks, p + 1) {
                None => (Err(eof()), f, p + 1),
                Some(t2) => match t2.kind {
                    TokenKind::Symbol(field_name) => match node.ty {
                        TypeV::Class(cname, cmodule) => match class_lookup_v(c.globals, cname, cmodule) {
                            None => (Err(perr(t2, ParserErrorKind::FieldDoesntExist)), f, p + 2),
                            Some(ct) => match member_type(ct, field_name@) {
                                None => (Err(perr(t2, ParserErrorKind::FieldDoesntExist)), f, p + 2),
                                Some(ft) => (Ok((AstV { kind: KindV::FieldAccess(Box::new(node), field_name@), ty: ft }, true)), f, p + 2),
                            },
                        },
                        _ => (Err(perr(t2, ParserErrorKind::InvalidFieldAccess)), f, p + 2),
                    },
                    _ => (Err(ErrV::Plain(unexpected(t2))), f, p + 2),
                },
            },
            TokenKind::Operator(OperatorKind::Assign) => {
                let (r, f1, p1) = stmt_spec(c, f, p + 1);
                match r {
                    Err(e) => (Err(e), f1, p1),
                    Ok(v) => match node.kind {
                        KindV::VariableRef(_, name) =>
                            (Ok((AstV { kind: KindV::VariableAsgn(name, Box::new(v)), ty: TypeV::Nothing }, true)), f1, p1),
                        KindV::FieldAccess(variable, field_name) =>
                            (Ok((AstV { kind: KindV::FieldAsgn(variable, field_name, Box::new(v)), ty: TypeV::Nothing }, true)), f1, p1),
                        _ => (Ok((node, false)), f1, p1),
                    },
                }
            },
            _ => (Ok((node, false)), f, p),
        }
    }
}

/// Parsing the values of a call from position `p`, up to and with the closing `)`; `acc` holds
/// the values read and `next` whether a value is due.
pub open spec fn params_spec(c: PCtx, f: Seq<FrameV>, p: nat, acc: Seq<AstV>, next: bool) -> (Result<Seq<AstV>, ErrV>, Seq<FrameV>, nat)
    decreases c.toks.len() - p, 15nat,
{
    if p >= c.toks.len() {
        (Err(eof()), f, p)
    } else {
        let t = c.toks[p as int];
        match t.kind {
            TokenKind::Parenthesis(ParenthesisKind::Round, ParenthesisState::Close) => (Ok(acc), f, p + 1),
            TokenKind::Operator(OperatorKind::Comma) => if next {
                (Err(perr(t, ParserErrorKind::ParametersExpectedParam)), f, p)
            } else {
                params_spec(c, f, p + 1, acc, true)
            },
            _ => if next {
                let (r, f1, p1) = stmt_spec(c, f, p);
                match r {
                    Err(e) => (Err(e), f1, p1),
                    Ok(n) => if p < p1 <= c.toks.len() {
                        params_spec(c, f1, p1, acc.push(n), false)
                    } else {
                        (Err(eof()), f1, p1)
                    },
                }
            } else {
                (Err(perr(t, ParserErrorKind::ParametersExpectedComma)), f, p)
            },
        }
    }
}

/// Parsing the values of a vector literal from position `p`, up to and with the closing `]`;
/// `vt` is the type that the values read share.
pub open spec fn vector_spec(c: PCtx, f: Seq<FrameV>, p: nat, acc: Seq<AstV>, vt: TypeV, next: bool)
    -> (Result<(TypeV, Seq<AstV>), ErrV>, Seq<FrameV>, nat)
    decreases c.toks.len() - p, 15nat,
{
    if p >= c.toks.len() {
        (Err(eof()), f, p)
    } else {
        let t = c.toks[p as int];
        match t.kind {
            TokenKind::Parenthesis(ParenthesisKind::Square, ParenthesisState::Close) => (Ok((vt, acc)), f, p + 1),
            TokenKind::Operator(OperatorKind::Comma) => if next {
                (Err(perr(t, ParserErrorKind::ParametersExpectedParam)), f, p)
            } else {
                vector_spec(c, f, p + 1, acc, vt, true)
            },
            _ => if next {
                let (r, f1, p1) = stmt_spec(c, f, p);
                match r {
                    Err(e) => (Err(e), f1, p1),
                    Ok(n) => if vt != TypeV::Unknown && vt != n.ty {
                        (Err(ErrV::WrongType(t, n.ty, vt)), f1, p1)
                    } else if p < p1 <= c.toks.len() {
                        vector_spec(c, f1, p1, acc.push(n), if vt == TypeV::Unknown { n.ty } else { vt }, false)
                    } else {
                        (Err(eof()), f1, p1)
                    },
                }
            } else {
                (Err(perr(t, ParserErrorKind::ParametersExpectedComma)), f, p)
            },
        }
    }
}

/// Parsing the fields `name: value` of an object literal from position `p`, up to and with the
/// closing `}`.
pub open spec fn object_spec(c: PCtx, f: Seq<FrameV>, p: nat, acc: Seq<(Seq<char>, AstV)>, next: bool)
    -> (Result<Seq<(Seq<char>, AstV)>, ErrV>, Seq<FrameV>, nat)
    decreases c.toks.len() - p, 15nat,
{
    if p >= c.toks.len() {
        (Err(eof()), f, p)
    } else {
        let t = c.toks[p as int];
        match t.kind {
            TokenKind::Parenthesis(ParenthesisKind::Curly, ParenthesisState::Close) => (Ok(acc), f, p + 1),
            TokenKind::Operator(OperatorKind::Comma) => if next {
                (Err(perr(t, ParserErrorKind::ParametersExpectedParam)), f, p + 1)
            } else {
                object_spec(c, f, p + 1, acc, true)
            },
            TokenKind::Symbol(name) => if next {
                if p + 1 >= c.toks.len() {
                    (Err(eof()), f, p + 1)
                } else if c.toks[p + 1 as int].kind != TokenKind::Operator(OperatorKind::Colon) {
                    (Err(ErrV::Plain(unexpected(t))), f, p + 2)
                } else {
                    let (r, f1, p1) = stmt_spec(c, f, p + 2);
                    match r {
                        Err(e) => (Err(e), f1, p1),
                        Ok(v) => if p < p1 <= c.toks.len() {
                            object_spec(c, f1, p1, acc.push((name@, v)), false)
                        } else {
                            (Err(eof()), f1, p1)
                        },
                    }
                }
            } else {
                (Err(perr(t, ParserErrorKind::ParametersExpectedComma)), f, p + 1)
            },
            _ => if next {
                (Err(ErrV::Plain(unexpected(t))), f, p + 1)
            } else {
                (Err(perr(t, ParserErrorKind::ParametersExpectedComma)), f, p + 1)
            },
        }
    }
}

/// Parsing the statements of a block from position `p` up to and with its closing `}`, or to the
/// end of the tokens.
pub open spec fn body_spec(c: PCtx, f: Seq<FrameV>, p: nat, acc: Seq<AstV>) -> (Result<Seq<AstV>, ErrV>, Seq<FrameV>, nat)
    decreases c.toks.len() - p, 16nat,
{
    if p >= c.toks.len() {
        (Ok(acc), f, p)
    } else {
        let t = c.toks[p as int];
        match t.kind {
            TokenKind::Parenthesis(ParenthesisKind::Curly, ParenthesisState::Close) => (Ok(acc), f, p + 1),
            TokenKind::NewLine => body_spec(c, f, p + 1, acc),
            _ => {
                let (r, f1, p1) = stmt_spec(c, f, p);
                match r {
                    Err(e) => (Err(e), f1, p1),
                    Ok(n) => if p < p1 <= c.toks.len() {
                        body_spec(c, f1, p1, acc.push(n))
                    } else {
                        (Err(eof()), f1, p1)
                    },
                }
            },
        }
    }
}

/// Parsing a block from position `p` in a new inner block where `names` are declared with
/// `types`: the statements or the error, the inner block as it was closed, the blocks outside,
/// and the position after.
pub open spec fn block_spec(c: PCtx, f: Seq<FrameV>, p: nat, names: Seq<Seq<char>>, types: Seq<TypeV>)
    -> (Result<Seq<AstV>, ErrV>, FrameV, Seq<FrameV>, nat)
    decreases c.toks.len() - p, 17nat,
{
    let inner = f.push(FrameV { names, types, eval_type: TypeV::Nothing });
    let (r, f1, p1) = body_spec(c, inner, p, Seq::empty());
    (r, f1.last(), f1.drop_last(), p1)
}

/// Parsing what a token `t` (just read) starts, from position `p`.
pub open spec fn primary_spec(c: PCtx, f: Seq<FrameV>, p: nat, t: Token) -> (Result<AstV, ErrV>, Seq<FrameV>, nat)
    decreases c.toks.len() - p, 20nat,
{
    match t.kind {
        TokenKind::Function => fnlit_spec(c, f, p, t),
        TokenKind::Variable => vardecl_spec(c, f, p, t),
        TokenKind::Symbol(name) => name_spec(c, f, p, t, name@),
        TokenKind::Literal(l) => (Ok(AstV { kind: KindV::Literal(l), ty: literal_type(l) }), f, p),
        TokenKind::Parenthesis(ParenthesisKind::Round, ParenthesisState::Open) => {
            let (r, f1, p1) = stmt_spec(c, f, p);
            match token_at(c.toks, p1) {
                None => (Err(eof()), f1, p1),
                Some(t2) => if t2.kind != TokenKind::Parenthesis(ParenthesisKind::Round, ParenthesisState::Close) {
                    (Err(ErrV::Plain(unexpected(t))), f1, p1 + 1)
                } else {
                    (r, f1, p1 + 1)
                },
            }
        },
        TokenKind::Parenthesis(ParenthesisKind::Square, ParenthesisState::Open) => {
            let (r, f1, p1) = vector_spec(c, f, p, Seq::empty(), TypeV::Unknown, true);
            match r {
                Err(e) => (Err(e), f1, p1),
                Ok((vt, vals)) => (Ok(AstV { kind: KindV::VectorLiteral(vals), ty: TypeV::Vector(Box::new(vt)) }), f1, p1),
            }
        },
        TokenKind::Return | TokenKind::Break => {
            let kind = if t.kind is Return { ReturnKind::Return } else { ReturnKind::Break };
            let none = match token_at(c.toks, p) {
                Some(s) => s.kind == TokenKind::NewLine,
                None => true,
            };
            if none {
                (Ok(AstV { kind: KindV::ReturnStatement(None, kind), ty: TypeV::Nothing }), frames_set_eval(f, TypeV::Nothing), p)
            } else {
                let (r, f1, p1) = stmt_spec(c, f, p);
                match r {
                    Err(e) => (Err(e), f1, p1),
                    Ok(v) => (Ok(AstV { kind: KindV::ReturnStatement(Some(Box::new(v)), kind), ty: TypeV::Nothing }),
                        frames_set_eval(f1, v.ty), p1),
                }
            }
        },
        TokenKind::If | TokenKind::While => {
            let (r, f1, p1) = stmt_spec(c, f, p);
            match r {
                Err(e) => (Err(e), f1, p1),
                Ok(cond) => match expect_spec(c.toks, p1, TokenKind::Indent) {
                    Err(e) => (Err(err_view(e)), f1, step(c.toks, p1)),
                    Ok(_) => if p <= p1 {
                        let (rb, _frame, f2, p2) = block_spec(c, f1, p1 + 1, Seq::empty(), Seq::empty());
                        match rb {
                            Err(e) => (Err(e), f2, p2),
                            Ok(body) => (Ok(AstV {
                                kind: if t.kind is If {
                                    KindV::IfStatement(Box::new(cond), body)
                                } else {
                                    KindV::WhileStatement(Box::new(cond), body)
                                },
                                ty: TypeV::Nothing,
                            }), f2, p2),
                        }
                    } else {
                        (Err(eof()), f1, p1)
                    },
                },
            }
        },
        TokenKind::For => for_spec(c, f, p, t),
        TokenKind::Type(PrimitiveType::Nothing) => (Ok(AstV { kind: KindV::Literal(LiteralKind::Nothing), ty: TypeV::Nothing }), f, p),
        TokenKind::NewLine => stmt_spec(c, f, p),
        _ => (Err(ErrV::Plain(unexpected(t))), f, p),
    }
}

/// Parsing a `for` loop after its keyword `t`, from position `p`.
pub open spec fn for_spec(c: PCtx, f: Seq<FrameV>, p: nat, t: Token) -> (Result<AstV, ErrV>, Seq<FrameV>, nat)
    decreases c.toks.len() - p, 19nat,
{
    match token_at(c.toks, p) {
        None => (Err(eof()), f, p),
        Some(nt) => match nt.kind {
            TokenKind::Symbol(iter) => match expect_spec(c.toks, p + 1, TokenKind::Operator(OperatorKind::In)) {
                Err(e) => (Err(err_view(e)), f, step(c.toks, p + 1)),
                Ok(_) => {
                    let (r1, f1, p1) = stmt_spec(c, f, p + 2);
                    match r1 {
                        Err(e) => (Err(e), f1, p1),
                        Ok(min) => match expect_spec(c.toks, p1, TokenKind::Operator(OperatorKind::Range)) {
                            Err(e) => (Err(err_view(e)), f1, step(c.toks, p1)),
                            Ok(_) => if p <= p1 {
                                let (r2, f2, p2) = stmt_spec(c, f1, p1 + 1);
                                match r2 {
                                    Err(e) => (Err(e), f2, p2),
                                    Ok(max) => match expect_spec(c.toks, p2, TokenKind::Indent) {
                                        Err(e) => (Err(err_view(e)), f2, step(c.toks, p2)),
                                        Ok(_) => if p <= p2 {
                                            let (rb, _frame, f3, p3) = block_spec(c, f2, p2 + 1, seq![iter@], seq![TypeV::Int]);
                                            match rb {
                                                Err(e) => (Err(e), f3, p3),
                                                Ok(body) => (Ok(AstV {
                                                    kind: KindV::ForStatement(Box::new(min), Box::new(max), body, iter@),
                                                    ty: TypeV::Nothing,
                                                }), f3, p3),
                                            }
                                        } else {
                                            (Err(eof()), f2, p2)
                                        },
                                    },
                                }
                            } else {
                                (Err(eof()), f1, p1)
                            },
                        },
                    }
                },
            },
            _ => (Err(ErrV::Plain(unexpected(t))), f, p + 1),
        },
    }
}

/// Parsing a function literal after its keyword `t`, from position `p`: a named one is declared
/// in the innermost block.
pub open spec fn fnlit_spec(c: PCtx, f: Seq<FrameV>, p: nat, t: Token) -> (Result<AstV, ErrV>, Seq<FrameV>, nat)
    decreases c.toks.len() - p, 19nat,
{
    match token_at(c.toks, p) {
        None => (Err(eof()), f, p),
        Some(nt) => {
            let named = nt.kind is Symbol;
            let open = TokenKind::Parenthesis(ParenthesisKind::Round, ParenthesisState::Open);
            if !named && nt.kind != open {
                (Err(ErrV::Plain(unexpected(t))), f, p + 1)
            } else if named && expect_spec(c.toks, p + 1, open) is Err {
                (Err(err_view(expect_spec(c.toks, p + 1, open)->Err_0)), f, step(c.toks, p + 1))
            } else {
                let q = if named { p + 2 } else { p + 1 };
                let (pr, q1) = param_names_spec(c.toks, q, true, Seq::empty(), Seq::empty());
                match pr {
                    Err(e) => (Err(err_view(e)), f, q1),
                    Ok((names, types)) => {
                        let rt = match type_option_spec(c.toks, q1) {
                            Some(x) => x,
                            None => TypeV::Nothing,
                        };
                        let q2 = if type_option_spec(c.toks, q1) is Some { q1 + 1 } else { q1 };
                        match expect_spec(c.toks, q2, TokenKind::Indent) {
                            Err(e) => (Err(err_view(e)), f, step(c.toks, q2)),
                            Ok(_) => if p <= q2 && names.len() == types.len() {
                                let (rb, frame, f2, q3) = block_spec(c, f, q2 + 1, names, types);
                                match rb {
                                    Err(e) => (Err(e), f2, q3),
                                    Ok(body) => if !compatible(frame.eval_type, rt) {
                                        (Err(ErrV::WrongType(t, frame.eval_type, rt)), f2, q3)
                                    } else {
                                        let fty = TypeV::Function(types, Box::new(rt));
                                        let lit = AstV { kind: KindV::FunctionLiteral(body, names, None), ty: fty };
                                        match nt.kind {
                                            TokenKind::Symbol(name) =>
                                                (Ok(AstV { kind: KindV::VariableDecl(name@, Box::new(lit)), ty: TypeV::Nothing }),
                                                    frames_declare(f2, name@, fty), q3),
                                            _ => (Ok(lit), f2, q3),
                                        }
                                    },
                                }
                            } else {
                                (Err(eof()), f, q2)
                            },
                        }
                    },
                }
            }
        },
    }
}

/// Parsing a variable declaration after its keyword `t`, from position `p`: the variable is
/// declared in the innermost block.
pub open spec fn vardecl_spec(c: PCtx, f: Seq<FrameV>, p: nat, t: Token) -> (Result<AstV, ErrV>, Seq<FrameV>, nat)
    decreases c.toks.len() - p, 19nat,
{
    match token_at(c.toks, p) {
        None => (Err(eof()), f, p),
        Some(nt) => match nt.kind {
            TokenKind::Symbol(name) => {
                let at = type_option_spec(c.toks, p + 1);
                let q = if at is Some { p + 2 } else { p + 1 };
                match expect_spec(c.toks, q, TokenKind::Operator(OperatorKind::Assign)) {
                    Err(e) => (Err(err_view(e)), f, step(c.toks, q)),
                    Ok(_) => {
                        let (r, f1, q1) = stmt_spec(c, f, q + 1);
                        match r {
                            Err(e) => (Err(e), f1, q1),
                            Ok(v) => match at {
                                Some(ty) => if !compatible(ty, v.ty) {
                                    (Err(ErrV::WrongType(t, ty, v.ty)), f1, q1)
                                } else {
                                    (Ok(AstV { kind: KindV::VariableDecl(name@, Box::new(v)), ty }), frames_declare(f1, name@, ty), q1)
                                },
                                None => (Ok(AstV { kind: KindV::VariableDecl(name@, Box::new(v)), ty: v.ty }),
                                    frames_declare(f1, name@, v.ty), q1),
                            },
                        }
                    },
                }
            },
            _ => (Err(ErrV::Plain(unexpected(t))), f, p + 1),
        },
    }
}

/// Parsing what the name `name` of token `t` gives, from position `p`: a reference to a value,
/// or the construction of an object of a class with its arguments.
pub open spec fn name_spec(c: PCtx, f: Seq<FrameV>, p: nat, t: Token, name: Seq<char>) -> (Result<AstV, ErrV>, Seq<FrameV>, nat)
    decreases c.toks.len() - p, 19nat,
{
    match ctx_lookup(c, f, name) {
        ScopeGetV::Ref(uid, ty) => (Ok(AstV { kind: KindV::VariableRef(uid, name), ty }), f, p),
        ScopeGetV::NotFound => (Err(perr(t, ParserErrorKind::VarNotFound)), f, p),
        ScopeGetV::Class(_, ct) => match expect_spec(c.toks, p, TokenKind::Parenthesis(ParenthesisKind::Round, ParenthesisState::Open)) {
            Err(e) => (Err(err_view(e)), f, step(c.toks, p)),
            Ok(_) => {
                let (r, f1, p1) = params_spec(c, f, p + 1, Seq::empty(), true);
                match r {
                    Err(e) => (Err(e), f1, p1),
                    Ok(args) => {
                        let check = match find_method(ct.methods, CLASS_CONSTRUCTOR_NAME@) {
                            Some(m) => call_check(t, m.params, args),
                            None => if args.len() != 0 {
                                Some(perr(t, ParserErrorKind::InvalidArgCount(0)))
                            } else {
                                None
                            },
                        };
                        match check {
                            Some(e) => (Err(e), f1, p1),
                            None => (Ok(AstV { kind: KindV::ConstructClass(args, ct.name, ct.module), ty: TypeV::Class(ct.name, ct.module) }), f1, p1),
                        }
                    },
                }
            },
        },
    }
}

/// A result of parsing, as a value.
pub open spec fn res_view(r: Result<ASTNode, LangError>) -> Result<AstV, ErrV> {
    match r {
        Ok(n) => Ok(node_view(n)),
        Err(e) => Err(err_view(e)),
    }
}

/// A list of nodes parsed, or the error, as a value.
pub open spec fn body_res_view(r: Result<Vec<ASTNode>, LangError>) -> Result<Seq<AstV>, ErrV> {
    match r {
        Ok(b) => Ok(nodes_view(b@)),
        Err(e) => Err(err_view(e)),
    }
}

/// Adding a node adds its view.
pub proof fn lemma_nodes_view_push(s: Seq<ASTNode>, n: ASTNode)
    ensures
        nodes_view(s.push(n)) == nodes_view(s).push(node_view(n)),
{
    assert(s.push(n).drop_last() == s);
}

/// Adding a named node adds its view.
pub proof fn lemma_named_nodes_view_push(s: Seq<(String, ASTNode)>, n: (String, ASTNode))
    ensures
        named_nodes_view(s.push(n)) == named_nodes_view(s).push((n.0@, node_view(n.1))),
{
    assert(s.push(n).drop_last() == s);
}

/// The views of a list of nodes, one by one.
pub proof fn lemma_nodes_view_len(s: Seq<ASTNode>)
    ensures
        nodes_view(s).len() == s.len(),
        forall|i: int| 0 <= i < s.len() ==> #[trigger] nodes_view(s)[i] == node_view(s[i]),
    decreases s.len(),
{
    if s.len() > 0 {
        lemma_nodes_view_len(s.drop_last());
        assert forall|i: int| 0 <= i < s.len() implies #[trigger] nodes_view(s)[i] == node_view(s[i]) by {
            if i < s.len() - 1 {
                assert(s.drop_last()[i] == s[i]);
            }
        }
    }
}

/// A `for` loop parsed after its keyword, from position `p`: the iteration variable is the
/// name at `p`, `in` follows it, the lower bound is the expression parsed right after `in`, a
/// `..` follows that expression, and the upper bound is the expression parsed right after the
/// `..`; the loop gives nothing.
pub proof fn law_for_bounds_in_order(c: PCtx, f: Seq<FrameV>, p: nat, t: Token)
    ensures
        for_spec(c, f, p, t).0 matches Ok(node) ==> {
            let (r1, f1, p1) = stmt_spec(c, f, p + 2);
            &&& node.ty == TypeV::Nothing
            &&& node.kind matches KindV::ForStatement(low, high, _, iter)
            &&& token_at(c.toks, p) matches Some(nt) && (nt.kind matches TokenKind::Symbol(name) && iter == name@)
            &&& token_at(c.toks, p + 1) matches Some(it) && it.kind == TokenKind::Operator(OperatorKind::In)
            &&& r1 == Ok::<AstV, ErrV>(*low)
            &&& token_at(c.toks, p1) matches Some(rt) && rt.kind == TokenKind::Operator(OperatorKind::Range)
            &&& stmt_spec(c, f1, p1 + 1).0 == Ok::<AstV, ErrV>(*high)
        },
        for_spec(c, f, p, t).0 matches Ok(node) ==> ({
            let (r1, f1, p1) = stmt_spec(c, f, p + 2);
            let (r2, f2, p2) = stmt_spec(c, f1, p1 + 1);
            &&& token_at(c.toks, p2) matches Some(it) && it.kind == TokenKind::Indent
            &&& node.kind matches KindV::ForStatement(_, _, body, iter)
                && block_spec(c, f2, p2 + 1, seq![iter], seq![TypeV::Int]).0 == Ok::<Seq<AstV>, ErrV>(body)
        }),
{
}

/// An `if` or a `while` parsed after its keyword `t`, from position `p`: the condition is the
/// expression parsed at `p`, an indent follows it, and the body is the block parsed after the
/// indent; the keyword decides which of the two statements it is, and it gives nothing.
pub proof fn law_condition_then_body(c: PCtx, f: Seq<FrameV>, p: nat, t: Token)
    requires
        t.kind == TokenKind::If || t.kind == TokenKind::While,
    ensures
        primary_spec(c, f, p, t).0 matches Ok(node) ==> ({
            let (r1, f1, p1) = stmt_spec(c, f, p);
            &&& node.ty == TypeV::Nothing
            &&& token_at(c.toks, p1) matches Some(it) && it.kind == TokenKind::Indent
            &&& match node.kind {
                KindV::IfStatement(cond, body) => t.kind == TokenKind::If && r1 == Ok::<AstV, ErrV>(*cond)
                    && block_spec(c, f1, p1 + 1, Seq::empty(), Seq::empty()).0 == Ok::<Seq<AstV>, ErrV>(body),
                KindV::WhileStatement(cond, body) => t.kind == TokenKind::While && r1 == Ok::<AstV, ErrV>(*cond)
                    && block_spec(c, f1, p1 + 1, Seq::empty(), Seq::empty()).0 == Ok::<Seq<AstV>, ErrV>(body),
                _ => false,
            }
        }),
{
}

/// What a list already read is, stays at the front of the longer list.
proof fn lemma_prefix_push<A>(acc: Seq<A>, n: A, b: Seq<A>)
    requires
        acc.push(n).is_prefix_of(b),
    ensures
        acc.is_prefix_of(b),
        b[acc.len() as int] == n,
{
    assert(acc =~= b.subrange(0, acc.len() as int)) by {
        assert(acc.push(n) =~= b.subrange(0, acc.len() as int + 1));
        assert forall|j: int| 0 <= j < acc.len() implies acc[j] == b[j] by {
            assert(acc.push(n)[j] == acc[j]);
        }
    }
    assert(acc.push(n)[acc.len() as int] == n);
}

/// The statements of a block come in the order they are written: those already read stay in
/// front, and the next one is the statement parsed first.
pub proof fn law_body_in_order(c: PCtx, f: Seq<FrameV>, p: nat, acc: Seq<AstV>)
    ensures
        body_spec(c, f, p, acc).0 matches Ok(b) ==> acc.is_prefix_of(b),
    decreases c.toks.len() - p,
{
    if p < c.toks.len() {
        let t = c.toks[p as int];
        match t.kind {
            TokenKind::Parenthesis(ParenthesisKind::Curly, ParenthesisState::Close) => {},
            TokenKind::NewLine => law_body_in_order(c, f, p + 1, acc),
            _ => {
                let (r, f1, p1) = stmt_spec(c, f, p);
                if let Ok(n) = r {
                    if p < p1 <= c.toks.len() {
                        law_body_in_order(c, f1, p1, acc.push(n));
                        if let Ok(b) = body_spec(c, f, p, acc).0 {
                            lemma_prefix_push(acc, n, b);
                        }
                    }
                }
            },
        }
    }
}

/// The values of a call come in the order they are written: those already read stay in front.
pub proof fn law_params_in_order(c: PCtx, f: Seq<FrameV>, p: nat, acc: Seq<AstV>, next: bool)
    ensures
        params_spec(c, f, p, acc, next).0 matches Ok(b) ==> acc.is_prefix_of(b),
    decreases c.toks.len() - p,
{
    if p < c.toks.len() {
        let t = c.toks[p as int];
        match t.kind {
            TokenKind::Parenthesis(ParenthesisKind::Round, ParenthesisState::Close) => {},
            TokenKind::Operator(OperatorKind::Comma) => if !next {
                law_params_in_order(c, f, p + 1, acc, true);
            },
            _ => if next {
                let (r, f1, p1) = stmt_spec(c, f, p);
                if let Ok(n) = r {
                    if p < p1 <= c.toks.len() {
                        law_params_in_order(c, f1, p1, acc.push(n), false);
                        if let Ok(b) = params_spec(c, f, p, acc, next).0 {
                            lemma_prefix_push(acc, n, b);
                        }
                    }
                }
            },
        }
    }
}

/// The values of a vector literal come in the order they are written: those already read stay
/// in front.
pub proof fn law_vector_in_order(c: PCtx, f: Seq<FrameV>, p: nat, acc: Seq<AstV>, vt: TypeV, next: bool)
    ensures
        vector_spec(c, f, p, acc, vt, next).0 matches Ok((_, b)) ==> acc.is_prefix_of(b),
    decreases c.toks.len() - p,
{
    if p < c.toks.len() {
        let t = c.toks[p as int];
        match t.kind {
            TokenKind::Parenthesis(ParenthesisKind::Square, ParenthesisState::Close) => {},
            TokenKind::Operator(OperatorKind::Comma) => if !next {
                law_vector_in_order(c, f, p + 1, acc, vt, true);
            },
            _ => if next {
                let (r, f1, p1) = stmt_spec(c, f, p);
                if let Ok(n) = r {
                    if !(vt != TypeV::Unknown && vt != n.ty) && p < p1 <= c.toks.len() {
                        let nvt = if vt == TypeV::Unknown { n.ty } else { vt };
                        law_vector_in_order(c, f1, p1, acc.push(n), nvt, false);
                        if let Ok((_, b)) = vector_spec(c, f, p, acc, vt, next).0 {
                            lemma_prefix_push(acc, n, b);
                        }
                    }
                }
            },
        }
    }
}

/// The fields of an object literal come in the order they are written: those already read stay
/// in front.
pub proof fn law_object_in_order(c: PCtx, f: Seq<FrameV>, p: nat, acc: Seq<(Seq<char>, AstV)>, next: bool)
    ensures
        object_spec(c, f, p, acc, next).0 matches Ok(b) ==> acc.is_prefix_of(b),
    decreases c.toks.len() - p,
{
    if p < c.toks.len() {
        let t = c.toks[p as int];
        match t.kind {
            TokenKind::Parenthesis(ParenthesisKind::Curly, ParenthesisState::Close) => {},
            TokenKind::Operator(OperatorKind::Comma) => if !next {
                law_object_in_order(c, f, p + 1, acc, true);
            },
            TokenKind::Symbol(name) => if next && p + 1 < c.toks.len()
                && c.toks[p + 1 as int].kind == TokenKind::Operator(OperatorKind::Colon) {
                let (r, f1, p1) = stmt_spec(c, f, p + 2);
                if let Ok(v) = r {
                    if p < p1 <= c.toks.len() {
                        law_object_in_order(c, f1, p1, acc.push((name@, v)), false);
                        if let Ok(b) = object_spec(c, f, p, acc, next).0 {
                            lemma_prefix_push(acc, (name@, v), b);
                        }
                    }
                }
            },
            _ => {},
        }
    }
}

/// The first misfit from `j` on is the first argument from `j` on whose type does not fit.
proof fn lemma_first_misfit(args: Seq<AstV>, params: Seq<TypeV>, j: nat)
    requires
        args.len() == params.len(),
    ensures
        first_misfit(args, params, j) matches Some(i) ==> j <= i < args.len() && !compatible(args[i].ty, params[i])
            && forall|k: int| j <= k < i ==> compatible(#[trigger] args[k].ty, params[k]),
        first_misfit(args, params, j) is None ==> forall|k: int| j <= k < args.len() ==> compatible(#[trigger] args[k].ty, params[k]),
    decreases args.len() - j,
{
    if j < args.len() && compatible(args[j as int].ty, params[j as int]) {
        lemma_first_misfit(args, params, j + 1);
    }
}

/// Checking the arguments of a call: a wrong number of them is refused with the number of
/// parameters; otherwise the call is refused exactly where an argument's type does not fit its
/// parameter's, and then for the first such argument, with the parameter's type expected.
pub proof fn law_call_arguments(t: Token, params: Seq<TypeV>, args: Seq<AstV>)
    ensures
        args.len() != params.len() ==> call_check(t, params, args)
            == Some(perr(t, ParserErrorKind::InvalidArgCount(params.len() as usize))),
        args.len() == params.len() ==> (call_check(t, params, args) is None
            <==> forall|k: int| 0 <= k < args.len() ==> compatible(#[trigger] args[k].ty, params[k])),
        args.len() == params.len() ==> (call_check(t, params, args) matches Some(e) ==> exists|i: int| 0 <= i < args.len()
            && e == ErrV::WrongType(t, params[i], args[i].ty) && !compatible(args[i].ty, params[i])
            && forall|k: int| 0 <= k < i ==> compatible(#[trigger] args[k].ty, params[k])),
{
    if args.len() == params.len() {
        lemma_first_misfit(args, params, 0);
        if let Some(i) = first_misfit(args, params, 0) {
            assert(!compatible(args[i].ty, params[i]));
        }
    }
}

} // verus!
