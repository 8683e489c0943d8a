use vstd::prelude::*;
use crate::ast::{ASTBody, ASTNode, Function, NodeKind};
use crate::errors::{LangError, ParserErrorKind, end_of_file_error};
use crate::class::{ClassTypeV, fields_view, find_field, find_method, methods_view};
use crate::module::ModuleUID;
use crate::module_scope::{GlobalKind, ScopeGetResult, ScopeGetV, class_lookup, lemma_class_lookup_view, lemma_globals_view};
use crate::parser_scope::{FrameV, ParserScope, ScopeFrame};
use crate::parse_spec::{
    AstV, ErrV, KindV, PCtx, block_spec, call_check, first_misfit, lemma_nodes_view_len, body_res_view, body_spec, err_view, fnlit_spec, for_spec, infix_spec, lemma_named_nodes_view_push,
    infix_loop_spec, lemma_nodes_view_push, name_spec, named_nodes_view, node_view, nodes_view, object_spec, params_spec, primary_spec, res_view,
    stmt_spec, vardecl_spec, vector_spec,
};
use crate::scope_storage::SCOPE_LIMIT;
use crate::tokens::{LiteralKind, Token, TokenKind, Tokens};
use crate::types::{
    types_view,
    ClassRef, FunctionType, MathOperatorKind, OperatorKind, ParenthesisKind, ParenthesisState, PrimitiveType,
    ReturnKind, TypeKind, TypeV, compatible, lemma_types_view_len,
};
use crate::typing::{body_well_typed, fields_well_typed, lemma_body_push, lemma_fields_push, well_typed};
use crate::module_initializer::lemma_param_names_bounds;
use crate::utils::{TokensExtensions, expect_token, names_view, param_names_spec, parse_parameter_names, parse_type_option, token_at, type_option_spec, unexpected};

verus! {

broadcast use vstd::std_specs::vec::axiom_spec_len;

/// The name of the method that constructs the objects of a class.
pub const CLASS_CONSTRUCTOR_NAME: &'static str = "new";

/// The type of the result of an arithmetic operation on operands of the given types.
pub open spec fn predict_math_spec(kind: MathOperatorKind, a: TypeV, b: TypeV) -> TypeV {
    let numeric = match (a, b) {
        (TypeV::Int, TypeV::Float) | (TypeV::Float, TypeV::Int) | (TypeV::Float, TypeV::Float) => true,
        _ => false,
    };
    let ints = a == TypeV::Int && b == TypeV::Int;
    match kind {
        MathOperatorKind::Plus => if ints { TypeV::Int } else if numeric { TypeV::Float } else { TypeV::Str },
        MathOperatorKind::Minus | MathOperatorKind::Multiply | MathOperatorKind::Modulus =>
            if ints { TypeV::Int } else if numeric { TypeV::Float } else { TypeV::Unknown },
        MathOperatorKind::Divide | MathOperatorKind::Power =>
            if ints || numeric { TypeV::Float } else { TypeV::Unknown },
    }
}

/// The type of a literal value.
pub open spec fn literal_type(l: LiteralKind) -> TypeV {
    match l {
        LiteralKind::Nothing => TypeV::Nothing,
        LiteralKind::Int(_) => TypeV::Int,
        LiteralKind::Float(_) => TypeV::Float,
        LiteralKind::Bool(_) => TypeV::Bool,
        LiteralKind::String(_) => TypeV::Str,
    }
}

/// The type of a literal value.
pub fn literal_type_of(l: &LiteralKind) -> (r: TypeKind)
    ensures
        r@ == literal_type(*l),
{
    match l {
        LiteralKind::Nothing => TypeKind::Nothing,
        LiteralKind::Int(_) => TypeKind::Int,
        LiteralKind::Float(_) => TypeKind::Float,
        LiteralKind::Bool(_) => TypeKind::Bool,
        LiteralKind::String(_) => TypeKind::String,
    }
}

/// Every node of `s` has type `t`, or a type not known while parsing.
pub open spec fn share_type(s: Seq<ASTNode>, t: TypeV) -> bool {
    forall|i: int| 0 <= i < s.len() ==> ((#[trigger] s[i]).eval_type@ == t || s[i].eval_type@ == TypeV::Unknown)
}

/// Nodes that share an unknown type share any type; a node of the shared type can be added.
proof fn lemma_share_type_push(s: Seq<ASTNode>, n: ASTNode, t: TypeV)
    requires
        share_type(s, t) || share_type(s, TypeV::Unknown),
        n.eval_type@ == t,
    ensures
        share_type(s.push(n), t),
{
    assert forall|i: int| 0 <= i < s.len() + 1 implies
        ((#[trigger] s.push(n)[i]).eval_type@ == t || s.push(n)[i].eval_type@ == TypeV::Unknown) by {
        if i < s.len() {
            assert(s.push(n)[i] == s[i]);
        }
    }
}

/// Whether the token just read from `t` is of kind `kind`.
pub open spec fn just_read(t: Tokens, kind: TokenKind) -> bool {
    0 < t.pos <= t.tokens@.len() && t.tokens@[t.pos - 1].kind == kind
}

/// What a list closed by a token of kind `close` and separated by commas gives when its first
/// token is `first`: nothing more to read is the end-of-file error, the closing token at once an
/// empty list, and a comma at once the error for a missing item.
pub open spec fn list_start(first: Option<Token>, close: TokenKind, r_ok_empty: bool, r_err: Option<LangError>) -> bool {
    match first {
        None => r_err == Some(end_of_file_error()),
        Some(t) => if t.kind == close {
            r_ok_empty
        } else if t.kind == TokenKind::Operator(OperatorKind::Comma) {
            r_err == Some(LangError::Parser { token: t, kind: ParserErrorKind::ParametersExpectedParam })
        } else {
            true
        },
    }
}

/// Whether `first` starts a list item: it is there, and neither the closing token nor a comma.
pub open spec fn starts_item(first: Option<Token>, close: TokenKind) -> bool {
    first matches Some(t) && t.kind != close && t.kind != TokenKind::Operator(OperatorKind::Comma)
}

/// Whether `n` is `p` with operators, indexes, calls, field accesses or an assignment applied
/// after it, the way infix parsing builds on the expression that starts a statement.
pub open spec fn built_on(n: ASTNode, p: ASTNode) -> bool
    decreases n,
{
    n == p || match *n.kind {
        NodeKind::MathOperation { operation: _, left, right: _ } => built_on(left, p),
        NodeKind::BoolOperation { operation: _, left, right: _ } => built_on(left, p),
        NodeKind::ValueFieldAccess { variable, value: _ } => built_on(variable, p),
        NodeKind::FunctionInvok { variable, parameters: _ } => built_on(variable, p),
        NodeKind::FieldAccess { variable, field_name: _ } => built_on(variable, p),
        NodeKind::FieldAsgn { variable, field_name, value: _ } =>
            *p.kind == (NodeKind::FieldAccess { variable, field_name }) || built_on(variable, p),
        NodeKind::VariableAsgn { name, value: _ } =>
            *p.kind matches NodeKind::VariableRef { module: _, name: m } && m == name,
        _ => false,
    }
}

/// A step of infix parsing keeps a node built on `p`.
proof fn lemma_infix_builds_on(node: ASTNode, t: Token, t2: Option<Token>, globals: Seq<(String, GlobalKind)>, n: ASTNode, flag: bool, p: ASTNode)
    requires
        built_on(node, p),
        infix_node(node, t, t2, globals, n, flag),
    ensures
        built_on(n, p),
{
    if n != node {
        match t.kind {
            TokenKind::Operator(OperatorKind::Assign) => {
                if *node.kind is FieldAccess && node != p {
                    assert(*node.kind matches NodeKind::FieldAccess { variable, field_name: _ } && built_on(variable, p));
                }
            },
            _ => {},
        }
    }
}

/// Whether the arguments `params` fit the constructor of class `c`: its first method named
/// `new`, or no argument where it has none.
pub open spec fn constructor_accepts(c: ClassTypeV, params: Seq<ASTNode>) -> bool {
    match find_method(c.methods, CLASS_CONSTRUCTOR_NAME@) {
        Some(m) => m.params.len() == params.len()
            && forall|j: int| 0 <= j < params.len() ==> compatible(#[trigger] params[j].eval_type@, m.params[j]),
        None => params.len() == 0,
    }
}

/// Whether a function literal whose parameter list starts at `start` (after its `(`) has the
/// parameters `params` and the type `ty`: the parameter types read there, and the return type
/// written after the list, `nothing` where none is.
pub open spec fn function_header(toks: Seq<Token>, start: nat, params: Seq<Seq<char>>, ty: TypeV) -> bool {
    let (res, p) = param_names_spec(toks, start, true, Seq::empty(), Seq::empty());
    match (res, ty) {
        (Ok((names, types)), TypeV::Function(ps, ret)) => {
            &&& names == params
            &&& types == ps
            &&& *ret == match type_option_spec(toks, p) {
                Some(t) => t,
                None => TypeV::Nothing,
            }
        },
        _ => false,
    }
}

/// The node that the expression starting with token `t` gives: `toks` and `pos` locate the
/// tokens after `t`, and `found` is what the scope gives for `t` where it is a name.
pub open spec fn primary_node(t: Token, toks: Seq<Token>, pos: nat, found: ScopeGetV, n: ASTNode) -> bool {
    match t.kind {
        TokenKind::Literal(l) => *n.kind == (NodeKind::Literal { value: l }) && n.eval_type@ == literal_type(l),
        TokenKind::Type(PrimitiveType::Nothing) =>
            *n.kind == (NodeKind::Literal { value: LiteralKind::Nothing }) && n.eval_type == TypeKind::Nothing,
        TokenKind::Symbol(name) => match found {
            ScopeGetV::Ref(uid, ty) => *n.kind == (NodeKind::VariableRef { module: ModuleUID(uid), name }) && n.eval_type@ == ty,
            ScopeGetV::Class(_, c) => match *n.kind {
                NodeKind::ConstructClass { parameters, class } => {
                    &&& class.name@ == c.name
                    &&& class.module.0 == c.module
                    &&& n.eval_type@ == TypeV::Class(c.name, c.module)
                    &&& constructor_accepts(c, parameters@)
                },
                _ => false,
            },
            ScopeGetV::NotFound => false,
        },
        TokenKind::Variable => match *n.kind {
            NodeKind::VariableDecl { name, value } => {
                &&& token_at(toks, pos) matches Some(s) && s.kind == TokenKind::Symbol(name)
                &&& match type_option_spec(toks, pos + 1) {
                    Some(t) => n.eval_type@ == t && compatible(t, value.eval_type@),
                    None => n.eval_type@ == value.eval_type@,
                }
            },
            _ => false,
        },
        TokenKind::Function => match *n.kind {
            NodeKind::FunctionLiteral { value: f } =>
                (token_at(toks, pos) matches Some(s) && s.kind == TokenKind::Parenthesis(ParenthesisKind::Round, ParenthesisState::Open))
                && function_header(toks, pos + 1, names_view(f.parameters@), n.eval_type@),
            NodeKind::VariableDecl { name, value } =>
                (token_at(toks, pos) matches Some(s) && s.kind == TokenKind::Symbol(name))
                && n.eval_type == TypeKind::Nothing
                && match *value.kind {
                    NodeKind::FunctionLiteral { value: f } => function_header(toks, pos + 2, names_view(f.parameters@), value.eval_type@),
                    _ => false,
                },
            _ => false,
        },
        TokenKind::Parenthesis(ParenthesisKind::Square, ParenthesisState::Open) =>
            *n.kind is VectorLiteral && n.eval_type@ is Vector,
        TokenKind::Return | TokenKind::Break => n.eval_type == TypeKind::Nothing && match *n.kind {
            NodeKind::ReturnStatement { value, kind } => {
                &&& kind == (if t.kind is Return { ReturnKind::Return } else { ReturnKind::Break })
                &&& (value is None) == (match token_at(toks, pos) {
                    Some(s) => s.kind == TokenKind::NewLine,
                    None => true,
                })
            },
            _ => false,
        },
        TokenKind::If => *n.kind is IfStatement && n.eval_type == TypeKind::Nothing,
        TokenKind::While => *n.kind is WhileStatement && n.eval_type == TypeKind::Nothing,
        TokenKind::For => n.eval_type == TypeKind::Nothing && match *n.kind {
            NodeKind::ForStatement { left: _, right: _, body: _, iter_name } =>
                token_at(toks, pos) matches Some(s) && s.kind == TokenKind::Symbol(iter_name),
            _ => false,
        },
        TokenKind::Parenthesis(ParenthesisKind::Round, ParenthesisState::Open) | TokenKind::NewLine => true,
        _ => false,
    }
}

/// The error that the expression starting with token `t` fails with whatever follows: a name
/// that the scope lacks, or a token that starts no expression.
pub open spec fn primary_error(t: Token, found: ScopeGetV) -> Option<LangError> {
    match t.kind {
        TokenKind::Symbol(_) => if found is NotFound {
            Some(LangError::Parser { token: t, kind: ParserErrorKind::VarNotFound })
        } else {
            None
        },
        TokenKind::Literal(_) | TokenKind::Type(PrimitiveType::Nothing) | TokenKind::Function | TokenKind::Variable
        | TokenKind::Return | TokenKind::Break | TokenKind::If | TokenKind::For | TokenKind::While | TokenKind::NewLine
        | TokenKind::Parenthesis(ParenthesisKind::Round, ParenthesisState::Open)
        | TokenKind::Parenthesis(ParenthesisKind::Square, ParenthesisState::Open) => None,
        _ => Some(unexpected(t)),
    }
}

/// Whether the expression starting with token `t` is that token alone: a literal, or a name of
/// a value.
pub open spec fn single_token_primary(t: Token, found: ScopeGetV) -> bool {
    match t.kind {
        TokenKind::Literal(_) | TokenKind::Type(PrimitiveType::Nothing) => true,
        TokenKind::Symbol(_) => found is Ref,
        _ => false,
    }
}

/// Whether a token continues an expression: an arithmetic or logic operator, an index, a call,
/// a field access or an assignment.
pub open spec fn continues_expression(t: Option<Token>) -> bool {
    match t {
        Some(t) => match t.kind {
            TokenKind::MathOperator(_) | TokenKind::BoolOperator(_)
            | TokenKind::Operator(OperatorKind::Dot) | TokenKind::Operator(OperatorKind::Assign)
            | TokenKind::Parenthesis(ParenthesisKind::Square, ParenthesisState::Open)
            | TokenKind::Parenthesis(ParenthesisKind::Round, ParenthesisState::Open) => true,
            _ => false,
        },
        None => false,
    }
}

/// The type that `.name` gives on a value of class `c`: that of its first field of that name,
/// else that of its first method of that name.
pub open spec fn member_type(c: ClassTypeV, name: Seq<char>) -> Option<TypeV> {
    match find_field(c.fields, name) {
        Some(t) => Some(t),
        None => match find_method(c.methods, name) {
            Some(m) => Some(TypeV::Function(m.params, Box::new(m.ret))),
            None => None,
        },
    }
}

/// Whether the value that `node` gives cannot take what token `t` applies to it: an index on a
/// value that is not a vector, a call on one that is not a function, a field access on one that
/// is not an object of a class.
pub open spec fn infix_refused(node: ASTNode, t: Token) -> bool {
    match t.kind {
        TokenKind::Parenthesis(ParenthesisKind::Square, ParenthesisState::Open) => !(node.eval_type@ is Vector),
        TokenKind::Parenthesis(ParenthesisKind::Round, ParenthesisState::Open) => !(node.eval_type@ is Function),
        TokenKind::Operator(OperatorKind::Dot) => !(node.eval_type@ is Class),
        _ => false,
    }
}

/// The node that one step of infix parsing built on `node`, the step starting at token `t`, with
/// `t2` the token after it and `globals` the declarations of the module. The flag tells whether
/// a step was taken.
pub open spec fn infix_node(node: ASTNode, t: Token, t2: Option<Token>, globals: Seq<(String, GlobalKind)>, n: ASTNode, flag: bool) -> bool {
    match t.kind {
        TokenKind::MathOperator(op) => flag && match *n.kind {
            NodeKind::MathOperation { operation, left, right } =>
                operation == op && left == node && n.eval_type@ == predict_math_spec(op, node.eval_type@, right.eval_type@),
            _ => false,
        },
        TokenKind::BoolOperator(op) => flag && match *n.kind {
            NodeKind::BoolOperation { operation, left, right: _ } =>
                operation == op && left == node && n.eval_type == TypeKind::Bool,
            _ => false,
        },
        TokenKind::Parenthesis(ParenthesisKind::Square, ParenthesisState::Open) => flag && match *n.kind {
            NodeKind::ValueFieldAccess { variable, value: _ } =>
                variable == node && node.eval_type@ == TypeV::Vector(Box::new(n.eval_type@)),
            _ => false,
        },
        TokenKind::Parenthesis(ParenthesisKind::Round, ParenthesisState::Open) => flag && match *n.kind {
            NodeKind::FunctionInvok { variable, parameters } => variable == node && match node.eval_type@ {
                TypeV::Function(ps, ret) => {
                    &&& ps.len() == parameters@.len()
                    &&& forall|i: int| 0 <= i < ps.len() ==> compatible(#[trigger] parameters@[i].eval_type@, ps[i])
                    &&& n.eval_type@ == *ret
                },
                _ => false,
            },
            _ => false,
        },
        TokenKind::Operator(OperatorKind::Dot) => flag && match *n.kind {
            NodeKind::FieldAccess { variable, field_name } => {
                &&& variable == node
                &&& t2 matches Some(s) && s.kind == TokenKind::Symbol(field_name)
                &&& match node.eval_type@ {
                    TypeV::Class(cname, cmodule) => class_lookup(globals, cname, cmodule) matches Some(c)
                        && member_type(c, field_name@) == Some(n.eval_type@),
                    _ => false,
                }
            },
            _ => false,
        },
        TokenKind::Operator(OperatorKind::Assign) => if flag {
            match (*node.kind, *n.kind) {
                (NodeKind::VariableRef { module: _, name }, NodeKind::VariableAsgn { name: target, value: _ }) =>
                    target == name && n.eval_type == TypeKind::Nothing,
                (NodeKind::FieldAccess { variable, field_name }, NodeKind::FieldAsgn { variable: target, field_name: field, value: _ }) =>
                    target == variable && field == field_name && n.eval_type == TypeKind::Nothing,
                _ => false,
            }
        } else {
            n == node && !(*node.kind is VariableRef) && !(*node.kind is FieldAccess)
        },
        _ => !flag && n == node,
    }
}

/// Checks the arguments `args` of a call at token `token` against the parameter types
/// `params`: their number, then the type of each in order.
pub fn check_arguments(token: &Token, params: &Vec<TypeKind>, args: &Vec<ASTNode>) -> (r: Result<(), LangError>)
    ensures
        match r {
            Ok(_) => call_check(*token, types_view(params@), nodes_view(args@)) is None,
            Err(e) => call_check(*token, types_view(params@), nodes_view(args@)) == Some(err_view(e)),
        },
        r is Ok ==> args@.len() == params@.len()
            && forall|q: int| 0 <= q < args@.len() ==> compatible(#[trigger] args@[q].eval_type@, params@[q]@),
{
    proof {
        lemma_types_view_len(params@);
        lemma_nodes_view_len(args@);
    }
    if args.len() != params.len() {
        return Err(LangError::parser(token, ParserErrorKind::InvalidArgCount(params.len())));
    }
    let ghost pv = types_view(params@);
    let ghost av = nodes_view(args@);
    let mut j: usize = 0;
    while j < args.len()
        invariant
            j <= args@.len(),
            args@.len() == params@.len(),
            pv == types_view(params@),
            av == nodes_view(args@),
            av.len() == args@.len(),
            pv.len() == params@.len(),
            forall|q: int| 0 <= q < av.len() ==> (#[trigger] av[q]).ty == args@[q].eval_type@,
            forall|q: int| 0 <= q < pv.len() ==> #[trigger] pv[q] == params@[q]@,
            forall|q: int| 0 <= q < j ==> compatible(#[trigger] args@[q].eval_type@, params@[q]@),
            first_misfit(av, pv, 0) == first_misfit(av, pv, j as nat),
        decreases args@.len() - j,
    {
        if !args[j].eval_type.is_compatible(&params[j]) {
            return Err(LangError::wrong_type(token, &params[j], &args[j].eval_type));
        }
        j = j + 1;
    }
    Ok(())
}

impl<'a> ParserScope<'a> {
    /// What parsing with this scope reads from tokens `toks`.
    pub open spec fn pctx(&self, toks: Seq<Token>) -> PCtx {
        PCtx { toks, globals: self.module.globals_v(), uid: self.module_uid.0 }
    }

    /// The type of the result of an arithmetic operation on operands of the given types.
    pub fn predict_math_result(kind: MathOperatorKind, type_a: &TypeKind, type_b: &TypeKind) -> (r: TypeKind)
        ensures
            r@ == predict_math_spec(kind, type_a@, type_b@),
    {
        let ints = match (type_a, type_b) {
            (TypeKind::Int, TypeKind::Int) => true,
            _ => false,
        };
        let numeric = match (type_a, type_b) {
            (TypeKind::Int, TypeKind::Float) => true,
            (TypeKind::Float, TypeKind::Int) => true,
            (TypeKind::Float, TypeKind::Float) => true,
            _ => false,
        };
        match kind {
            MathOperatorKind::Plus => if ints { TypeKind::Int } else if numeric { TypeKind::Float } else { TypeKind::String },
            MathOperatorKind::Minus | MathOperatorKind::Multiply | MathOperatorKind::Modulus =>
                if ints { TypeKind::Int } else if numeric { TypeKind::Float } else { TypeKind::Unknown },
            MathOperatorKind::Divide | MathOperatorKind::Power =>
                if ints || numeric { TypeKind::Float } else { TypeKind::Unknown },
        }
    }

    /// Parses one statement or expression, with the operators that follow it. A class is known
    /// by its name and module: a field access reads the fields and methods of the class from its
    /// declaration among the module's globals, and one on a class not declared there fails with
    /// `FieldDoesntExist`.
    #[verifier::loop_isolation(false)]
    pub fn parse_statement(&mut self, tokens: &mut Tokens) -> (r: Result<ASTNode, LangError>)
        requires
            old(self).wf(),
            old(self).room(*old(tokens)),
        ensures
            final(self).parsed_from(old(self), *old(tokens), *final(tokens)),
            r is Ok ==> final(tokens).remaining() < old(tokens).remaining(),
            r matches Ok(n) ==> well_typed(n),
            stmt_spec(old(self).pctx(old(tokens).tokens@), old(self).frames_v(), old(tokens).pos as nat)
                == (res_view(r), final(self).frames_v(), final(tokens).pos as nat),
            match old(tokens).next_token() {
                None => r == Err::<ASTNode, LangError>(end_of_file_error()),
                Some(t) => {
                    &&& primary_error(t, old(self).token_lookup(t)) matches Some(e) ==> r == Err::<ASTNode, LangError>(e)
                    &&& r matches Ok(n) ==> exists|p: ASTNode|
                        primary_node(t, old(tokens).tokens@, (old(tokens).pos + 1) as nat, old(self).token_lookup(t), p)
                        && #[trigger] built_on(n, p)
                },
            },
        decreases old(tokens).remaining(), 1nat,
    {
        let ghost c = old(self).pctx(old(tokens).tokens@);
        let token = match tokens.pop() {
            Some(t) => t,
            None => return Err(LangError::new_parser_end_of_file()),
        };
        let mut node = match self.parse_primary(token, tokens) {
            Ok(n) => n,
            Err(e) => return Err(e),
        };
        let ghost primary = node;

        loop
            invariant
                self.parsed_from(old(self), *old(tokens), *tokens),
                tokens.remaining() < old(tokens).remaining(),
                self.room(*tokens),
                well_typed(node),
                built_on(node, primary),
                c == self.pctx(tokens.tokens@),
                old(tokens).pos < tokens.pos <= tokens.tokens@.len(),
                stmt_spec(c, old(self).frames_v(), old(tokens).pos as nat)
                    == infix_loop_spec(c, self.frames_v(), tokens.pos as nat, node_view(node)),
            decreases tokens.remaining(),
        {
            let ghost before = node;
            let ghost t = tokens.next_token();
            let ghost t2 = token_at(tokens.tokens@, (tokens.pos + 1) as nat);
            let ghost globals = self.module.globals@;
            let res = match self.parse_infix_step(node, tokens) {
                Ok(x) => x,
                Err(e) => return Err(e),
            };
            proof {
                if continues_expression(t) {
                    lemma_infix_builds_on(before, t->0, t2, globals, res.0, res.1, primary);
                }
            }
            if res.1 {
                node = res.0;
            } else {
                return Ok(res.0);
            }
        }
    }

    /// Parses the expression that `token`, just read, starts: a literal, a name, a declaration,
    /// an expression in parentheses, a vector, or a statement that starts with a keyword.
    #[verifier::loop_isolation(false)]
    fn parse_primary(&mut self, token: Token, tokens: &mut Tokens) -> (r: Result<ASTNode, LangError>)
        requires
            old(self).wf(),
            old(self).room(*old(tokens)),
        ensures
            final(self).parsed_from(old(self), *old(tokens), *final(tokens)),
            r matches Ok(n) ==> well_typed(n),
            r matches Ok(n) ==> primary_node(token, old(tokens).tokens@, old(tokens).pos as nat, old(self).token_lookup(token), n),
            primary_error(token, old(self).token_lookup(token)) matches Some(e) ==> r == Err::<ASTNode, LangError>(e),
            single_token_primary(token, old(self).token_lookup(token)) ==>
                *final(tokens) == *old(tokens) && final(self).frames_v() == old(self).frames_v(),
            token.kind is Variable || token.kind is Function ==> (r matches Ok(n) ==> match *n.kind {
                NodeKind::VariableDecl { name, value } => {
                    &&& final(self).top().names.last() == name@
                    &&& final(self).top().types.last() == (if token.kind is Variable { n.eval_type@ } else { value.eval_type@ })
                },
                _ => true,
            }),
            token.kind is Return || token.kind is Break ==> (r matches Ok(n) ==> match *n.kind {
                NodeKind::ReturnStatement { value, kind: _ } => final(self).top().eval_type == match value {
                    Some(v) => v.eval_type@,
                    None => TypeV::Nothing,
                },
                _ => true,
            }),
            primary_spec(old(self).pctx(old(tokens).tokens@), old(self).frames_v(), old(tokens).pos as nat, token)
                == (res_view(r), final(self).frames_v(), final(tokens).pos as nat),
        decreases old(tokens).remaining(), 7nat,
    {
        match &token.kind {
            TokenKind::Function => self.parse_function_literal(&token, tokens),
            TokenKind::Variable => self.parse_variable_declaration(&token, tokens),
            TokenKind::Symbol(name) => self.parse_name(&token, name, tokens),
            TokenKind::Literal(value) => Ok(ASTNode::new(NodeKind::new_literal(value.clone_literal()), literal_type_of(value))),
            TokenKind::Parenthesis(ParenthesisKind::Round, ParenthesisState::Open) => self.parse_parenthesized(&token, tokens),
            TokenKind::Parenthesis(ParenthesisKind::Square, ParenthesisState::Open) => {
                let (vector_type, values) = match self.parse_vector_values(tokens) {
                    Ok(v) => v,
                    Err(e) => return Err(e),
                };
                let n = ASTNode::new(NodeKind::new_vector_literal(values), TypeKind::Vector(Box::new(vector_type)));
                proof { assert(well_typed(n)); }
                Ok(n)
            },
            TokenKind::Return | TokenKind::Break => self.parse_return(&token, tokens),
            TokenKind::If | TokenKind::While => self.parse_conditional(&token, tokens),
            TokenKind::For => self.parse_for(&token, tokens),
            TokenKind::Type(PrimitiveType::Nothing) => Ok(ASTNode::new(NodeKind::new_literal(LiteralKind::Nothing), TypeKind::Nothing)),
            TokenKind::NewLine => self.parse_statement(tokens),
            _ => Err(LangError::new_parser_unexpected_token(&token)),
        }
    }

    /// Parses an expression in parentheses after its `(` token, up to and with the `)`.
    #[verifier::loop_isolation(false)]
    fn parse_parenthesized(&mut self, token: &Token, tokens: &mut Tokens) -> (r: Result<ASTNode, LangError>)
        requires
            old(self).wf(),
            old(self).room(*old(tokens)),
            token.kind == TokenKind::Parenthesis(ParenthesisKind::Round, ParenthesisState::Open),
        ensures
            final(self).parsed_from(old(self), *old(tokens), *final(tokens)),
            r matches Ok(n) ==> well_typed(n),
            primary_spec(old(self).pctx(old(tokens).tokens@), old(self).frames_v(), old(tokens).pos as nat, *token)
                == (res_view(r), final(self).frames_v(), final(tokens).pos as nat),
        decreases old(tokens).remaining(), 6nat,
    {
        let result = self.parse_statement(tokens);
        let close = match tokens.pop_err() {
            Ok(t) => t,
            Err(e) => return Err(e),
        };
        match close.kind {
            TokenKind::Parenthesis(ParenthesisKind::Round, ParenthesisState::Close) => result,
            _ => Err(LangError::new_parser_unexpected_token(token)),
        }
    }

    /// Parses a `return` or `break` after its keyword `token`, with its value unless the line
    /// ends there; the value's type becomes the type that the current block returns.
    #[verifier::loop_isolation(false)]
    fn parse_return(&mut self, token: &Token, tokens: &mut Tokens) -> (r: Result<ASTNode, LangError>)
        requires
            old(self).wf(),
            old(self).room(*old(tokens)),
            token.kind is Return || token.kind is Break,
        ensures
            final(self).parsed_from(old(self), *old(tokens), *final(tokens)),
            r matches Ok(n) ==> well_typed(n),
            r matches Ok(n) ==> primary_node(*token, old(tokens).tokens@, old(tokens).pos as nat, ScopeGetV::NotFound, n),
            r matches Ok(n) ==> match *n.kind {
                NodeKind::ReturnStatement { value, kind: _ } => final(self).top().eval_type == match value {
                    Some(v) => v.eval_type@,
                    None => TypeV::Nothing,
                },
                _ => true,
            },
            primary_spec(old(self).pctx(old(tokens).tokens@), old(self).frames_v(), old(tokens).pos as nat, *token)
                == (res_view(r), final(self).frames_v(), final(tokens).pos as nat),
        decreases old(tokens).remaining(), 6nat,
    {
        let value = match tokens.peek() {
            Some(Token { kind: TokenKind::NewLine, start: _, end: _ }) | None => None,
            Some(_) => match self.parse_statement(tokens) {
                Ok(v) => Some(v),
                Err(e) => return Err(e),
            },
        };

        let kind = match &token.kind {
            TokenKind::Return => ReturnKind::Return,
            _ => ReturnKind::Break,
        };

        let value_type = match &value {
            Some(node) => node.eval_type.clone_type(),
            None => TypeKind::Nothing,
        };
        self.set_eval_type(value_type);

        let n = ASTNode::new(NodeKind::new_return_statement(value, kind), TypeKind::Nothing);
        proof { assert(well_typed(n)); }
        Ok(n)
    }

    /// Parses an `if` or a `while` after its keyword `token`: the condition, then the block.
    #[verifier::loop_isolation(false)]
    fn parse_conditional(&mut self, token: &Token, tokens: &mut Tokens) -> (r: Result<ASTNode, LangError>)
        requires
            old(self).wf(),
            old(self).room(*old(tokens)),
            token.kind is If || token.kind is While,
        ensures
            final(self).parsed_from(old(self), *old(tokens), *final(tokens)),
            r matches Ok(n) ==> well_typed(n),
            r matches Ok(n) ==> primary_node(*token, old(tokens).tokens@, old(tokens).pos as nat, ScopeGetV::NotFound, n),
            primary_spec(old(self).pctx(old(tokens).tokens@), old(self).frames_v(), old(tokens).pos as nat, *token)
                == (res_view(r), final(self).frames_v(), final(tokens).pos as nat),
        decreases old(tokens).remaining(), 6nat,
    {
        // condition
        let condition = match self.parse_statement(tokens) {
            Ok(c) => c,
            Err(e) => return Err(e),
        };
        // indentation
        match expect_token(tokens, TokenKind::Indent) {
            Ok(_) => {},
            Err(e) => return Err(e),
        }
        // the body
        let names: Vec<String> = Vec::new();
        let types: Vec<TypeKind> = Vec::new();
        proof {
            assert(names_view(names@) =~= Seq::<Seq<char>>::empty());
            assert(types_view(types@) =~= Seq::<TypeV>::empty());
        }
        let (body, _) = self.parse_block(tokens, &names, &types);
        let body = match body {
            Ok(b) => b,
            Err(e) => return Err(e),
        };

        match &token.kind {
            TokenKind::If => Ok(ASTNode::new(NodeKind::new_if_statement(condition, body), TypeKind::Nothing)),
            _ => Ok(ASTNode::new(NodeKind::new_while_statement(condition, body), TypeKind::Nothing)),
        }
    }

    /// Parses a `for` loop after its keyword `token`: `name in min..max` and the block, where the
    /// name is declared as an integer.
    #[verifier::loop_isolation(false)]
    fn parse_for(&mut self, token: &Token, tokens: &mut Tokens) -> (r: Result<ASTNode, LangError>)
        requires
            old(self).wf(),
            old(self).room(*old(tokens)),
            token.kind is For,
        ensures
            final(self).parsed_from(old(self), *old(tokens), *final(tokens)),
            r matches Ok(n) ==> well_typed(n),
            r matches Ok(n) ==> primary_node(*token, old(tokens).tokens@, old(tokens).pos as nat, ScopeGetV::NotFound, n),
            for_spec(old(self).pctx(old(tokens).tokens@), old(self).frames_v(), old(tokens).pos as nat, *token)
                == (res_view(r), final(self).frames_v(), final(tokens).pos as nat),
        decreases old(tokens).remaining(), 6nat,
    {
        // iter name
        let next = match tokens.pop_err() {
            Ok(t) => t,
            Err(e) => return Err(e),
        };
        let iter_name = match next.kind {
            TokenKind::Symbol(name) => name,
            _ => return Err(LangError::new_parser_unexpected_token(token)),
        };

        // in
        match expect_token(tokens, TokenKind::Operator(OperatorKind::In)) {
            Ok(_) => {},
            Err(e) => return Err(e),
        }

        // min value
        let min = match self.parse_statement(tokens) {
            Ok(v) => v,
            Err(e) => return Err(e),
        };

        // ..
        match expect_token(tokens, TokenKind::Operator(OperatorKind::Range)) {
            Ok(_) => {},
            Err(e) => return Err(e),
        }

        // max value
        let max = match self.parse_statement(tokens) {
            Ok(v) => v,
            Err(e) => return Err(e),
        };

        // indentation
        match expect_token(tokens, TokenKind::Indent) {
            Ok(_) => {},
            Err(e) => return Err(e),
        }

        // the body, in a block where the iteration variable is declared
        let mut iter_names: Vec<String> = Vec::new();
        iter_names.push(iter_name.clone());
        let mut iter_types: Vec<TypeKind> = Vec::new();
        iter_types.push(TypeKind::Int);
        proof {
            assert(names_view(iter_names@) =~= seq![iter_name@]);
            lemma_types_view_len(iter_types@);
            assert(types_view(iter_types@) =~= seq![TypeV::Int]);
        }
        let (body, _) = self.parse_block(tokens, &iter_names, &iter_types);
        let body = match body {
            Ok(b) => b,
            Err(e) => return Err(e),
        };

        Ok(ASTNode::new(NodeKind::new_for_statement(min, max, body, iter_name), TypeKind::Nothing))
    }

    /// Parses a function literal after the keyword `token`, named or not; a named one is
    /// declared in the current block.
    #[verifier::loop_isolation(false)]
    fn parse_function_literal(&mut self, token: &Token, tokens: &mut Tokens) -> (r: Result<ASTNode, LangError>)
        requires
            old(self).wf(),
            old(self).room(*old(tokens)),
            token.kind is Function,
        ensures
            final(self).parsed_from(old(self), *old(tokens), *final(tokens)),
            r matches Ok(n) ==> well_typed(n),
            r matches Ok(n) ==> primary_node(*token, old(tokens).tokens@, old(tokens).pos as nat, ScopeGetV::NotFound, n),
            r matches Ok(n) ==> match *n.kind {
                NodeKind::VariableDecl { name, value } => {
                    &&& final(self).top().names.last() == name@
                    &&& final(self).top().types.last() == value.eval_type@
                },
                _ => true,
            },
            fnlit_spec(old(self).pctx(old(tokens).tokens@), old(self).frames_v(), old(tokens).pos as nat, *token)
                == (res_view(r), final(self).frames_v(), final(tokens).pos as nat),
        decreases old(tokens).remaining(), 6nat,
    {
        let next = match tokens.pop_err() {
            Ok(t) => t,
            Err(e) => return Err(e),
        };
        let name = match next.kind {
            TokenKind::Symbol(name) => {
                match expect_token(tokens, TokenKind::Parenthesis(ParenthesisKind::Round, ParenthesisState::Open)) {
                    Ok(_) => {},
                    Err(e) => return Err(e),
                }
                Some(name)
            },
            TokenKind::Parenthesis(ParenthesisKind::Round, ParenthesisState::Open) => None,
            _ => return Err(LangError::new_parser_unexpected_token(&token)),
        };

        // ...)
        proof {
            lemma_param_names_bounds(tokens.tokens@, tokens.pos as nat, true, Seq::empty(), Seq::empty());
        }
        let (param_names, param_types) = match parse_parameter_names(tokens) {
            Ok(p) => p,
            Err(e) => return Err(e),
        };

        // return type?
        let ret_type = match parse_type_option(tokens) {
            Some(t) => t,
            None => TypeKind::Nothing,
        };

        // indentation
        match expect_token(tokens, TokenKind::Indent) {
            Ok(_) => {},
            Err(e) => return Err(e),
        }

        // the body, in a block where the parameters are declared
        proof {
            lemma_types_view_len(param_types@);
        }
        let (body, frame) = self.parse_block(tokens, &param_names, &param_types);
        let body = match body {
            Ok(b) => b,
            Err(e) => return Err(e),
        };

        if !frame.eval_type.is_compatible(&ret_type) {
            return Err(LangError::wrong_type(&token, &frame.eval_type, &ret_type));
        }

        let param_types_copy = crate::types::clone_types(&param_types);
        let eval_type = TypeKind::Function(FunctionType(param_types_copy, Box::new(ret_type)));
        let literal_type = eval_type.clone_type();
        let ghost bv = nodes_view(body@);
        let ghost nv = names_view(param_names@);
        let func_literal = ASTNode::new(
            NodeKind::new_function_literal(Function::new(body, param_names, None)),
            literal_type,
        );
        proof {
            lemma_types_view_len(param_types_copy@);
            assert(well_typed(func_literal));
            assert(node_view(func_literal) == AstV { kind: KindV::FunctionLiteral(bv, nv, None), ty: eval_type@ });
        }

        match name {
            Some(name) => {
                let ghost fl = node_view(func_literal);
                self.declare(name.clone(), eval_type);
                let n = ASTNode::new(NodeKind::new_variable_decl(name, func_literal), TypeKind::Nothing);
                proof {
                    assert(node_view(n) == AstV { kind: KindV::VariableDecl(name@, Box::new(fl)), ty: TypeV::Nothing });
                }
                Ok(n)
            },
            None => Ok(func_literal),
        }
    }

    /// Parses a variable declaration after the keyword `token` and declares the variable in the
    /// current block.
    #[verifier::loop_isolation(false)]
    fn parse_variable_declaration(&mut self, token: &Token, tokens: &mut Tokens) -> (r: Result<ASTNode, LangError>)
        requires
            old(self).wf(),
            old(self).room(*old(tokens)),
            token.kind is Variable,
        ensures
            final(self).parsed_from(old(self), *old(tokens), *final(tokens)),
            r matches Ok(n) ==> well_typed(n),
            r matches Ok(n) ==> primary_node(*token, old(tokens).tokens@, old(tokens).pos as nat, ScopeGetV::NotFound, n),
            r matches Ok(n) ==> match *n.kind {
                NodeKind::VariableDecl { name, value: _ } => {
                    &&& final(self).top().names.last() == name@
                    &&& final(self).top().types.last() == n.eval_type@
                },
                _ => true,
            },
            vardecl_spec(old(self).pctx(old(tokens).tokens@), old(self).frames_v(), old(tokens).pos as nat, *token)
                == (res_view(r), final(self).frames_v(), final(tokens).pos as nat),
        decreases old(tokens).remaining(), 6nat,
    {
        // name
        let name = match tokens.pop_err() {
            Ok(t) => t,
            Err(e) => return Err(e),
        };
        let name = match name.kind {
            TokenKind::Symbol(name) => name,
            _ => return Err(LangError::new_parser_unexpected_token(&token)),
        };

        // ?(type)
        let assign_type = parse_type_option(tokens);

        // =
        match expect_token(tokens, TokenKind::Operator(OperatorKind::Assign)) {
            Ok(_) => {},
            Err(e) => return Err(e),
        }

        // value
        let value = match self.parse_statement(tokens) {
            Ok(v) => v,
            Err(e) => return Err(e),
        };

        let eval_type = match assign_type {
            Some(type_kind) => {
                if !type_kind.is_compatible(&value.eval_type) {
                    return Err(LangError::wrong_type(&token, &type_kind, &value.eval_type));
                }
                type_kind
            },
            None => value.eval_type.clone_type(),
        };

        self.declare(name.clone(), eval_type.clone_type());

        let n = ASTNode::new(NodeKind::new_variable_decl(name, value), eval_type);
        proof { assert(well_typed(n)); }
        Ok(n)
    }

    /// Parses what the name `name` of `token` starts: a reference to a value, or the
    /// construction of an object of a class.
    #[verifier::loop_isolation(false)]
    fn parse_name(&mut self, token: &Token, name: &String, tokens: &mut Tokens) -> (r: Result<ASTNode, LangError>)
        requires
            old(self).wf(),
            old(self).room(*old(tokens)),
            token.kind == TokenKind::Symbol(*name),
        ensures
            final(self).parsed_from(old(self), *old(tokens), *final(tokens)),
            r matches Ok(n) ==> well_typed(n),
            r matches Ok(n) ==> primary_node(*token, old(tokens).tokens@, old(tokens).pos as nat, old(self).lookup(name@), n),
            old(self).lookup(name@) is NotFound ==> r == Err::<ASTNode, LangError>(LangError::Parser { token: *token, kind: ParserErrorKind::VarNotFound }),
            old(self).lookup(name@) is Ref ==> *final(tokens) == *old(tokens) && final(self).frames_v() == old(self).frames_v(),
            name_spec(old(self).pctx(old(tokens).tokens@), old(self).frames_v(), old(tokens).pos as nat, *token, name@)
                == (res_view(r), final(self).frames_v(), final(tokens).pos as nat),
        decreases old(tokens).remaining(), 6nat,
    {
        proof {
            lemma_globals_view(self.module.globals@);
        }
        match self.get(name) {
            ScopeGetResult::Class(_, class_type) => {
                match expect_token(tokens, TokenKind::Parenthesis(ParenthesisKind::Round, ParenthesisState::Open)) {
                    Ok(_) => {},
                    Err(e) => return Err(e),
                }

                let parameters = match self.parse_parameter_values(tokens) {
                    Ok(p) => p,
                    Err(e) => return Err(e),
                };

                let constructor_name = String::from_str(CLASS_CONSTRUCTOR_NAME);
                let ghost cm = methods_view(class_type.methods@);
                let mut found: Option<usize> = None;
                let mut m: usize = 0;
                proof {
                    assert(cm.subrange(0, cm.len() as int) == cm);
                }
                while m < class_type.methods.len()
                    invariant
                        m <= class_type.methods@.len(),
                        cm.len() == class_type.methods@.len(),
                        found is None,
                        find_method(cm, CLASS_CONSTRUCTOR_NAME@) == find_method(cm.subrange(m as int, cm.len() as int), CLASS_CONSTRUCTOR_NAME@),
                    decreases class_type.methods@.len() - m,
                {
                    proof {
                        assert(cm.subrange(m as int, cm.len() as int).drop_first() == cm.subrange(m + 1, cm.len() as int));
                    }
                    if class_type.methods[m].0 == constructor_name {
                        found = Some(m);
                        break;
                    }
                    m = m + 1;
                }
                proof {
                    if found is None {
                        assert(cm.subrange(cm.len() as int, cm.len() as int).len() == 0);
                    }
                }

                match found {
                    Some(k) => {
                        // Check parameters types
                        match check_arguments(token, &class_type.methods[k].1.0, &parameters) {
                            Ok(_) => {},
                            Err(e) => return Err(e),
                        }
                        proof {
                            lemma_types_view_len(class_type.methods@[k as int].1.0@);
                        }
                    },
                    None => {
                        if parameters.len() != 0 {
                            return Err(LangError::parser(&token, ParserErrorKind::InvalidArgCount(0)));
                        }
                    },
                }

                let class_ref = ClassRef { name: class_type.name.clone(), module: class_type.module };
                let class_ref2 = class_ref.clone_ref();
                let ghost pv = nodes_view(parameters@);
                let n = ASTNode::new(NodeKind::new_construct_class(parameters, class_ref), TypeKind::Class(class_ref2));
                proof {
                    assert(well_typed(n));
                    assert(node_view(n).kind == KindV::ConstructClass(pv, class_type@.name, class_type@.module));
                }
                Ok(n)
            },
            ScopeGetResult::Ref(uid, type_) => {
                let var_ref = NodeKind::new_variable_ref(uid, name.clone());
                let n = ASTNode::new(var_ref, type_);
                proof { assert(well_typed(n)); }
                Ok(n)
            },
            ScopeGetResult::NotFound => return Err(LangError::parser(&token, ParserErrorKind::VarNotFound)),
        }
    }

    /// Parses what may follow an expression: an operator and its right side, an index, a call,
    /// a field access or an assignment. The flag tells whether something was parsed. A field
    /// access reads the class among the module's declarations.
    #[verifier::loop_isolation(false)]
    #[verifier::rlimit(40)]
    fn parse_infix_step(&mut self, node: ASTNode, tokens: &mut Tokens) -> (r: Result<(ASTNode, bool), LangError>)
        requires
            old(self).wf(),
            old(self).room(*old(tokens)),
        ensures
            final(self).parsed_from(old(self), *old(tokens), *final(tokens)),
            r matches Ok((_, true)) ==> final(tokens).remaining() < old(tokens).remaining(),
            well_typed(node) ==> (r matches Ok((n, _)) ==> well_typed(n)),
            !continues_expression(old(tokens).next_token()) ==> r == Ok::<(ASTNode, bool), LangError>((node, false))
                && *final(tokens) == *old(tokens) && final(self).frames_v() == old(self).frames_v(),
            match old(tokens).next_token() {
                Some(t) => continues_expression(Some(t)) ==> {
                    &&& infix_refused(node, t) ==> r is Err
                    &&& r matches Ok((n, flag)) ==> infix_node(node, t, token_at(old(tokens).tokens@, (old(tokens).pos + 1) as nat), old(self).module.globals@, n, flag)
                },
                None => true,
            },
            infix_spec(old(self).pctx(old(tokens).tokens@), old(self).frames_v(), old(tokens).pos as nat, node_view(node))
                == (match r {
                    Ok((n, b)) => Ok::<(AstV, bool), ErrV>((node_view(n), b)),
                    Err(e) => Err::<(AstV, bool), ErrV>(err_view(e)),
                }, final(self).frames_v(), final(tokens).pos as nat),
        decreases old(tokens).remaining(), 2nat,
    {
        let ghost nv = node_view(node);
        // Getting the infix and returning if it's None
        let infix = match tokens.peek() {
            Some(t) => t,
            None => return Ok((node, false)),
        };

        match infix.kind {
            TokenKind::MathOperator(operator) => {
                tokens.pop();
                let right = match self.parse_statement(tokens) {
                    Ok(v) => v,
                    Err(e) => return Err(e),
                };

                let eval_type = Self::predict_math_result(operator, &node.eval_type, &right.eval_type);
                let ghost rv = node_view(right);
                let n = ASTNode::new(NodeKind::new_math_operation(operator, node, right), eval_type);
                proof {
                    assert(node_view(n) == AstV { kind: KindV::MathOperation(operator, Box::new(nv), Box::new(rv)), ty: eval_type@ });
                }
                Ok((n, true))
            },
            TokenKind::BoolOperator(operator) => {
                tokens.pop();
                let right = match self.parse_statement(tokens) {
                    Ok(v) => v,
                    Err(e) => return Err(e),
                };
                let ghost rv = node_view(right);
                let n = ASTNode::new(NodeKind::new_bool_operation(operator, node, right), TypeKind::Bool);
                proof {
                    assert(node_view(n) == AstV { kind: KindV::BoolOperation(operator, Box::new(nv), Box::new(rv)), ty: TypeV::Bool });
                }
                Ok((n, true))
            },
            TokenKind::Parenthesis(ParenthesisKind::Square, ParenthesisState::Open) => {
                let token = match tokens.pop_err() {
                    Ok(t) => t,
                    Err(e) => return Err(e),
                };

                let value = match self.parse_statement(tokens) {
                    Ok(v) => v,
                    Err(e) => return Err(e),
                };

                match expect_token(tokens, TokenKind::Parenthesis(ParenthesisKind::Square, ParenthesisState::Close)) {
                    Ok(_) => {},
                    Err(e) => return Err(e),
                }

                let vec_type = match &node.eval_type {
                    TypeKind::Vector(vt) => (**vt).clone_type(),
                    _ => return Err(LangError::parser(&token, ParserErrorKind::NotIndexable)),
                };

                let ghost vv = node_view(value);
                let n = ASTNode::new(NodeKind::new_value_field_access(node, value), vec_type);
                proof {
                    assert(node_view(n) == AstV { kind: KindV::ValueFieldAccess(Box::new(nv), Box::new(vv)), ty: vec_type@ });
                }
                Ok((n, true))
            },
            TokenKind::Parenthesis(ParenthesisKind::Round, ParenthesisState::Open) => {
                let token = match tokens.pop_err() {
                    Ok(t) => t,
                    Err(e) => return Err(e),
                };

                let parameters = match self.parse_parameter_values(tokens) {
                    Ok(p) => p,
                    Err(e) => return Err(e),
                };

                // check that node is function
                let ret_type = match &node.eval_type {
                    TypeKind::Function(FunctionType(arg_types, ret_value)) => {
                        // Check parameters types
                        match check_arguments(&token, arg_types, &parameters) {
                            Ok(_) => {},
                            Err(e) => return Err(e),
                        }
                        proof {
                            lemma_types_view_len(arg_types@);
                        }
                        (**ret_value).clone_type()
                    },
                    _ => return Err(LangError::parser(&token, ParserErrorKind::NotCallable)),
                };

                let ghost pv = nodes_view(parameters@);
                let n = ASTNode::new(NodeKind::new_function_invok(node, parameters), ret_type);
                proof {
                    assert(node_view(n) == AstV { kind: KindV::FunctionInvok(Box::new(nv), pv), ty: ret_type@ });
                }
                Ok((n, true))
            },
            TokenKind::Operator(OperatorKind::Dot) => {
                tokens.pop();

                let token = match tokens.pop_err() {
                    Ok(t) => t,
                    Err(e) => return Err(e),
                };

                let field_name = match &token.kind {
                    TokenKind::Symbol(field_name) => field_name.clone(),
                    _ => return Err(LangError::new_parser_unexpected_token(&token)),
                };

                let field_type = match &node.eval_type {
                    TypeKind::Class(class_ref) => {
                        proof {
                            lemma_class_lookup_view(self.module.globals@, class_ref.name@, class_ref.module.0);
                        }
                        let class_type = match self.module.find_class(class_ref) {
                            Some(c) => c,
                            None => return Err(LangError::parser(&token, ParserErrorKind::FieldDoesntExist)),
                        };
                        let ghost cf = fields_view(class_type.fields@);
                        let ghost cm = methods_view(class_type.methods@);
                        let mut found: Option<TypeKind> = None;
                        let mut i: usize = 0;
                        proof {
                            assert(cf.subrange(0, cf.len() as int) == cf);
                        }
                        while i < class_type.fields.len()
                            invariant
                                i <= class_type.fields@.len(),
                                cf.len() == class_type.fields@.len(),
                                found is None,
                                find_field(cf, field_name@) == find_field(cf.subrange(i as int, cf.len() as int), field_name@),
                            decreases class_type.fields@.len() - i,
                        {
                            proof {
                                assert(cf.subrange(i as int, cf.len() as int).drop_first() == cf.subrange(i + 1, cf.len() as int));
                            }
                            if class_type.fields[i].0 == field_name {
                                found = Some(class_type.fields[i].1.clone_type());
                                break;
                            }
                            i = i + 1;
                        }
                        match found {
                            Some(t) => t,
                            None => {
                                proof {
                                    assert(cf.subrange(cf.len() as int, cf.len() as int).len() == 0);
                                }
                                // If the field doesn't exist search for a method
                                let mut method: Option<TypeKind> = None;
                                let mut k: usize = 0;
                                proof {
                                    assert(cm.subrange(0, cm.len() as int) == cm);
                                }
                                while k < class_type.methods.len()
                                    invariant
                                        k <= class_type.methods@.len(),
                                        cm.len() == class_type.methods@.len(),
                                        method is None,
                                        find_method(cm, field_name@) == find_method(cm.subrange(k as int, cm.len() as int), field_name@),
                                    decreases class_type.methods@.len() - k,
                                {
                                    proof {
                                        assert(cm.subrange(k as int, cm.len() as int).drop_first() == cm.subrange(k + 1, cm.len() as int));
                                    }
                                    if class_type.methods[k].0 == field_name {
                                        method = Some(TypeKind::Function(class_type.methods[k].1.clone_fn_type()));
                                        break;
                                    }
                                    k = k + 1;
                                }
                                proof {
                                    if method is None {
                                        assert(cm.subrange(cm.len() as int, cm.len() as int).len() == 0);
                                    }
                                }
                                match method {
                                    Some(t) => t,
                                    None => return Err(LangError::parser(&token, ParserErrorKind::FieldDoesntExist)),
                                }
                            },
                        }
                    },
                    _ => return Err(LangError::parser(&token, ParserErrorKind::InvalidFieldAccess)),
                };

                let ghost fname = field_name@;
                let n = ASTNode::new(NodeKind::new_field_access(node, field_name), field_type);
                proof {
                    assert(node_view(n) == AstV { kind: KindV::FieldAccess(Box::new(nv), fname), ty: field_type@ });
                }
                Ok((n, true))
            },
            TokenKind::Operator(OperatorKind::Assign) => {
                tokens.pop();

                let value = match self.parse_statement(tokens) {
                    Ok(v) => v,
                    Err(e) => return Err(e),
                };
                let ghost vv = node_view(value);

                let ASTNode { kind, eval_type } = node;
                match *kind {
                    NodeKind::VariableRef { module: _, name } => {
                        let ghost nm = name@;
                        let n = ASTNode::new(NodeKind::new_variable_asgn(name, value), TypeKind::Nothing);
                        proof {
                            assert(node_view(n) == AstV { kind: KindV::VariableAsgn(nm, Box::new(vv)), ty: TypeV::Nothing });
                        }
                        Ok((n, true))
                    },
                    NodeKind::FieldAccess { variable, field_name } => {
                        let ghost varv = node_view(variable);
                        let ghost fname = field_name@;
                        let n = ASTNode::new(NodeKind::new_field_asgn(variable, field_name, value), TypeKind::Nothing);
                        proof {
                            assert(node_view(n) == AstV { kind: KindV::FieldAsgn(Box::new(varv), fname, Box::new(vv)), ty: TypeV::Nothing });
                        }
                        Ok((n, true))
                    },
                    other => Ok((ASTNode { kind: Box::new(other), eval_type }, false)),
                }
            },
            _ => Ok((node, false)),
        }
    }

    /// Parses what may follow the expression `node`: an operator and its right side, an index,
    /// a call, a field access or an assignment. The flag tells whether something was parsed.
    /// Where the node's type is a class, that class must be declared in the module of this
    /// scope: a class is known by its name and module, and the fields and methods of a field
    /// access are read from its declaration there.
    pub fn parse_infix(&mut self, node: ASTNode, tokens: &mut Tokens) -> (r: Result<(ASTNode, bool), LangError>)
        requires
            old(self).wf(),
            old(self).room(*old(tokens)),
            match node.eval_type@ {
                TypeV::Class(name, module) => class_lookup(old(self).module.globals@, name, module) is Some,
                _ => true,
            },
        ensures
            final(self).parsed_from(old(self), *old(tokens), *final(tokens)),
            r matches Ok((_, true)) ==> final(tokens).remaining() < old(tokens).remaining(),
            well_typed(node) ==> (r matches Ok((n, _)) ==> well_typed(n)),
            !continues_expression(old(tokens).next_token()) ==> r == Ok::<(ASTNode, bool), LangError>((node, false))
                && *final(tokens) == *old(tokens) && final(self).frames_v() == old(self).frames_v(),
            match old(tokens).next_token() {
                Some(t) => continues_expression(Some(t)) ==> {
                    &&& infix_refused(node, t) ==> r is Err
                    &&& r matches Ok((n, flag)) ==> infix_node(node, t, token_at(old(tokens).tokens@, (old(tokens).pos + 1) as nat), old(self).module.globals@, n, flag)
                },
                None => true,
            },
            infix_spec(old(self).pctx(old(tokens).tokens@), old(self).frames_v(), old(tokens).pos as nat, node_view(node))
                == (match r {
                    Ok((n, b)) => Ok::<(AstV, bool), ErrV>((node_view(n), b)),
                    Err(e) => Err::<(AstV, bool), ErrV>(err_view(e)),
                }, final(self).frames_v(), final(tokens).pos as nat),
    {
        self.parse_infix_step(node, tokens)
    }

    /// Parses a block in a new inner scope where `names` are first declared with `types`; the
    /// inner scope is closed again and given back with the result.
    pub fn parse_block(&mut self, tokens: &mut Tokens, names: &Vec<String>, types: &Vec<TypeKind>)
        -> (r: (Result<ASTBody, LangError>, ScopeFrame))
        requires
            old(self).wf(),
            names@.len() == types@.len(),
            names@.len() + old(tokens).remaining() < SCOPE_LIMIT,
        ensures
            final(self).wf(),
            final(self).module == old(self).module,
            final(self).module_uid == old(self).module_uid,
            final(self).frames_v() == old(self).frames_v(),
            final(tokens).tokens == old(tokens).tokens,
            final(tokens).remaining() <= old(tokens).remaining(),
            final(tokens).pos >= old(tokens).pos,
            final(tokens).pos == old(tokens).pos || final(tokens).pos <= final(tokens).tokens@.len(),
            r.0 matches Ok(b) ==> body_well_typed(b@),
            names_view(names@).is_prefix_of(r.1@.names),
            types_view(types@).is_prefix_of(r.1@.types),
            block_spec(old(self).pctx(old(tokens).tokens@), old(self).frames_v(), old(tokens).pos as nat, names_view(names@), types_view(types@))
                == (body_res_view(r.0), r.1@, final(self).frames_v(), final(tokens).pos as nat),
        decreases old(tokens).remaining(), 4nat,
    {
        let ghost outer = self.frames_v();
        self.new_child();
        let mut i: usize = 0;
        proof {
            assert(names_view(names@).take(0) =~= Seq::<Seq<char>>::empty());
            assert(types_view(types@).take(0) =~= Seq::<TypeV>::empty());
        }
        while i < names.len()
            invariant
                self.wf(),
                self.module == old(self).module,
                self.module_uid == old(self).module_uid,
                self.frames_v().len() == outer.len() + 1,
                self.frames_v().drop_last() == outer,
                i <= names@.len(),
                names@.len() == types@.len(),
                self.top().names.len() == i,
                self.top().names == names_view(names@).take(i as int),
                self.top().types == types_view(types@).take(i as int),
                self.top().eval_type == TypeV::Nothing,
                names@.len() + tokens.remaining() < SCOPE_LIMIT,
                *tokens == *old(tokens),
            decreases names@.len() - i,
        {
            let n = names[i].clone();
            let t = types[i].clone_type();
            let ghost before = self.frames_v();
            self.declare(n, t);
            proof {
                assert(self.frames_v().drop_last() =~= before.drop_last());
                lemma_types_view_len(types@);
                assert(names_view(names@).take(i + 1) =~= names_view(names@).take(i as int).push(names@[i as int]@));
                assert(types_view(types@).take(i + 1) =~= types_view(types@).take(i as int).push(types@[i as int]@));
            }
            i = i + 1;
        }
        proof {
            assert(names_view(names@).take(i as int) =~= names_view(names@));
            lemma_types_view_len(types@);
            assert(types_view(types@).take(i as int) =~= types_view(types@));
            assert(self.frames_v() =~= outer.push(FrameV { names: names_view(names@), types: types_view(types@), eval_type: TypeV::Nothing }));
        }
        let ghost inner = self.frames_v();
        let body = self.parse_body(tokens);
        proof {
            assert(self.frames_v().drop_last() == inner.drop_last());
        }
        let frame = self.close_child();
        proof {
            assert(self.frames_v() =~= outer);
        }
        (body, frame)
    }

    /// Parses the statements of a block up to its closing `}` (read too) or the end of the tokens.
    #[verifier::loop_isolation(false)]
    pub fn parse_body(&mut self, tokens: &mut Tokens) -> (r: Result<ASTBody, LangError>)
        requires
            old(self).wf(),
            old(self).room(*old(tokens)),
        ensures
            final(self).parsed_from(old(self), *old(tokens), *final(tokens)),
            r matches Ok(b) ==> body_well_typed(b@),
            r is Ok ==> final(tokens).remaining() == 0
                || just_read(*final(tokens), TokenKind::Parenthesis(ParenthesisKind::Curly, ParenthesisState::Close)),
            match old(tokens).next_token() {
                None => r matches Ok(b) && b@.len() == 0,
                Some(t) => t.kind == TokenKind::Parenthesis(ParenthesisKind::Curly, ParenthesisState::Close) ==>
                    (r matches Ok(b) && b@.len() == 0 && *final(tokens) == old(tokens).advanced()
                        && final(self).frames_v() == old(self).frames_v()),
            },
            body_spec(old(self).pctx(old(tokens).tokens@), old(self).frames_v(), old(tokens).pos as nat, Seq::empty())
                == (body_res_view(r), final(self).frames_v(), final(tokens).pos as nat),
        decreases old(tokens).remaining(), 3nat,
    {
        let ghost c = old(self).pctx(old(tokens).tokens@);
        let mut body: Vec<ASTNode> = Vec::new();
        proof {
            assert(body@ =~= Seq::<ASTNode>::empty());
        }

        loop
            invariant
                self.parsed_from(old(self), *old(tokens), *tokens),
                self.room(*tokens),
                body_well_typed(body@),
                tokens.pos == old(tokens).pos ==> body@.len() == 0 && self.frames_v() == old(self).frames_v(),
                tokens.pos != old(tokens).pos ==> (old(tokens).next_token() matches Some(t)
                    && t.kind != TokenKind::Parenthesis(ParenthesisKind::Curly, ParenthesisState::Close)),
                c == self.pctx(tokens.tokens@),
                body_spec(c, old(self).frames_v(), old(tokens).pos as nat, Seq::empty())
                    == body_spec(c, self.frames_v(), tokens.pos as nat, nodes_view(body@)),
            decreases tokens.remaining(),
        {
            let token = match tokens.peek() {
                Some(token) => token,
                None => break,
            };

            match token.kind {
                TokenKind::Parenthesis(ParenthesisKind::Curly, ParenthesisState::Close) => break,
                TokenKind::NewLine => {
                    tokens.pop();
                    continue;
                },
                _ => {
                    let result = match self.parse_statement(tokens) {
                        Ok(n) => n,
                        Err(e) => return Err(e),
                    };
                    proof {
                        lemma_body_push(body@, result);
                        lemma_nodes_view_push(body@, result);
                    }
                    body.push(result);
                },
            }
        }

        // Popping the last }
        tokens.pop();

        Ok(body)
    }

    /// Parses the values of a vector literal up to its closing `]`, with the type that they share.
    #[verifier::loop_isolation(false)]
    pub fn parse_vector_values(&mut self, tokens: &mut Tokens) -> (r: Result<(TypeKind, ASTBody), LangError>)
        requires
            old(self).wf(),
            old(self).room(*old(tokens)),
        ensures
            final(self).parsed_from(old(self), *old(tokens), *final(tokens)),
            r matches Ok((t, b)) ==> body_well_typed(b@) && share_type(b@, t@),
            r is Ok ==> just_read(*final(tokens), TokenKind::Parenthesis(ParenthesisKind::Square, ParenthesisState::Close)),
            list_start(old(tokens).next_token(), TokenKind::Parenthesis(ParenthesisKind::Square, ParenthesisState::Close),
                r matches Ok((t, b)) && b@.len() == 0 && t@ == TypeV::Unknown,
                match r { Ok(_) => None, Err(e) => Some(e) }),
            vector_spec(old(self).pctx(old(tokens).tokens@), old(self).frames_v(), old(tokens).pos as nat, Seq::empty(), TypeV::Unknown, true)
                == (match r {
                    Ok((t, b)) => Ok::<(TypeV, Seq<AstV>), ErrV>((t@, nodes_view(b@))),
                    Err(e) => Err::<(TypeV, Seq<AstV>), ErrV>(err_view(e)),
                }, final(self).frames_v(), final(tokens).pos as nat),
        decreases old(tokens).remaining(), 3nat,
    {
        let ghost c = old(self).pctx(old(tokens).tokens@);
        let mut body: Vec<ASTNode> = Vec::new();
        proof {
            assert(body@ =~= Seq::<ASTNode>::empty());
            assert(nodes_view(body@) =~= Seq::<AstV>::empty());
        }
        let mut next_is_argument = true;
        let mut vector_type = TypeKind::Unknown;

        loop
            invariant
                tokens.pos == old(tokens).pos ==> next_is_argument && body@.len() == 0 && vector_type@ == TypeV::Unknown,
                tokens.pos != old(tokens).pos ==> starts_item(old(tokens).next_token(), TokenKind::Parenthesis(ParenthesisKind::Square, ParenthesisState::Close)),
                tokens.tokens == old(tokens).tokens,
                self.parsed_from(old(self), *old(tokens), *tokens),
                self.room(*tokens),
                body_well_typed(body@),
                share_type(body@, vector_type@),
                c == self.pctx(tokens.tokens@),
                vector_spec(c, old(self).frames_v(), old(tokens).pos as nat, Seq::empty(), TypeV::Unknown, true)
                    == vector_spec(c, self.frames_v(), tokens.pos as nat, nodes_view(body@), vector_type@, next_is_argument),
            decreases tokens.remaining(),
        {
            let token = match tokens.peek() {
                Some(token) => token,
                None => return Err(LangError::new_parser_end_of_file()),
            };

            match &token.kind {
                TokenKind::Parenthesis(ParenthesisKind::Square, ParenthesisState::Close) => break,
                TokenKind::Operator(OperatorKind::Comma) => {
                    if next_is_argument {
                        return Err(LangError::parser(&token, ParserErrorKind::ParametersExpectedParam));
                    } else {
                        tokens.pop();
                        next_is_argument = true;
                        continue;
                    }
                },
                _ => {
                    if next_is_argument {
                        next_is_argument = false;

                        let node = match self.parse_statement(tokens) {
                            Ok(n) => n,
                            Err(e) => return Err(e),
                        };
                        if vector_type.is_unknown() {
                            vector_type = node.eval_type.clone_type();
                        } else if !vector_type.equals(&node.eval_type) {
                            return Err(LangError::parser(
                                &token,
                                ParserErrorKind::WrontType(node.eval_type.clone_type(), vector_type.clone_type()),
                            ));
                        }

                        proof {
                            lemma_body_push(body@, node);
                            lemma_share_type_push(body@, node, vector_type@);
                            lemma_nodes_view_push(body@, node);
                        }
                        body.push(node);
                    } else {
                        return Err(LangError::parser(&token, ParserErrorKind::ParametersExpectedComma));
                    }
                },
            }
        }

        // Popping the last ]
        tokens.pop();

        Ok((vector_type, body))
    }

    /// Parses the values of a call up to its closing `)`.
    #[verifier::loop_isolation(false)]
    pub fn parse_parameter_values(&mut self, tokens: &mut Tokens) -> (r: Result<ASTBody, LangError>)
        requires
            old(self).wf(),
            old(self).room(*old(tokens)),
        ensures
            final(self).parsed_from(old(self), *old(tokens), *final(tokens)),
            r matches Ok(b) ==> body_well_typed(b@),
            r is Ok ==> just_read(*final(tokens), TokenKind::Parenthesis(ParenthesisKind::Round, ParenthesisState::Close)),
            list_start(old(tokens).next_token(), TokenKind::Parenthesis(ParenthesisKind::Round, ParenthesisState::Close),
                r matches Ok(b) && b@.len() == 0,
                match r { Ok(_) => None, Err(e) => Some(e) }),
            params_spec(old(self).pctx(old(tokens).tokens@), old(self).frames_v(), old(tokens).pos as nat, Seq::empty(), true)
                == (body_res_view(r), final(self).frames_v(), final(tokens).pos as nat),
        decreases old(tokens).remaining(), 3nat,
    {
        let ghost c = old(self).pctx(old(tokens).tokens@);
        let mut body: Vec<ASTNode> = Vec::new();
        proof {
            assert(body@ =~= Seq::<ASTNode>::empty());
            assert(nodes_view(body@) =~= Seq::<AstV>::empty());
        }
        let mut next_is_argument = true;

        loop
            invariant
                tokens.pos == old(tokens).pos ==> next_is_argument && body@.len() == 0,
                tokens.pos != old(tokens).pos ==> starts_item(old(tokens).next_token(), TokenKind::Parenthesis(ParenthesisKind::Round, ParenthesisState::Close)),
                tokens.tokens == old(tokens).tokens,
                self.parsed_from(old(self), *old(tokens), *tokens),
                self.room(*tokens),
                body_well_typed(body@),
                c == self.pctx(tokens.tokens@),
                params_spec(c, old(self).frames_v(), old(tokens).pos as nat, Seq::empty(), true)
                    == params_spec(c, self.frames_v(), tokens.pos as nat, nodes_view(body@), next_is_argument),
            decreases tokens.remaining(),
        {
            let token = match tokens.peek() {
                Some(token) => token,
                None => return Err(LangError::new_parser_end_of_file()),
            };

            match &token.kind {
                TokenKind::Parenthesis(ParenthesisKind::Round, ParenthesisState::Close) => break,
                TokenKind::Operator(OperatorKind::Comma) => {
                    if next_is_argument {
                        return Err(LangError::parser(&token, ParserErrorKind::ParametersExpectedParam));
                    } else {
                        tokens.pop();
                        next_is_argument = true;
                        continue;
                    }
                },
                _ => {
                    if next_is_argument {
                        next_is_argument = false;
                        let node = match self.parse_statement(tokens) {
                            Ok(n) => n,
                            Err(e) => return Err(e),
                        };
                        proof {
                            lemma_body_push(body@, node);
                            lemma_nodes_view_push(body@, node);
                        }
                        body.push(node);
                    } else {
                        return Err(LangError::parser(&token, ParserErrorKind::ParametersExpectedComma));
                    }
                },
            }
        }

        // Popping the last )
        tokens.pop();

        Ok(body)
    }

    /// Parses the fields of an object literal `name: value, ...` up to its closing `}`.
    #[verifier::loop_isolation(false)]
    pub fn parse_object_values(&mut self, tokens: &mut Tokens) -> (r: Result<Vec<(String, ASTNode)>, LangError>)
        requires
            old(self).wf(),
            old(self).room(*old(tokens)),
        ensures
            final(self).parsed_from(old(self), *old(tokens), *final(tokens)),
            r matches Ok(v) ==> fields_well_typed(v@),
            r is Ok ==> just_read(*final(tokens), TokenKind::Parenthesis(ParenthesisKind::Curly, ParenthesisState::Close)),
            list_start(old(tokens).next_token(), TokenKind::Parenthesis(ParenthesisKind::Curly, ParenthesisState::Close),
                r matches Ok(v) && v@.len() == 0,
                match r { Ok(_) => None, Err(e) => Some(e) }),
            object_spec(old(self).pctx(old(tokens).tokens@), old(self).frames_v(), old(tokens).pos as nat, Seq::empty(), true)
                == (match r {
                    Ok(v) => Ok::<Seq<(Seq<char>, AstV)>, ErrV>(named_nodes_view(v@)),
                    Err(e) => Err::<Seq<(Seq<char>, AstV)>, ErrV>(err_view(e)),
                }, final(self).frames_v(), final(tokens).pos as nat),
        decreases old(tokens).remaining(), 3nat,
    {
        let ghost c = old(self).pctx(old(tokens).tokens@);
        let mut res: Vec<(String, ASTNode)> = Vec::new();
        proof {
            assert(res@ =~= Seq::<(String, ASTNode)>::empty());
            assert(named_nodes_view(res@) =~= Seq::<(Seq<char>, AstV)>::empty());
        }
        let mut next_is_argument = true;

        loop
            invariant
                tokens.pos == old(tokens).pos ==> next_is_argument && res@.len() == 0,
                tokens.pos != old(tokens).pos ==> starts_item(old(tokens).next_token(), TokenKind::Parenthesis(ParenthesisKind::Curly, ParenthesisState::Close)),
                tokens.tokens == old(tokens).tokens,
                self.parsed_from(old(self), *old(tokens), *tokens),
                self.room(*tokens),
                fields_well_typed(res@),
                c == self.pctx(tokens.tokens@),
                object_spec(c, old(self).frames_v(), old(tokens).pos as nat, Seq::empty(), true)
                    == object_spec(c, self.frames_v(), tokens.pos as nat, named_nodes_view(res@), next_is_argument),
            decreases tokens.remaining(),
        {
            let token = match tokens.pop() {
                Some(token) => token,
                None => return Err(LangError::new_parser_end_of_file()),
            };

            match &token.kind {
                TokenKind::Parenthesis(ParenthesisKind::Curly, ParenthesisState::Close) => break,
                TokenKind::Operator(OperatorKind::Comma) => {
                    if next_is_argument {
                        return Err(LangError::parser(&token, ParserErrorKind::ParametersExpectedParam));
                    } else {
                        next_is_argument = true;
                        continue;
                    }
                },
                token_kind => {
                    if next_is_argument {
                        next_is_argument = false;

                        // name
                        let name = match token_kind {
                            TokenKind::Symbol(name) => name.clone(),
                            _ => return Err(LangError::new_parser_unexpected_token(&token)),
                        };

                        // :
                        match tokens.pop() {
                            Some(Token { kind: TokenKind::Operator(OperatorKind::Colon), start: _, end: _ }) => (),
                            Some(_) => return Err(LangError::new_parser_unexpected_token(&token)),
                            None => return Err(LangError::new_parser_end_of_file()),
                        }

                        // value
                        let value = match self.parse_statement(tokens) {
                            Ok(v) => v,
                            Err(e) => return Err(e),
                        };

                        proof {
                            lemma_fields_push(res@, (name, value));
                            lemma_named_nodes_view_push(res@, (name, value));
                        }
                        res.push((name, value));
                    } else {
                        return Err(LangError::parser(&token, ParserErrorKind::ParametersExpectedComma));
                    }
                },
            }
        }

        Ok(res)
    }
}

/// The type the parser predicts for an arithmetic expression from the types `a` and `b` of its
/// operands: two integers give an integer for `+`, `-`, `*` and `%`, and a float for `/` and
/// `^`; an integer with a float, or two floats, give a float; any other pair gives a string for
/// `+` and an unknown type for the other operators.
pub proof fn law_predicted_arithmetic(kind: MathOperatorKind, a: TypeV, b: TypeV)
    ensures
        a == TypeV::Int && b == TypeV::Int ==> predict_math_spec(kind, a, b) == match kind {
            MathOperatorKind::Plus => TypeV::Int,
            MathOperatorKind::Minus => TypeV::Int,
            MathOperatorKind::Multiply => TypeV::Int,
            MathOperatorKind::Modulus => TypeV::Int,
            MathOperatorKind::Divide => TypeV::Float,
            MathOperatorKind::Power => TypeV::Float,
        },
        (a == TypeV::Int && b == TypeV::Float) || (a == TypeV::Float && b == TypeV::Int) || (a == TypeV::Float && b == TypeV::Float)
            ==> predict_math_spec(kind, a, b) == TypeV::Float,
        !(a == TypeV::Int || a == TypeV::Float) || !(b == TypeV::Int || b == TypeV::Float) ==> predict_math_spec(kind, a, b) == match kind {
            MathOperatorKind::Plus => TypeV::Str,
            _ => TypeV::Unknown,
        },
{
}

} // verus!
