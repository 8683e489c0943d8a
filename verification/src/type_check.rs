use vstd::prelude::*;
use crate::ast::{ASTBody, ASTNode, NodeKind};
use crate::errors::{LangError, ParserErrorKind};
use crate::parser_scope::frame_lookup;
use crate::tokens::{Token, TokenKind};
use crate::types::{MathOperatorKind, ReturnKind, TypeKind, TypeV, compatible};

verus! {

broadcast use {vstd::std_specs::vec::axiom_spec_len, vstd::std_specs::vec::axiom_vec_decreases_to_view};

/// The names declared in one block, with their types, and the type that its `return`
/// statements must give.
pub struct TypeFrame {
    pub names: Vec<String>,
    pub types: Vec<TypeKind>,
    pub ret_type: TypeKind,
}

pub struct TypeFrameV {
    pub names: Seq<Seq<char>>,
    pub types: Seq<TypeV>,
    pub ret: TypeV,
}

impl View for TypeFrame {
    type V = TypeFrameV;

    open spec fn view(&self) -> TypeFrameV {
        TypeFrameV {
            names: self.names@.map_values(|n: String| n@),
            types: crate::types::types_view(self.types@),
            ret: self.ret_type@,
        }
    }
}

/// The scope of the type checker: the blocks that enclose the checked node, innermost last.
pub struct TypeScope {
    pub frames: Vec<TypeFrame>,
}

/// The type of `name`: its latest declaration in the innermost block that declares it, else
/// `Unknown`.
pub open spec fn env_lookup(env: Seq<TypeFrameV>, name: Seq<char>) -> TypeV
    decreases env.len(),
{
    if env.len() == 0 {
        TypeV::Unknown
    } else {
        match frame_lookup(env.last().names, env.last().types, name) {
            Some(t) => t,
            None => env_lookup(env.drop_last(), name),
        }
    }
}

/// The blocks after declaring `name` with type `t` in the innermost one.
pub open spec fn env_declare(env: Seq<TypeFrameV>, name: Seq<char>, t: TypeV) -> Seq<TypeFrameV> {
    env.update(
        env.len() - 1,
        TypeFrameV { names: env.last().names.push(name), types: env.last().types.push(t), ret: env.last().ret },
    )
}

/// The blocks with a new, empty innermost block whose `return` statements must give `ret`.
pub open spec fn env_child(env: Seq<TypeFrameV>, ret: TypeV) -> Seq<TypeFrameV> {
    env.push(TypeFrameV { names: Seq::empty(), types: Seq::empty(), ret })
}

/// What the type checker reports.
pub enum CheckError {
    /// A value of type `got` stands where `expected` is wanted.
    WrongType(TypeV, TypeV),
    /// A function is called with this many arguments, which is not its number of parameters.
    ArgCount(nat),
}

/// The type of a math operation on operands of types `a` and `b`, as the checker sees it.
pub open spec fn math_check_spec(kind: MathOperatorKind, a: TypeV, b: TypeV) -> TypeV {
    let ints = a == TypeV::Int && b == TypeV::Int;
    let mixed = (a == TypeV::Float && b == TypeV::Int) || (a == TypeV::Int && b == TypeV::Float);
    match kind {
        MathOperatorKind::Plus | MathOperatorKind::Multiply =>
            if ints { TypeV::Int } else if mixed { TypeV::Float } else { TypeV::Str },
        MathOperatorKind::Minus | MathOperatorKind::Modulus =>
            if ints { TypeV::Int } else if mixed { TypeV::Float } else { TypeV::Nothing },
        MathOperatorKind::Divide | MathOperatorKind::Power =>
            if ints || mixed { TypeV::Float } else { TypeV::Nothing },
    }
}

/// Checking a node in the blocks `env`: the type it gives or the error, and the blocks after
/// (a declaration adds to the innermost block; inner blocks are gone after their code).
pub open spec fn check_spec(n: ASTNode, env: Seq<TypeFrameV>) -> (Result<TypeV, CheckError>, Seq<TypeFrameV>)
    decreases n, 0nat,
{
    match *n.kind {
        NodeKind::VariableDecl { name, value } => {
            let (r, e1) = check_spec(value, env);
            match r {
                Err(x) => (Err(x), e1),
                Ok(t) => if compatible(t, n.eval_type@) {
                    (Ok(TypeV::Nothing), env_declare(e1, name@, t))
                } else {
                    (Err(CheckError::WrongType(n.eval_type@, t)), e1)
                },
            }
        },
        NodeKind::VariableRef { module: _, name } => (Ok(env_lookup(env, name@)), env),
        NodeKind::VariableAsgn { name, value } => {
            let (r, e1) = check_spec(value, env);
            match r {
                Err(x) => (Err(x), e1),
                Ok(t) => {
                    let vt = env_lookup(e1, name@);
                    if compatible(t, vt) {
                        (Ok(TypeV::Nothing), e1)
                    } else {
                        (Err(CheckError::WrongType(vt, t)), e1)
                    }
                },
            }
        },
        NodeKind::FieldAsgn { variable, field_name: _, value } => {
            let (r, e1) = check_spec(variable, env);
            match r {
                Err(x) => (Err(x), e1),
                Ok(_) => {
                    let (r2, e2) = check_spec(value, e1);
                    match r2 {
                        Err(x) => (Err(x), e2),
                        Ok(_) => (Ok(TypeV::Nothing), e2),
                    }
                },
            }
        },
        NodeKind::FunctionInvok { variable, parameters } => {
            let (r, e1) = check_spec(variable, env);
            match r {
                Err(x) => (Err(x), e1),
                Ok(TypeV::Function(ps, ret)) => if ps.len() != parameters@.len() {
                    (Err(CheckError::ArgCount(parameters@.len())), e1)
                } else {
                    let (r2, e2) = check_args_spec(ps, parameters@, 0, e1);
                    match r2 {
                        Err(x) => (Err(x), e2),
                        Ok(_) => (Ok(*ret), e2),
                    }
                },
                Ok(_) => (Ok(TypeV::Unknown), e1),
            }
        },
        NodeKind::Literal { value: _ } => (Ok(n.eval_type@), env),
        NodeKind::FunctionLiteral { value } => match n.eval_type@ {
            TypeV::Function(_, ret) => {
                let (r, _) = check_body_spec(value.body@, 0, env_child(env, *ret));
                match r {
                    Err(x) => (Err(x), env),
                    Ok(_) => (Ok(n.eval_type@), env),
                }
            },
            _ => (Ok(n.eval_type@), env),
        },
        NodeKind::MathOperation { operation, left, right } => {
            let (rl, e1) = check_spec(left, env);
            match rl {
                Err(x) => (Err(x), e1),
                Ok(lt) => {
                    let (rr, e2) = check_spec(right, e1);
                    match rr {
                        Err(x) => (Err(x), e2),
                        Ok(rt) => (Ok(math_check_spec(operation, lt, rt)), e2),
                    }
                },
            }
        },
        NodeKind::BoolOperation { .. } => (Ok(TypeV::Bool), env),
        NodeKind::ReturnStatement { value, kind } => match kind {
            ReturnKind::Return => {
                let (r, e1) = match value {
                    Some(v) => check_spec(v, env),
                    None => (Ok(TypeV::Nothing), env),
                };
                match r {
                    Err(x) => (Err(x), e1),
                    Ok(t) => if compatible(t, e1.last().ret) {
                        (Ok(TypeV::Nothing), e1)
                    } else {
                        (Err(CheckError::WrongType(e1.last().ret, t)), e1)
                    },
                }
            },
            _ => (Ok(TypeV::Nothing), env),
        },
        NodeKind::IfStatement { condition, body } => {
            let (r, e1) = check_spec(condition, env);
            match r {
                Err(x) => (Err(x), e1),
                Ok(_) => {
                    let (rb, _) = check_body_spec(body@, 0, env_child(e1, e1.last().ret));
                    match rb {
                        Err(x) => (Err(x), e1),
                        Ok(_) => (Ok(TypeV::Nothing), e1),
                    }
                },
            }
        },
        NodeKind::ForStatement { left, right, body, iter_name } => {
            let (rl, e1) = check_spec(left, env);
            match rl {
                Err(x) => (Err(x), e1),
                Ok(_) => {
                    let (rr, e2) = check_spec(right, e1);
                    match rr {
                        Err(x) => (Err(x), e2),
                        Ok(_) => {
                            let inner = env_declare(env_child(e2, e2.last().ret), iter_name@, TypeV::Unknown);
                            let (rb, _) = check_body_spec(body@, 0, inner);
                            match rb {
                                Err(x) => (Err(x), e2),
                                Ok(_) => (Ok(TypeV::Unknown), e2),
                            }
                        },
                    }
                },
            }
        },
        NodeKind::WhileStatement { condition, body } => {
            let (r, e1) = check_spec(condition, env);
            match r {
                Err(x) => (Err(x), e1),
                Ok(_) => {
                    let (rb, _) = check_body_spec(body@, 0, env_child(e1, e1.last().ret));
                    match rb {
                        Err(x) => (Err(x), e1),
                        Ok(_) => (Ok(TypeV::Unknown), e1),
                    }
                },
            }
        },
        NodeKind::FieldAccess { variable, field_name: _ } => {
            let (r, e1) = check_spec(variable, env);
            match r {
                Err(x) => (Err(x), e1),
                Ok(_) => (Ok(TypeV::Unknown), e1),
            }
        },
        NodeKind::VectorLiteral { values: _ } => (Ok(n.eval_type@), env),
        NodeKind::ObjectLiteral { values } => {
            let (r, e1) = check_fields_spec(values@, 0, env);
            match r {
                Err(x) => (Err(x), e1),
                Ok(_) => (Ok(TypeV::Unknown), e1),
            }
        },
        NodeKind::ValueFieldAccess { .. } => (Ok(TypeV::Unknown), env),
        NodeKind::ConstructClass { parameters, class } => {
            let (r, e1) = check_body_spec(parameters@, 0, env);
            match r {
                Err(x) => (Err(x), e1),
                Ok(_) => (Ok(TypeV::Class(class.name@, class.module.0)), e1),
            }
        },
    }
}

/// Checking the nodes of `b` from index `i` on, one after the other.
pub open spec fn check_body_spec(b: Seq<ASTNode>, i: nat, env: Seq<TypeFrameV>) -> (Result<(), CheckError>, Seq<TypeFrameV>)
    decreases b, b.len() - i,
{
    if i >= b.len() {
        (Ok(()), env)
    } else {
        let (r, e1) = check_spec(b[i as int], env);
        match r {
            Err(x) => (Err(x), e1),
            Ok(_) => check_body_spec(b, i + 1, e1),
        }
    }
}

/// Checking the values of `fields` from index `i` on, one after the other.
pub open spec fn check_fields_spec(fields: Seq<(String, ASTNode)>, i: nat, env: Seq<TypeFrameV>) -> (Result<(), CheckError>, Seq<TypeFrameV>)
    decreases fields, fields.len() - i,
{
    if i >= fields.len() {
        (Ok(()), env)
    } else {
        let (r, e1) = check_spec(fields[i as int].1, env);
        match r {
            Err(x) => (Err(x), e1),
            Ok(_) => check_fields_spec(fields, i + 1, e1),
        }
    }
}

/// Checking the arguments `args` of a call from index `i` on against the parameter types `ps`.
pub open spec fn check_args_spec(ps: Seq<TypeV>, args: Seq<ASTNode>, i: nat, env: Seq<TypeFrameV>) -> (Result<(), CheckError>, Seq<TypeFrameV>)
    decreases args, args.len() - i,
{
    if i >= args.len() {
        (Ok(()), env)
    } else {
        let (r, e1) = check_spec(args[i as int], env);
        match r {
            Err(x) => (Err(x), e1),
            Ok(t) => if compatible(ps[i as int], t) {
                check_args_spec(ps, args, i + 1, e1)
            } else {
                (Err(CheckError::WrongType(ps[i as int], t)), e1)
            },
        }
    }
}

/// The token that errors of the type checker carry: they point at no place of the source.
pub open spec fn no_token() -> Token {
    Token { kind: TokenKind::NewLine, start: 0, end: 0 }
}

/// `e` is the error that reports `x`.
pub open spec fn reports(e: LangError, x: CheckError) -> bool {
    match x {
        CheckError::WrongType(a, b) => e matches LangError::Parser { token, kind: ParserErrorKind::WrontType(ea, eb) }
            && token == no_token() && ea@ == a && eb@ == b,
        CheckError::ArgCount(n) => e matches LangError::Parser { token, kind: ParserErrorKind::InvalidArgCount(c) }
            && token == no_token() && c == n,
    }
}

/// An executable type result agrees with a checked one.
pub open spec fn type_agrees(r: Result<TypeKind, LangError>, s: Result<TypeV, CheckError>) -> bool {
    match (r, s) {
        (Ok(a), Ok(b)) => a@ == b,
        (Err(e), Err(x)) => reports(e, x),
        _ => false,
    }
}

/// An executable result without a value agrees with a checked one.
pub open spec fn unit_agrees(r: Result<(), LangError>, s: Result<(), CheckError>) -> bool {
    match (r, s) {
        (Ok(_), Ok(_)) => true,
        (Err(e), Err(x)) => reports(e, x),
        _ => false,
    }
}

fn wrong_type_error(expected: &TypeKind, got: &TypeKind) -> (r: LangError)
    ensures
        reports(r, CheckError::WrongType(expected@, got@)),
{
    LangError::parser(
        &Token::new(TokenKind::NewLine, 0, 0),
        ParserErrorKind::WrontType(expected.clone_type(), got.clone_type()),
    )
}

impl TypeScope {
    pub open spec fn env(&self) -> Seq<TypeFrameV> {
        self.frames@.map_values(|f: TypeFrame| f@)
    }

    /// Every block holds as many types as names.
    pub open spec fn wf(&self) -> bool {
        &&& self.frames@.len() > 0
        &&& forall|i: int| 0 <= i < self.frames@.len() ==>
                (#[trigger] self.frames@[i]).names@.len() == self.frames@[i].types@.len()
    }

    /// The outermost scope: one empty block, whose `return` statements may give any type.
    pub fn new_root() -> (r: TypeScope)
        ensures
            r.wf(),
            r.env() == root_env(),
    {
        let mut frames: Vec<TypeFrame> = Vec::new();
        frames.push(TypeFrame { names: Vec::new(), types: Vec::new(), ret_type: TypeKind::Unknown });
        let r = TypeScope { frames };
        proof {
            assert(r.env()[0].names =~= Seq::<Seq<char>>::empty());
            assert(r.env()[0].types =~= Seq::<TypeV>::empty());
            assert(r.env() =~= root_env());
        }
        r
    }

    /// Opens an inner block whose `return` statements must give `ret_type`.
    pub fn new_child_with_ret(&mut self, ret_type: TypeKind)
        requires
            old(self).wf(),
        ensures
            final(self).wf(),
            final(self).env() == env_child(old(self).env(), ret_type@),
    {
        let ghost r = ret_type@;
        self.frames.push(TypeFrame { names: Vec::new(), types: Vec::new(), ret_type });
        proof {
            let f = self.frames@.last();
            assert(f@.names =~= Seq::<Seq<char>>::empty());
            assert(f@.types =~= Seq::<TypeV>::empty());
            assert(self.env() =~= env_child(old(self).env(), r));
        }
    }

    /// Opens an inner block with the same `return` type.
    pub fn new_child(&mut self)
        requires
            old(self).wf(),
        ensures
            final(self).wf(),
            final(self).env() == env_child(old(self).env(), old(self).env().last().ret),
    {
        let ret = self.frames[self.frames.len() - 1].ret_type.clone_type();
        self.new_child_with_ret(ret);
    }

    /// Closes the innermost block.
    pub fn close_child(&mut self)
        requires
            old(self).wf(),
            old(self).frames@.len() > 1,
        ensures
            final(self).wf(),
            final(self).env() == old(self).env().drop_last(),
    {
        self.frames.pop();
        proof {
            assert(self.env() =~= old(self).env().drop_last());
        }
    }

    /// Declares `name` with type `t` in the innermost block.
    pub fn declare_type(&mut self, name: String, t: TypeKind)
        requires
            old(self).wf(),
        ensures
            final(self).wf(),
            final(self).env() == env_declare(old(self).env(), name@, t@),
    {
        let ghost tv = t@;
        let ghost nv = name@;
        let ghost tg = t;
        let mut f = self.frames.pop().unwrap();
        let ghost fv = f@;
        let ghost old_types = f.types@;
        f.names.push(name);
        f.types.push(t);
        proof {
            crate::types::lemma_types_view_push(old_types, tg);
        }
        self.frames.push(f);
        proof {
            assert(f@.names =~= fv.names.push(nv));
            assert(self.env() =~= env_declare(old(self).env(), nv, tv));
        }
    }

    /// The type of `name`: its latest declaration in the innermost block that declares it, else
    /// `Unknown`.
    pub fn get_type(&self, name: &String) -> (r: TypeKind)
        requires
            self.wf(),
        ensures
            r@ == env_lookup(self.env(), name@),
    {
        let mut fi = self.frames.len();
        proof {
            assert(self.env().take(fi as int) =~= self.env());
        }
        while fi > 0
            invariant
                fi <= self.frames@.len(),
                self.wf(),
                env_lookup(self.env(), name@) == env_lookup(self.env().take(fi as int), name@),
            decreases fi,
        {
            let k = fi - 1;
            let frame = &self.frames[k];
            proof {
                let e = self.env().take(fi as int);
                assert(e.last() == frame@);
                assert(e.drop_last() == self.env().take(k as int));
            }
            match find_type_in_frame(frame, name) {
                Some(t) => return t,
                None => {},
            }
            fi = k;
        }
        proof {
            assert(self.env().take(0) =~= Seq::<TypeFrameV>::empty());
        }
        TypeKind::Unknown
    }
}

/// The type of the latest declaration of `name` in one block.
fn find_type_in_frame(frame: &TypeFrame, name: &String) -> (r: Option<TypeKind>)
    requires
        frame.names@.len() == frame.types@.len(),
    ensures
        match r {
            Some(t) => frame_lookup(frame@.names, frame@.types, name@) == Some(t@),
            None => frame_lookup(frame@.names, frame@.types, name@) is None,
        },
{
    let mut i = frame.names.len();
    proof {
        assert(frame@.names.take(i as int) =~= frame@.names);
        crate::types::lemma_types_view_len(frame.types@);
    }
    while i > 0
        invariant
            i <= frame.names@.len(),
            frame.names@.len() == frame.types@.len(),
            frame_lookup(frame@.names, frame@.types, name@) == frame_lookup(frame@.names.take(i as int), frame@.types, name@),
            forall|j: int| 0 <= j < frame.types@.len() ==> #[trigger] frame@.types[j] == frame.types@[j]@,
        decreases i,
    {
        let j = i - 1;
        proof {
            let ns = frame@.names.take(i as int);
            assert(ns.last() == frame@.names[j as int]);
            assert(ns.drop_last() == frame@.names.take(j as int));
        }
        if frame.names[j] == *name {
            return Some(frame.types[j].clone_type());
        }
        i = j;
    }
    proof {
        assert(frame@.names.take(0) =~= Seq::<Seq<char>>::empty());
    }
    None
}

/// The blocks of a fresh type checker.
pub open spec fn root_env() -> Seq<TypeFrameV> {
    seq![TypeFrameV { names: Seq::empty(), types: Seq::empty(), ret: TypeV::Unknown }]
}

fn arg_count_error(count: usize) -> (r: LangError)
    ensures
        reports(r, CheckError::ArgCount(count as nat)),
{
    LangError::parser(&Token::new(TokenKind::NewLine, 0, 0), ParserErrorKind::InvalidArgCount(count))
}

/// The type of a math operation on operands of types `a` and `b`, as the checker sees it.
fn math_check(kind: MathOperatorKind, a: &TypeKind, b: &TypeKind) -> (r: TypeKind)
    ensures
        r@ == math_check_spec(kind, a@, b@),
{
    let ints = match (a, b) {
        (TypeKind::Int, TypeKind::Int) => true,
        _ => false,
    };
    let mixed = match (a, b) {
        (TypeKind::Float, TypeKind::Int) | (TypeKind::Int, TypeKind::Float) => true,
        _ => false,
    };
    match kind {
        MathOperatorKind::Plus | MathOperatorKind::Multiply =>
            if ints { TypeKind::Int } else if mixed { TypeKind::Float } else { TypeKind::String },
        MathOperatorKind::Minus | MathOperatorKind::Modulus =>
            if ints { TypeKind::Int } else if mixed { TypeKind::Float } else { TypeKind::Nothing },
        MathOperatorKind::Divide | MathOperatorKind::Power =>
            if ints || mixed { TypeKind::Float } else { TypeKind::Nothing },
    }
}

/// Checks the types of the statements of a program, in a fresh scope.
pub fn check_types(body: &ASTBody) -> (r: Result<(), LangError>)
    ensures
        unit_agrees(r, check_body_spec(body@, 0, root_env()).0),
{
    let mut scope = TypeScope::new_root();
    check_body(body, &mut scope)?;
    Ok(())
}

/// Checks the nodes of `body` one after the other.
fn check_body(body: &Vec<ASTNode>, scope: &mut TypeScope) -> (r: Result<(), LangError>)
    requires
        old(scope).wf(),
    ensures
        final(scope).wf(),
        final(scope).env().len() == old(scope).env().len(),
        final(scope).env().drop_last() == old(scope).env().drop_last(),
        unit_agrees(r, check_body_spec(body@, 0, old(scope).env()).0),
        r is Ok ==> final(scope).env() == check_body_spec(body@, 0, old(scope).env()).1,
    decreases body@, 1nat,
{
    let ghost env0 = scope.env();
    let mut i: usize = 0;
    while i < body.len()
        invariant
            scope.wf(),
            scope.env().len() == env0.len(),
            scope.env().drop_last() == env0.drop_last(),
            env0 == old(scope).env(),
            i <= body@.len(),
            check_body_spec(body@, 0, env0) == check_body_spec(body@, i as nat, scope.env()),
        decreases body@.len() - i,
    {
        proof {
            assert(decreases_to!(body@ => body@[i as int]));
        }
        let ghost before = scope.env();
        check_node(&body[i], scope)?;
        i = i + 1;
    }
    Ok(())
}

/// Checks the values of `values` one after the other.
fn check_fields(values: &Vec<(String, ASTNode)>, scope: &mut TypeScope) -> (r: Result<(), LangError>)
    requires
        old(scope).wf(),
    ensures
        final(scope).wf(),
        final(scope).env().len() == old(scope).env().len(),
        final(scope).env().drop_last() == old(scope).env().drop_last(),
        unit_agrees(r, check_fields_spec(values@, 0, old(scope).env()).0),
        r is Ok ==> final(scope).env() == check_fields_spec(values@, 0, old(scope).env()).1,
    decreases values@, 1nat,
{
    let ghost env0 = scope.env();
    let mut i: usize = 0;
    while i < values.len()
        invariant
            scope.wf(),
            scope.env().len() == env0.len(),
            scope.env().drop_last() == env0.drop_last(),
            env0 == old(scope).env(),
            i <= values@.len(),
            check_fields_spec(values@, 0, env0) == check_fields_spec(values@, i as nat, scope.env()),
        decreases values@.len() - i,
    {
        proof {
            assert(decreases_to!(values@ => values@[i as int]));
            assert(decreases_to!(values@[i as int] => values@[i as int].1));
        }
        check_node(&values[i].1, scope)?;
        i = i + 1;
    }
    Ok(())
}

/// Checks the arguments of a call against the parameter types `ps`, one after the other.
fn check_args(ps: &Vec<TypeKind>, args: &Vec<ASTNode>, scope: &mut TypeScope) -> (r: Result<(), LangError>)
    requires
        old(scope).wf(),
        ps@.len() == args@.len(),
    ensures
        final(scope).wf(),
        final(scope).env().len() == old(scope).env().len(),
        final(scope).env().drop_last() == old(scope).env().drop_last(),
        unit_agrees(r, check_args_spec(crate::types::types_view(ps@), args@, 0, old(scope).env()).0),
        r is Ok ==> final(scope).env() == check_args_spec(crate::types::types_view(ps@), args@, 0, old(scope).env()).1,
    decreases args@, 1nat,
{
    let ghost env0 = scope.env();
    let ghost pv = crate::types::types_view(ps@);
    proof {
        crate::types::lemma_types_view_len(ps@);
    }
    let mut i: usize = 0;
    while i < args.len()
        invariant
            scope.wf(),
            scope.env().len() == env0.len(),
            scope.env().drop_last() == env0.drop_last(),
            env0 == old(scope).env(),
            pv == crate::types::types_view(ps@),
            pv.len() == ps@.len(),
            forall|j: int| 0 <= j < ps@.len() ==> #[trigger] pv[j] == ps@[j]@,
            ps@.len() == args@.len(),
            i <= args@.len(),
            check_args_spec(pv, args@, 0, env0) == check_args_spec(pv, args@, i as nat, scope.env()),
        decreases args@.len() - i,
    {
        proof {
            assert(decreases_to!(args@ => args@[i as int]));
        }
        let t = check_node(&args[i], scope)?;
        if !ps[i].is_compatible(&t) {
            return Err(wrong_type_error(&ps[i], &t));
        }
        i = i + 1;
    }
    Ok(())
}

/// Checks a call of a value of type `var_type` with `parameters`: a function gives its return
/// type when the arguments fit its parameters; any other value gives `Unknown`.
fn check_function(var_type: &TypeKind, parameters: &Vec<ASTNode>, scope: &mut TypeScope) -> (r: Result<TypeKind, LangError>)
    requires
        old(scope).wf(),
    ensures
        final(scope).wf(),
        final(scope).env().len() == old(scope).env().len(),
        final(scope).env().drop_last() == old(scope).env().drop_last(),
        type_agrees(r, match var_type@ {
            TypeV::Function(ps, ret) => if ps.len() != parameters@.len() {
                Err(CheckError::ArgCount(parameters@.len()))
            } else {
                match check_args_spec(ps, parameters@, 0, old(scope).env()).0 {
                    Err(x) => Err(x),
                    Ok(_) => Ok(*ret),
                }
            },
            _ => Ok(TypeV::Unknown),
        }),
        r is Ok ==> final(scope).env() == match var_type@ {
            TypeV::Function(ps, _) => check_args_spec(ps, parameters@, 0, old(scope).env()).1,
            _ => old(scope).env(),
        },
    decreases parameters@, 2nat,
{
    match var_type {
        TypeKind::Function(ft) => {
            proof {
                crate::types::lemma_types_view_len(ft.0@);
            }
            if ft.0.len() != parameters.len() {
                return Err(arg_count_error(parameters.len()));
            }
            check_args(&ft.0, parameters, scope)?;
            Ok((*ft.1).clone_type())
        },
        _ => Ok(TypeKind::Unknown),
    }
}

/// Checks one node and gives the type that it evaluates to.
fn check_node(node: &ASTNode, scope: &mut TypeScope) -> (r: Result<TypeKind, LangError>)
    requires
        old(scope).wf(),
    ensures
        final(scope).wf(),
        final(scope).env().len() == old(scope).env().len(),
        final(scope).env().drop_last() == old(scope).env().drop_last(),
        type_agrees(r, check_spec(*node, old(scope).env()).0),
        r is Ok ==> final(scope).env() == check_spec(*node, old(scope).env()).1,
    decreases *node, 0nat,
{
    let ghost env0 = scope.env();
    match &*node.kind {
        NodeKind::VariableDecl { name, value } => {
            let val_type = check_node(value, scope)?;
            if !val_type.is_compatible(&node.eval_type) {
                return Err(wrong_type_error(&node.eval_type, &val_type));
            }
            scope.declare_type(name.clone(), val_type);
            Ok(TypeKind::Nothing)
        },
        NodeKind::VariableRef { module: _, name } => Ok(scope.get_type(name)),
        NodeKind::VariableAsgn { name, value } => {
            let val_type = check_node(value, scope)?;
            let var_type = scope.get_type(name);
            if !val_type.is_compatible(&var_type) {
                return Err(wrong_type_error(&var_type, &val_type));
            }
            Ok(TypeKind::Nothing)
        },
        NodeKind::FieldAsgn { variable, field_name: _, value } => {
            check_node(variable, scope)?;
            check_node(value, scope)?;
            Ok(TypeKind::Nothing)
        },
        NodeKind::FunctionInvok { variable, parameters } => {
            let var_type = check_node(variable, scope)?;
            check_function(&var_type, parameters, scope)
        },
        NodeKind::Literal { value: _ } => Ok(node.eval_type.clone_type()),
        NodeKind::FunctionLiteral { value } => {
            match &node.eval_type {
                TypeKind::Function(ft) => {
                    scope.new_child_with_ret((*ft.1).clone_type());
                    let checked = check_body(&value.body, scope);
                    scope.close_child();
                    checked?;
                },
                _ => {},
            }
            Ok(node.eval_type.clone_type())
        },
        NodeKind::MathOperation { operation, left, right } => {
            let left_type = check_node(left, scope)?;
            let right_type = check_node(right, scope)?;
            Ok(math_check(*operation, &left_type, &right_type))
        },
        NodeKind::BoolOperation { .. } => Ok(TypeKind::Bool),
        NodeKind::ReturnStatement { value, kind } => {
            match kind {
                ReturnKind::Return => {
                    let val = match value {
                        Some(v) => check_node(v, scope)?,
                        None => TypeKind::Nothing,
                    };
                    let last = scope.frames.len() - 1;
                    let ret = scope.frames[last].ret_type.clone_type();
                    if !val.is_compatible(&ret) {
                        return Err(wrong_type_error(&ret, &val));
                    }
                },
                _ => {},
            }
            Ok(TypeKind::Nothing)
        },
        NodeKind::IfStatement { condition, body } => {
            check_node(condition, scope)?;
            scope.new_child();
            let checked = check_body(body, scope);
            scope.close_child();
            checked?;
            Ok(TypeKind::Nothing)
        },
        NodeKind::ForStatement { left, right, body, iter_name } => {
            check_node(left, scope)?;
            check_node(right, scope)?;
            scope.new_child();
            scope.declare_type(iter_name.clone(), TypeKind::Unknown);
            let checked = check_body(body, scope);
            scope.close_child();
            checked?;
            Ok(TypeKind::Unknown)
        },
        NodeKind::WhileStatement { condition, body } => {
            check_node(condition, scope)?;
            scope.new_child();
            let checked = check_body(body, scope);
            scope.close_child();
            checked?;
            Ok(TypeKind::Unknown)
        },
        NodeKind::FieldAccess { variable, field_name: _ } => {
            check_node(variable, scope)?;
            Ok(TypeKind::Unknown)
        },
        NodeKind::VectorLiteral { values: _ } => Ok(node.eval_type.clone_type()),
        NodeKind::ObjectLiteral { values } => {
            check_fields(values, scope)?;
            Ok(TypeKind::Unknown)
        },
        NodeKind::ValueFieldAccess { .. } => Ok(TypeKind::Unknown),
        NodeKind::ConstructClass { parameters, class } => {
            check_body(parameters, scope)?;
            Ok(TypeKind::Class(class.clone_ref()))
        },
    }
}

/// A declaration in the innermost block is what the checker gives its name; every other name
/// Checking a declaration whose value checks to type `vt` fails exactly when `vt` does not fit
/// the declared type; where it succeeds it gives `Nothing`, and afterwards the declared name
/// has the value's type.
pub proof fn law_check_declaration(n: ASTNode, env: Seq<TypeFrameV>, vt: TypeV, e1: Seq<TypeFrameV>)
    requires
        *n.kind matches NodeKind::VariableDecl { name: _, value: _ },
        check_spec(match *n.kind { NodeKind::VariableDecl { name: _, value } => value, _ => n }, env) == (Ok::<TypeV, CheckError>(vt), e1),
        e1.len() > 0,
        e1.last().names.len() == e1.last().types.len(),
    ensures
        check_spec(n, env).0 is Err <==> !compatible(vt, n.eval_type@),
        check_spec(n, env).0 is Ok ==> check_spec(n, env).0 == Ok::<TypeV, CheckError>(TypeV::Nothing)
            && env_lookup(check_spec(n, env).1, match *n.kind { NodeKind::VariableDecl { name, value: _ } => name@, _ => Seq::empty() }) == vt,
{
    if let NodeKind::VariableDecl { name, value: _ } = *n.kind {
        if compatible(vt, n.eval_type@) {
            law_type_of_declared(e1, name@, vt, name@);
        }
    }
}

/// gives what it gave before.
pub proof fn law_type_of_declared(env: Seq<TypeFrameV>, name: Seq<char>, t: TypeV, other: Seq<char>)
    requires
        env.len() > 0,
        env.last().names.len() == env.last().types.len(),
    ensures
        env_lookup(env_declare(env, name, t), name) == t,
        other != name ==> env_lookup(env_declare(env, name, t), other) == env_lookup(env, other),
{
    let d = env_declare(env, name, t);
    assert(d.drop_last() =~= env.drop_last());
    assert(d.last().names.drop_last() =~= env.last().names);
    if other != name {
        crate::parser_scope::lemma_frame_lookup_push(env.last().names, env.last().types, name, t, other);
    }
}

/// An inner block sees every name of the blocks around it, until it declares the name itself.
pub proof fn law_child_sees_outer(env: Seq<TypeFrameV>, ret: TypeV, name: Seq<char>)
    ensures
        env_lookup(env_child(env, ret), name) == env_lookup(env, name),
{
    assert(env_child(env, ret).drop_last() =~= env);
}

/// The type that checking an arithmetic node gives, from the types `lt` and `rt` of its
/// operands: two integers give an integer for `+`, `-`, `*` and `%`, and a float for `/` and
/// `^`; an integer with a float gives a float; any other pair gives a string for `+` and `*`
/// and nothing for the other operators. An operand that fails fails the node.
pub proof fn law_check_arithmetic(n: ASTNode, env: Seq<TypeFrameV>, lt: TypeV, e1: Seq<TypeFrameV>, rt: TypeV, e2: Seq<TypeFrameV>)
    requires
        *n.kind matches NodeKind::MathOperation { operation: _, left: _, right: _ },
        check_spec(match *n.kind { NodeKind::MathOperation { operation: _, left, right: _ } => left, _ => n }, env)
            == (Ok::<TypeV, CheckError>(lt), e1),
        check_spec(match *n.kind { NodeKind::MathOperation { operation: _, left: _, right } => right, _ => n }, e1)
            == (Ok::<TypeV, CheckError>(rt), e2),
    ensures
        check_spec(n, env).1 == e2,
        match *n.kind {
            NodeKind::MathOperation { operation, left: _, right: _ } => {
                &&& (lt == TypeV::Int && rt == TypeV::Int) ==> check_spec(n, env).0 == Ok::<TypeV, CheckError>(
                    match operation {
                        MathOperatorKind::Plus => TypeV::Int,
                        MathOperatorKind::Minus => TypeV::Int,
                        MathOperatorKind::Multiply => TypeV::Int,
                        MathOperatorKind::Modulus => TypeV::Int,
                        MathOperatorKind::Divide => TypeV::Float,
                        MathOperatorKind::Power => TypeV::Float,
                    })
                &&& ((lt == TypeV::Int && rt == TypeV::Float) || (lt == TypeV::Float && rt == TypeV::Int))
                    ==> check_spec(n, env).0 == Ok::<TypeV, CheckError>(TypeV::Float)
                &&& !(lt == TypeV::Int && rt == TypeV::Int) && !(lt == TypeV::Int && rt == TypeV::Float)
                    && !(lt == TypeV::Float && rt == TypeV::Int) ==> check_spec(n, env).0 == Ok::<TypeV, CheckError>(
                    match operation {
                        MathOperatorKind::Plus => TypeV::Str,
                        MathOperatorKind::Multiply => TypeV::Str,
                        _ => TypeV::Nothing,
                    })
            },
            _ => true,
        },
{
}

/// Checking an assignment whose value checks to type `t` fails exactly when `t` does not fit
/// the type that the assigned name has; where it succeeds it gives `Nothing` and declares nothing.
pub proof fn law_check_assignment(n: ASTNode, env: Seq<TypeFrameV>, t: TypeV, e1: Seq<TypeFrameV>)
    requires
        *n.kind matches NodeKind::VariableAsgn { name: _, value: _ },
        check_spec(match *n.kind { NodeKind::VariableAsgn { name: _, value } => value, _ => n }, env) == (Ok::<TypeV, CheckError>(t), e1),
    ensures
        match *n.kind {
            NodeKind::VariableAsgn { name, value: _ } => {
                &&& check_spec(n, env).1 == e1
                &&& check_spec(n, env).0 is Err <==> !compatible(t, env_lookup(e1, name@))
                &&& check_spec(n, env).0 is Ok ==> check_spec(n, env).0 == Ok::<TypeV, CheckError>(TypeV::Nothing)
                &&& check_spec(n, env).0 is Err ==> check_spec(n, env).0 == Err::<TypeV, CheckError>(CheckError::WrongType(env_lookup(e1, name@), t))
            },
            _ => true,
        },
{
}

/// Checking a `return` whose value checks to type `t` fails exactly when `t` does not fit the
/// type that the innermost block must return, with that type expected; it gives `Nothing`.
pub proof fn law_check_return(n: ASTNode, env: Seq<TypeFrameV>, t: TypeV, e1: Seq<TypeFrameV>)
    requires
        *n.kind matches NodeKind::ReturnStatement { value: Some(_), kind: ReturnKind::Return },
        check_spec(match *n.kind { NodeKind::ReturnStatement { value: Some(v), kind: _ } => v, _ => n }, env) == (Ok::<TypeV, CheckError>(t), e1),
    ensures
        check_spec(n, env).1 == e1,
        check_spec(n, env).0 == if compatible(t, e1.last().ret) {
            Ok::<TypeV, CheckError>(TypeV::Nothing)
        } else {
            Err::<TypeV, CheckError>(CheckError::WrongType(e1.last().ret, t))
        },
{
}

} // verus!
