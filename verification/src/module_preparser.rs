use vstd::prelude::*;
use crate::errors::{LangError, ParserErrorKind, end_of_file_error};
use crate::module::{ModuleIdentifier, ModuleUID};
use crate::parsing_types::{ParsableFunctionType, ParsableType, ParsableTypeV, ptypes_view};
use crate::preparse::{
    preparse_parameter_names, preparse_type_error, preparse_type_option, pparam_names_spec, ptype_error_spec,
    ptype_option_spec,
};
use crate::tokens::{LiteralKind, Token, TokenKind, TokenSnapshot, Tokens};
use crate::types::{ClassKind, OperatorKind, ParenthesisKind, ParenthesisState};
use crate::utils::{TokensExtensions, expect_spec, expect_token, names_view, step, token_at, unexpected};
use crate::module_initializer::{count_kind, lemma_count_front};

verus! {

broadcast use vstd::std_specs::vec::axiom_spec_len;

/// A global variable as declared: its type and, for a definition, where its value starts.
pub struct ParsableVariable {
    pub type_kind: ParsableType,
    pub body: Option<TokenSnapshot>,
}

/// A function as declared: its type, the names of its parameters and, for a definition, where
/// its body starts.
pub struct ParsableFunction {
    pub func_type: ParsableFunctionType,
    pub params: Vec<String>,
    pub body: Option<TokenSnapshot>,
}

/// A class as declared: its fields and its methods.
pub struct ParsableClass {
    pub name: String,
    pub module: ModuleUID,
    pub kind: ClassKind,
    pub fields: Vec<(String, ParsableType)>,
    pub methods: Vec<(String, ParsableFunction)>,
}

/// A module whose declarations are known and whose definitions are still to be parsed.
pub struct ParsableModule {
    pub id: ModuleIdentifier,
    pub uid: ModuleUID,
    pub tokens: Tokens,
    pub imports: Vec<ModuleIdentifier>,
    pub variables: Vec<(String, ParsableVariable)>,
    pub functions: Vec<(String, ParsableFunction)>,
    pub classes: Vec<(String, ParsableClass)>,
}

/// The position after the end of the line that `pos` is on (after its newline token).
pub open spec fn newline_end(toks: Seq<Token>, pos: nat) -> nat
    decreases toks.len() - pos,
{
    if pos >= toks.len() {
        pos
    } else if toks[pos as int].kind == TokenKind::NewLine {
        pos + 1
    } else {
        newline_end(toks, pos + 1)
    }
}

/// The position after the `}` that closes a body, `depth` braces being open at `pos`.
pub open spec fn body_end(toks: Seq<Token>, pos: nat, depth: nat) -> nat
    decreases toks.len() - pos,
{
    if pos >= toks.len() {
        pos
    } else {
        match toks[pos as int].kind {
            TokenKind::Parenthesis(ParenthesisKind::Curly, ParenthesisState::Open) => body_end(toks, pos + 1, depth + 1),
            TokenKind::Parenthesis(ParenthesisKind::Curly, ParenthesisState::Close) =>
                if depth <= 1 { pos + 1 } else { body_end(toks, pos + 1, (depth - 1) as nat) },
            _ => body_end(toks, pos + 1, depth),
        }
    }
}

/// What reading a global variable declaration `name type (= value)?` at `pos` gives: the
/// name, the type and where the value starts, or the error; and the position after.
pub open spec fn variable_spec(toks: Seq<Token>, pos: nat) -> (Result<(Seq<char>, ParsableTypeV, Option<nat>), LangError>, nat) {
    match token_at(toks, pos) {
        None => (Err(end_of_file_error()), pos),
        Some(t) => match t.kind {
            TokenKind::Symbol(name) => match ptype_error_spec(toks, pos + 1) {
                Err(e) => (Err(e), step(toks, pos + 1)),
                Ok(ty) => {
                    let p2 = step(toks, pos + 1);
                    match token_at(toks, p2) {
                        None => (Err(end_of_file_error()), p2),
                        Some(t2) => if t2.kind == TokenKind::Operator(OperatorKind::Assign) {
                            (Ok((name@, ty, Some(p2 + 1))), newline_end(toks, p2 + 1))
                        } else {
                            (Ok((name@, ty, None)), p2)
                        },
                    }
                },
            },
            _ => (Err(unexpected(t)), pos + 1),
        },
    }
}

/// What reading a function declaration `name(params) type? ({ body })?` at `pos` gives: the
/// name, the parameter names and types, the return type and where the body starts, or the
/// error; and the position after.
pub open spec fn function_spec(toks: Seq<Token>, pos: nat)
    -> (Result<(Seq<char>, Seq<Seq<char>>, Seq<ParsableTypeV>, ParsableTypeV, Option<nat>), LangError>, nat)
{
    match token_at(toks, pos) {
        None => (Err(end_of_file_error()), pos),
        Some(t) => match t.kind {
            TokenKind::Symbol(name) => {
                let p1 = pos + 1;
                match expect_spec(toks, p1, TokenKind::Parenthesis(ParenthesisKind::Round, ParenthesisState::Open)) {
                    Err(e) => (Err(e), step(toks, p1)),
                    Ok(_) => {
                        let (params, p2) = pparam_names_spec(toks, step(toks, p1), true, Seq::empty(), Seq::empty());
                        match params {
                            Err(e) => (Err(e), p2),
                            Ok((names, types)) => {
                                let (ret, p3) = match ptype_option_spec(toks, p2) {
                                    Some(r) => (r, step(toks, p2)),
                                    None => (ParsableTypeV::Nothing, p2),
                                };
                                match token_at(toks, p3) {
                                    None => (Err(end_of_file_error()), p3),
                                    Some(t3) => if t3.kind == TokenKind::Parenthesis(ParenthesisKind::Curly, ParenthesisState::Open) {
                                        (Ok((name@, names, types, ret, Some(p3 + 1))), body_end(toks, p3 + 1, 1))
                                    } else {
                                        (Ok((name@, names, types, ret, None)), p3)
                                    },
                                }
                            },
                        }
                    },
                }
            },
            _ => (Err(unexpected(t)), pos + 1),
        },
    }
}

pub open spec fn snapshot_view(s: Option<TokenSnapshot>) -> Option<nat> {
    match s {
        Some(t) => Some(t.0 as nat),
        None => None,
    }
}

pub proof fn lemma_newline_end_ge(toks: Seq<Token>, pos: nat)
    ensures
        newline_end(toks, pos) >= pos,
        pos < toks.len() ==> newline_end(toks, pos) > pos,
        pos <= toks.len() ==> newline_end(toks, pos) <= toks.len(),
    decreases toks.len() - pos,
{
    if pos < toks.len() && toks[pos as int].kind != TokenKind::NewLine {
        lemma_newline_end_ge(toks, pos + 1);
    }
}

pub proof fn lemma_body_end_ge(toks: Seq<Token>, pos: nat, depth: nat)
    ensures
        body_end(toks, pos, depth) >= pos,
        pos < toks.len() ==> body_end(toks, pos, depth) > pos,
        pos <= toks.len() ==> body_end(toks, pos, depth) <= toks.len(),
    decreases toks.len() - pos,
{
    if pos < toks.len() {
        match toks[pos as int].kind {
            TokenKind::Parenthesis(ParenthesisKind::Curly, ParenthesisState::Open) => lemma_body_end_ge(toks, pos + 1, depth + 1),
            TokenKind::Parenthesis(ParenthesisKind::Curly, ParenthesisState::Close) =>
                if depth > 1 { lemma_body_end_ge(toks, pos + 1, (depth - 1) as nat) },
            _ => lemma_body_end_ge(toks, pos + 1, depth),
        }
    }
}

pub proof fn lemma_pparam_ge(
    toks: Seq<Token>,
    pos: nat,
    next_is_argument: bool,
    names: Seq<Seq<char>>,
    types: Seq<ParsableTypeV>,
)
    ensures
        pparam_names_spec(toks, pos, next_is_argument, names, types).1 >= pos,
        pos <= toks.len() ==> pparam_names_spec(toks, pos, next_is_argument, names, types).1 <= toks.len(),
    decreases toks.len() - pos,
{
    if pos < toks.len() {
        let t = toks[pos as int];
        match t.kind {
            TokenKind::Symbol(name) => {
                if next_is_argument {
                    match ptype_error_spec(toks, pos + 1) {
                        Ok(ty) => lemma_pparam_ge(toks, step(toks, pos + 1), false, names.push(name@), types.push(ty)),
                        Err(_) => {},
                    }
                }
            },
            TokenKind::Operator(OperatorKind::Comma) => {
                if !next_is_argument {
                    lemma_pparam_ge(toks, pos + 1, true, names, types);
                }
            },
            _ => {},
        }
    }
}

/// Reading a declaration moves forward.
pub proof fn lemma_function_spec_advances(toks: Seq<Token>, pos: nat)
    ensures
        function_spec(toks, pos).1 >= pos,
        pos <= toks.len() ==> function_spec(toks, pos).1 <= toks.len(),
{
    if pos < toks.len() {
        let p1 = pos + 1;
        lemma_pparam_ge(toks, step(toks, p1), true, Seq::empty(), Seq::empty());
        let p2 = pparam_names_spec(toks, step(toks, p1), true, Seq::empty(), Seq::empty()).1;
        let p3 = match ptype_option_spec(toks, p2) { Some(_) => step(toks, p2), None => p2 };
        lemma_body_end_ge(toks, p3 + 1, 1);
    }
}

pub proof fn lemma_variable_spec_advances(toks: Seq<Token>, pos: nat)
    ensures
        variable_spec(toks, pos).1 >= pos,
        pos <= toks.len() ==> variable_spec(toks, pos).1 <= toks.len(),
{
    if pos < toks.len() {
        let p2 = step(toks, pos + 1);
        lemma_newline_end_ge(toks, p2 + 1);
    }
}

/// What a module reports: an error of the language, or a method declared in a data class (an
/// unsupported feature, with the token that starts the method).
pub enum PrepareError {
    Lang(LangError),
    DataMethod(Token),
}

/// `e` is the error that `pe` describes.
pub open spec fn prepare_error_is(e: LangError, pe: PrepareError) -> bool {
    match pe {
        PrepareError::Lang(x) => e == x,
        PrepareError::DataMethod(t) => e matches LangError::Parser { token, kind: ParserErrorKind::Unsupported(_) } && token == t,
    }
}

/// A function as declared: name, parameter names and types, return type, body start.
pub type FunctionDeclV = (Seq<char>, Seq<Seq<char>>, Seq<ParsableTypeV>, ParsableTypeV, Option<nat>);

/// Reading the body of a class from `pos` on, having read `fields` and `methods`: its fields and
/// methods up to the closing `}` (or the end), or the error; and the position after.
pub open spec fn class_body_spec(
    toks: Seq<Token>,
    pos: nat,
    data: bool,
    fields: Seq<(Seq<char>, ParsableTypeV)>,
    methods: Seq<FunctionDeclV>,
) -> (Result<(Seq<(Seq<char>, ParsableTypeV)>, Seq<FunctionDeclV>), PrepareError>, nat)
    decreases toks.len() - pos,
{
    match token_at(toks, pos) {
        None => (Ok((fields, methods)), pos),
        Some(t) => match t.kind {
            TokenKind::Symbol(fname) => match ptype_error_spec(toks, pos + 1) {
                Err(e) => (Err(PrepareError::Lang(e)), step(toks, pos + 1)),
                Ok(ty) => class_body_spec(toks, step(toks, pos + 1), data, fields.push((fname@, ty)), methods),
            },
            TokenKind::Function => if data {
                (Err(PrepareError::DataMethod(t)), pos + 1)
            } else {
                let (f, p2) = function_spec(toks, pos + 1);
                match f {
                    Err(e) => (Err(PrepareError::Lang(e)), p2),
                    Ok(fv) => {
                        proof {
                            lemma_function_spec_advances(toks, pos + 1);
                        }
                        class_body_spec(toks, p2, data, fields, methods.push(fv))
                    },
                }
            },
            TokenKind::NewLine => class_body_spec(toks, pos + 1, data, fields, methods),
            TokenKind::Parenthesis(ParenthesisKind::Curly, ParenthesisState::Close) => (Ok((fields, methods)), pos + 1),
            _ => (Err(PrepareError::Lang(LangError::Parser { token: t, kind: ParserErrorKind::UnexpectedToken })), pos + 1),
        },
    }
}

pub open spec fn fields_decl_view(s: Seq<(String, ParsableType)>) -> Seq<(Seq<char>, ParsableTypeV)> {
    s.map_values(|p: (String, ParsableType)| (p.0@, p.1@))
}

pub open spec fn function_decl_view(f: ParsableFunction) -> FunctionDeclV {
    (Seq::empty(), names_view(f.params@), ptypes_view(f.func_type.0@), (*f.func_type.1)@, snapshot_view(f.body))
}

pub open spec fn methods_decl_view(s: Seq<(String, ParsableFunction)>) -> Seq<FunctionDeclV> {
    s.map_values(|p: (String, ParsableFunction)| {
        let f = function_decl_view(p.1);
        (p.0@, f.1, f.2, f.3, f.4)
    })
}

pub proof fn lemma_class_body_bounds(
    toks: Seq<Token>,
    pos: nat,
    data: bool,
    fields: Seq<(Seq<char>, ParsableTypeV)>,
    methods: Seq<FunctionDeclV>,
)
    requires
        pos <= toks.len(),
    ensures
        pos <= class_body_spec(toks, pos, data, fields, methods).1 <= toks.len(),
    decreases toks.len() - pos,
{
    if pos < toks.len() {
        let t = toks[pos as int];
        match t.kind {
            TokenKind::Symbol(fname) => match ptype_error_spec(toks, pos + 1) {
                Err(_) => {},
                Ok(ty) => lemma_class_body_bounds(toks, step(toks, pos + 1), data, fields.push((fname@, ty)), methods),
            },
            TokenKind::Function => if !data {
                lemma_function_spec_advances(toks, pos + 1);
                let (f, p2) = function_spec(toks, pos + 1);
                if let Ok(fv) = f {
                    lemma_class_body_bounds(toks, p2, data, fields, methods.push(fv));
                }
            },
            TokenKind::NewLine => lemma_class_body_bounds(toks, pos + 1, data, fields, methods),
            _ => {},
        }
    }
}

/// One declaration of a module, as read.
pub enum DeclarationV {
    Import(Seq<char>),
    Variable(Seq<char>, ParsableTypeV, Option<nat>),
    Function(FunctionDeclV),
    Class(Seq<char>, ClassKind, Seq<(Seq<char>, ParsableTypeV)>, Seq<FunctionDeclV>),
    Nothing,
}

/// Reading one declaration at `pos`: an import `import "path"`, a variable, a function, a class
/// `class data? Name { fields and methods }` or an empty line; or the error; and the position after.
pub open spec fn declaration_spec(toks: Seq<Token>, pos: nat) -> (Result<DeclarationV, PrepareError>, nat) {
    match token_at(toks, pos) {
        None => (Err(PrepareError::Lang(end_of_file_error())), pos),
        Some(t) => match t.kind {
            TokenKind::Import => match token_at(toks, pos + 1) {
                None => (Err(PrepareError::Lang(end_of_file_error())), pos + 1),
                Some(t2) => match t2.kind {
                    TokenKind::Literal(LiteralKind::String(path)) => match expect_spec(toks, pos + 2, TokenKind::NewLine) {
                        Err(e) => (Err(PrepareError::Lang(e)), step(toks, pos + 2)),
                        Ok(_) => (Ok(DeclarationV::Import(path@)), pos + 3),
                    },
                    _ => (Err(PrepareError::Lang(unexpected(t))), pos + 2),
                },
            },
            TokenKind::Variable => {
                let (v, p) = variable_spec(toks, pos + 1);
                match v {
                    Err(e) => (Err(PrepareError::Lang(e)), p),
                    Ok((n, ty, b)) => (Ok(DeclarationV::Variable(n, ty, b)), p),
                }
            },
            TokenKind::Function => {
                let (f, p) = function_spec(toks, pos + 1);
                match f {
                    Err(e) => (Err(PrepareError::Lang(e)), p),
                    Ok(fv) => (Ok(DeclarationV::Function(fv)), p),
                }
            },
            TokenKind::Class => {
                let data = token_at(toks, pos + 1) matches Some(t1) && t1.kind == TokenKind::Data;
                let p1: nat = if data { pos + 2 } else { pos + 1 };
                match token_at(toks, p1) {
                    None => (Err(PrepareError::Lang(end_of_file_error())), p1),
                    Some(tn) => match tn.kind {
                        TokenKind::Symbol(name) => match expect_spec(
                            toks,
                            p1 + 1,
                            TokenKind::Parenthesis(ParenthesisKind::Curly, ParenthesisState::Open),
                        ) {
                            Err(e) => (Err(PrepareError::Lang(e)), step(toks, p1 + 1)),
                            Ok(_) => {
                                let (cb, p3) = class_body_spec(toks, p1 + 2, data, Seq::empty(), Seq::empty());
                                match cb {
                                    Err(pe) => (Err(pe), p3),
                                    Ok((fs, ms)) => (Ok(DeclarationV::Class(
                                        name@,
                                        if data { ClassKind::Data } else { ClassKind::Normal },
                                        fs,
                                        ms,
                                    )), p3),
                                }
                            },
                        },
                        _ => (Err(PrepareError::Lang(unexpected(tn))), p1 + 1),
                    },
                }
            },
            TokenKind::NewLine => (Ok(DeclarationV::Nothing), pos + 1),
            _ => (Err(PrepareError::Lang(unexpected(t))), pos + 1),
        },
    }
}

pub proof fn lemma_declaration_advances(toks: Seq<Token>, pos: nat)
    requires
        pos < toks.len(),
    ensures
        pos < declaration_spec(toks, pos).1 <= toks.len(),
{
    let t = toks[pos as int];
    match t.kind {
        TokenKind::Variable => lemma_variable_spec_advances(toks, pos + 1),
        TokenKind::Function => lemma_function_spec_advances(toks, pos + 1),
        TokenKind::Class => {
            let data = token_at(toks, pos + 1) matches Some(t1) && t1.kind == TokenKind::Data;
            let p1: nat = if data { pos + 2 } else { pos + 1 };
            if p1 + 2 <= toks.len() {
                lemma_class_body_bounds(toks, p1 + 2, data, Seq::empty(), Seq::empty());
            }
        },
        _ => {},
    }
}

/// The declarations of a module, by kind, in the order they were read.
pub struct ModuleDeclsV {
    pub imports: Seq<Seq<char>>,
    pub variables: Seq<(Seq<char>, ParsableTypeV, Option<nat>)>,
    pub functions: Seq<FunctionDeclV>,
    pub classes: Seq<(Seq<char>, ClassKind, Seq<(Seq<char>, ParsableTypeV)>, Seq<FunctionDeclV>)>,
}

/// The declarations with one more.
pub open spec fn add_declaration(m: ModuleDeclsV, d: DeclarationV) -> ModuleDeclsV {
    match d {
        DeclarationV::Import(p) => ModuleDeclsV { imports: m.imports.push(p), ..m },
        DeclarationV::Variable(n, t, b) => ModuleDeclsV { variables: m.variables.push((n, t, b)), ..m },
        DeclarationV::Function(f) => ModuleDeclsV { functions: m.functions.push(f), ..m },
        DeclarationV::Class(n, k, fs, ms) => ModuleDeclsV { classes: m.classes.push((n, k, fs, ms)), ..m },
        DeclarationV::Nothing => m,
    }
}

/// Reading the declarations of a module from `pos` to the end, having read `acc`.
pub open spec fn module_decls_spec(toks: Seq<Token>, pos: nat, acc: ModuleDeclsV) -> Result<ModuleDeclsV, PrepareError>
    decreases toks.len() - pos,
{
    if pos >= toks.len() {
        Ok(acc)
    } else {
        let (d, p) = declaration_spec(toks, pos);
        match d {
            Err(pe) => Err(pe),
            Ok(decl) => {
                proof {
                    lemma_declaration_advances(toks, pos);
                }
                module_decls_spec(toks, p, add_declaration(acc, decl))
            },
        }
    }
}

/// No declarations.
pub open spec fn no_declarations() -> ModuleDeclsV {
    ModuleDeclsV { imports: Seq::empty(), variables: Seq::empty(), functions: Seq::empty(), classes: Seq::empty() }
}

/// The declarations that a prepared module holds.
pub open spec fn module_decls_view(
    imports: Seq<ModuleIdentifier>,
    variables: Seq<(String, ParsableVariable)>,
    functions: Seq<(String, ParsableFunction)>,
    classes: Seq<(String, ParsableClass)>,
) -> ModuleDeclsV {
    ModuleDeclsV {
        imports: imports.map_values(|i: ModuleIdentifier| i.0@),
        variables: variables.map_values(|p: (String, ParsableVariable)| (p.0@, p.1.type_kind@, snapshot_view(p.1.body))),
        functions: functions.map_values(|p: (String, ParsableFunction)|
            (p.0@, names_view(p.1.params@), ptypes_view(p.1.func_type.0@), (*p.1.func_type.1)@, snapshot_view(p.1.body))),
        classes: classes.map_values(|p: (String, ParsableClass)|
            (p.0@, p.1.kind, fields_decl_view(p.1.fields@), methods_decl_view(p.1.methods@))),
    }
}

/// Every class is recorded under its own name, in module `uid`.
pub open spec fn classes_of_module(classes: Seq<(String, ParsableClass)>, uid: ModuleUID) -> bool {
    forall|i: int| 0 <= i < classes.len() ==> (#[trigger] classes[i]).1.name == classes[i].0 && classes[i].1.module == uid
}

/// The first step of parsing a module: it reads the declarations and records, for each
/// definition, where its value or body starts, for later parsing.
pub struct ModulePreParser;

enum DeclarationParseAction {
    Import(String),
    Variable(String, ParsableVariable),
    Function(String, ParsableFunction),
    Class(String, ParsableClass),
    Nothing,
}

/// What a declaration read gives, as the declaration that was read.
spec fn action_matches(a: DeclarationParseAction, d: DeclarationV, module: ModuleUID) -> bool {
    match (a, d) {
        (DeclarationParseAction::Import(p), DeclarationV::Import(q)) => p@ == q,
        (DeclarationParseAction::Variable(n, v), DeclarationV::Variable(m, ty, b)) =>
            n@ == m && v.type_kind@ == ty && snapshot_view(v.body) == b,
        (DeclarationParseAction::Function(n, f), DeclarationV::Function(fv)) =>
            (n@, names_view(f.params@), ptypes_view(f.func_type.0@), (*f.func_type.1)@, snapshot_view(f.body)) == fv,
        (DeclarationParseAction::Class(n, c), DeclarationV::Class(m, k, fs, ms)) =>
            n@ == m && c.name == n && c.module == module && c.kind == k
                && fields_decl_view(c.fields@) == fs && methods_decl_view(c.methods@) == ms,
        (DeclarationParseAction::Nothing, DeclarationV::Nothing) => true,
        _ => false,
    }
}

impl ModulePreParser {
    /// Reads every declaration of a module.
    #[verifier::loop_isolation(false)]
    pub fn prepare_module(tokens: Tokens, id: ModuleIdentifier, uid: ModuleUID) -> (r: Result<ParsableModule, LangError>)
        ensures
            r matches Ok(m) ==> module_decls_spec(tokens.tokens@, tokens.pos as nat, no_declarations()) matches Ok(d) && {
                &&& m.id == id
                &&& m.uid == uid
                &&& m.tokens.tokens == tokens.tokens
                &&& module_decls_view(m.imports@, m.variables@, m.functions@, m.classes@) == d
                &&& classes_of_module(m.classes@, uid)
            },
            r matches Err(e) ==> module_decls_spec(tokens.tokens@, tokens.pos as nat, no_declarations()) matches Err(pe)
                && prepare_error_is(e, pe),
    {
        let ghost orig = tokens;
        let mut stream = tokens;
        let ghost toks = stream.tokens@;
        let ghost start = stream.pos as nat;
        let mut imports: Vec<ModuleIdentifier> = Vec::new();
        let mut variables: Vec<(String, ParsableVariable)> = Vec::new();
        let mut functions: Vec<(String, ParsableFunction)> = Vec::new();
        let mut classes: Vec<(String, ParsableClass)> = Vec::new();
        proof {
            assert(module_decls_view(imports@, variables@, functions@, classes@).imports =~= Seq::<Seq<char>>::empty());
            assert(module_decls_view(imports@, variables@, functions@, classes@).variables
                =~= Seq::<(Seq<char>, ParsableTypeV, Option<nat>)>::empty());
            assert(module_decls_view(imports@, variables@, functions@, classes@).functions =~= Seq::<FunctionDeclV>::empty());
            assert(module_decls_view(imports@, variables@, functions@, classes@).classes
                =~= Seq::<(Seq<char>, ClassKind, Seq<(Seq<char>, ParsableTypeV)>, Seq<FunctionDeclV>)>::empty());
        }

        loop
            invariant
                stream.tokens == orig.tokens,
                toks == orig.tokens@,
                start == orig.pos as nat,
                toks.len() == stream.tokens.len(),
                module_decls_spec(toks, start, no_declarations())
                    == module_decls_spec(toks, stream.pos as nat, module_decls_view(imports@, variables@, functions@, classes@)),
                classes_of_module(classes@, uid),
            decreases stream.remaining(),
        {
            if !stream.has_next() {
                break;
            }

            let ghost p = stream.pos as nat;
            let ghost before = module_decls_view(imports@, variables@, functions@, classes@);
            assert(module_decls_spec(toks, start, no_declarations()) == module_decls_spec(toks, p, before));
            let result = Self::parse_declaration(&mut stream, uid);
            let ghost d = declaration_spec(toks, p).0;
            match result {
                Ok(DeclarationParseAction::Import(path)) => {
                    let ghost pv = path@;
                    imports.push(ModuleIdentifier(path));
                    proof {
                        let now = module_decls_view(imports@, variables@, functions@, classes@);
                        assert(now.imports =~= before.imports.push(pv));
                        assert(now.variables =~= before.variables);
                        assert(now.functions =~= before.functions);
                        assert(now.classes =~= before.classes);
                        assert(now == add_declaration(before, d->Ok_0));
                    }
                },
                Ok(DeclarationParseAction::Function(name, func)) => {
                    let ghost fv = (name@, names_view(func.params@), ptypes_view(func.func_type.0@), (*func.func_type.1)@, snapshot_view(func.body));
                    functions.push((name, func));
                    proof {
                        let now = module_decls_view(imports@, variables@, functions@, classes@);
                        assert(now.imports =~= before.imports);
                        assert(now.variables =~= before.variables);
                        assert(now.functions =~= before.functions.push(fv));
                        assert(now.classes =~= before.classes);
                        assert(now == add_declaration(before, d->Ok_0));
                    }
                },
                Ok(DeclarationParseAction::Variable(name, var)) => {
                    let ghost vv = (name@, var.type_kind@, snapshot_view(var.body));
                    variables.push((name, var));
                    proof {
                        let now = module_decls_view(imports@, variables@, functions@, classes@);
                        assert(now.imports =~= before.imports);
                        assert(now.variables =~= before.variables.push(vv));
                        assert(now.functions =~= before.functions);
                        assert(now.classes =~= before.classes);
                        assert(now == add_declaration(before, d->Ok_0));
                    }
                },
                Ok(DeclarationParseAction::Class(name, class)) => {
                    let ghost cv = (name@, class.kind, fields_decl_view(class.fields@), methods_decl_view(class.methods@));
                    let ghost old_classes = classes@;
                    classes.push((name, class));
                    proof {
                        let now = module_decls_view(imports@, variables@, functions@, classes@);
                        assert(now.imports =~= before.imports);
                        assert(now.variables =~= before.variables);
                        assert(now.functions =~= before.functions);
                        assert(now.classes =~= before.classes.push(cv));
                        assert(now == add_declaration(before, d->Ok_0));
                        assert(classes@.drop_last() == old_classes);
                    }
                },
                Ok(DeclarationParseAction::Nothing) => {
                    proof {
                        assert(before == add_declaration(before, d->Ok_0));
                    }
                },
                Err(err) => {
                    proof {
                        assert(module_decls_spec(toks, p, before) == Err::<ModuleDeclsV, PrepareError>(d->Err_0));
                    }
                    return Err(err);
                },
            }
        }

        proof {
            assert(module_decls_spec(toks, stream.pos as nat, module_decls_view(imports@, variables@, functions@, classes@))
                == Ok::<ModuleDeclsV, PrepareError>(module_decls_view(imports@, variables@, functions@, classes@)));
        }
        Ok(ParsableModule { id, uid, tokens: stream, imports, variables, functions, classes })
    }

    fn parse_declaration(tokens: &mut Tokens, module: ModuleUID) -> (r: Result<DeclarationParseAction, LangError>)
        requires
            old(tokens).remaining() > 0,
        ensures
            final(tokens).tokens == old(tokens).tokens,
            final(tokens).remaining() < old(tokens).remaining(),
            final(tokens).pos == declaration_spec(old(tokens).tokens@, old(tokens).pos as nat).1,
            match (r, declaration_spec(old(tokens).tokens@, old(tokens).pos as nat).0) {
                (Ok(a), Ok(d)) => action_matches(a, d, module),
                (Err(e), Err(pe)) => prepare_error_is(e, pe),
                _ => false,
            },
    {
        let ghost toks = tokens.tokens@;
        let ghost p0 = tokens.pos as nat;
        assert(toks.len() == tokens.tokens.len());
        proof {
            lemma_declaration_advances(toks, p0);
        }
        let token = tokens.pop_err()?;

        match token.kind {
            TokenKind::Import => {
                // import [path]
                let path = match tokens.pop_err()?.kind {
                    TokenKind::Literal(LiteralKind::String(path)) => path,
                    _ => return Err(LangError::new_parser_unexpected_token(&token)),
                };

                // new line
                expect_token(tokens, TokenKind::NewLine)?;

                Ok(DeclarationParseAction::Import(path))
            },
            TokenKind::Variable => {
                // Definition:  var <name> (type) = [value]
                // Declaration: var <name> (type)
                let (name, decl) = Self::parse_variable(tokens)?;

                Ok(DeclarationParseAction::Variable(name, decl))
            },
            TokenKind::Function => {
                // Definition:  func <name>((<param_name> (type))*) (type) {body}
                // Declaration: func <name>((<param_name> (type))*) (type)
                let (name, func) = Self::parse_function(tokens)?;

                Ok(DeclarationParseAction::Function(name, func))
            },
            TokenKind::Class => {
                // (data)?
                let kind = match tokens.peek() {
                    Some(Token { kind: TokenKind::Data, start: _, end: _ }) => {
                        tokens.pop();
                        ClassKind::Data
                    },
                    _ => ClassKind::Normal,
                };

                // <name>
                let name = match tokens.pop() {
                    Some(Token { kind: TokenKind::Symbol(name), start: _, end: _ }) => name,
                    Some(token) => return Err(LangError::new_parser_unexpected_token(&token)),
                    None => return Err(LangError::new_parser_end_of_file()),
                };

                // {
                expect_token(tokens, TokenKind::Parenthesis(ParenthesisKind::Curly, ParenthesisState::Open))?;

                let class = Self::parse_class_declaration(tokens, kind, name.clone(), module)?;

                Ok(DeclarationParseAction::Class(name, class))
            },
            TokenKind::NewLine => Ok(DeclarationParseAction::Nothing),
            _ => Err(LangError::new_parser_unexpected_token(&token)),
        }
    }

    fn parse_class_declaration(tokens: &mut Tokens, kind: ClassKind, name: String, module: ModuleUID)
        -> (r: Result<ParsableClass, LangError>)
        ensures
            final(tokens).tokens == old(tokens).tokens,
            final(tokens).remaining() <= old(tokens).remaining(),
            final(tokens).pos == class_body_spec(old(tokens).tokens@, old(tokens).pos as nat, kind == ClassKind::Data, Seq::empty(), Seq::empty()).1,
            match (r, class_body_spec(old(tokens).tokens@, old(tokens).pos as nat, kind == ClassKind::Data, Seq::empty(), Seq::empty()).0) {
                (Ok(c), Ok((fs, ms))) => c.name == name && c.module == module && c.kind == kind
                    && fields_decl_view(c.fields@) == fs && methods_decl_view(c.methods@) == ms,
                (Err(e), Err(pe)) => prepare_error_is(e, pe),
                _ => false,
            },
    {
        let mut fields: Vec<(String, ParsableType)> = Vec::new();
        let mut methods: Vec<(String, ParsableFunction)> = Vec::new();
        let ghost toks = tokens.tokens@;
        let ghost data = kind == ClassKind::Data;
        proof {
            assert(fields_decl_view(fields@) =~= Seq::<(Seq<char>, ParsableTypeV)>::empty());
            assert(methods_decl_view(methods@) =~= Seq::<FunctionDeclV>::empty());
        }

        loop
            invariant
                tokens.tokens == old(tokens).tokens,
                toks == old(tokens).tokens@,
                toks.len() == tokens.tokens.len(),
                data == (kind == ClassKind::Data),
                tokens.remaining() <= old(tokens).remaining(),
                class_body_spec(toks, old(tokens).pos as nat, data, Seq::empty(), Seq::empty())
                    == class_body_spec(toks, tokens.pos as nat, data, fields_decl_view(fields@), methods_decl_view(methods@)),
            decreases tokens.remaining(),
        {
            let ghost p = tokens.pos as nat;
            let token = match tokens.pop() {
                Some(token) => token,
                None => return Ok(ParsableClass { name, module, kind, fields, methods }),
            };

            match token.kind {
                TokenKind::Symbol(field_name) => {
                    // (type)
                    let type_ = preparse_type_error(tokens)?;

                    let ghost before = fields@;
                    fields.push((field_name, type_));
                    proof {
                        assert(fields_decl_view(fields@) =~= fields_decl_view(before).push((field_name@, type_@)));
                    }
                },
                TokenKind::Function => {
                    if let ClassKind::Data = kind {
                        return Err(LangError::parser(
                            &token,
                            ParserErrorKind::Unsupported(String::from_str("Methods in data classes are not yet supported")),
                        ));
                    }

                    let (method_name, method) = Self::parse_function(tokens)?;

                    let ghost before = methods@;
                    let ghost mv = (method_name@, names_view(method.params@), ptypes_view(method.func_type.0@),
                        (*method.func_type.1)@, snapshot_view(method.body));
                    methods.push((method_name, method));
                    proof {
                        assert(methods_decl_view(methods@) =~= methods_decl_view(before).push(mv));
                    }
                },
                TokenKind::NewLine => (),
                TokenKind::Parenthesis(ParenthesisKind::Curly, ParenthesisState::Close) => {
                    return Ok(ParsableClass { name, module, kind, fields, methods });
                },
                _ => return Err(LangError::parser(&token, ParserErrorKind::UnexpectedToken)),
            }
        }
    }

    /// Reads a global variable declaration `name type (= value)?`, skipping its value.
    pub fn parse_variable(tokens: &mut Tokens) -> (r: Result<(String, ParsableVariable), LangError>)
        ensures
            final(tokens).tokens == old(tokens).tokens,
            final(tokens).remaining() <= old(tokens).remaining(),
            final(tokens).pos == variable_spec(old(tokens).tokens@, old(tokens).pos as nat).1,
            variable_spec(old(tokens).tokens@, old(tokens).pos as nat).0 == match r {
                Ok((n, v)) => Ok::<(Seq<char>, ParsableTypeV, Option<nat>), LangError>((n@, v.type_kind@, snapshot_view(v.body))),
                Err(e) => Err::<(Seq<char>, ParsableTypeV, Option<nat>), LangError>(e),
            },
    {
        let ghost toks = tokens.tokens@;
        let ghost p0 = tokens.pos as nat;
        assert(toks.len() == tokens.tokens.len());
        let token = tokens.pop_err()?;

        // <name>
        let name = match token.kind {
            TokenKind::Symbol(name) => name,
            _ => return Err(LangError::new_parser_unexpected_token(&token)),
        };

        // (type)
        let type_kind = match preparse_type_error(tokens) {
            Ok(t) => t,
            Err(e) => {
                assert(tokens.pos == step(toks, p0 + 1));
                return Err(e);
            },
        };
        assert(tokens.pos == step(toks, p0 + 1));

        let token = match tokens.peek() {
            Some(token) => token,
            None => return Err(LangError::new_parser_end_of_file()),
        };

        // (= [value])?
        let body = match token.kind {
            TokenKind::Operator(OperatorKind::Assign) => {
                tokens.pop();

                let body = tokens.snapshot();
                Self::pop_until_newline(tokens);

                Some(body)
            },
            _ => None,
        };

        Ok((name, ParsableVariable { type_kind, body }))
    }

    /// Reads a function declaration `name(params) type? ({ body })?`, skipping its body.
    pub fn parse_function(tokens: &mut Tokens) -> (r: Result<(String, ParsableFunction), LangError>)
        ensures
            final(tokens).tokens == old(tokens).tokens,
            final(tokens).remaining() <= old(tokens).remaining(),
            final(tokens).pos == function_spec(old(tokens).tokens@, old(tokens).pos as nat).1,
            function_spec(old(tokens).tokens@, old(tokens).pos as nat).0 == match r {
                Ok((n, f)) => Ok::<(Seq<char>, Seq<Seq<char>>, Seq<ParsableTypeV>, ParsableTypeV, Option<nat>), LangError>(
                    (n@, names_view(f.params@), ptypes_view(f.func_type.0@), (*f.func_type.1)@, snapshot_view(f.body))),
                Err(e) => Err::<(Seq<char>, Seq<Seq<char>>, Seq<ParsableTypeV>, ParsableTypeV, Option<nat>), LangError>(e),
            },
    {
        let ghost toks = tokens.tokens@;
        assert(toks.len() == tokens.tokens.len());
        let token = tokens.pop_err()?;

        // <name>
        let name = match token.kind {
            TokenKind::Symbol(name) => name,
            _ => return Err(LangError::new_parser_unexpected_token(&token)),
        };

        // (
        expect_token(tokens, TokenKind::Parenthesis(ParenthesisKind::Round, ParenthesisState::Open))?;

        // (<param_name> (type))*)
        let (param_names, param_types) = preparse_parameter_names(tokens)?;

        // (type)
        let ret_type = match preparse_type_option(tokens) {
            Some(t) => t,
            None => ParsableType::Nothing,
        };
        let func_type = ParsableFunctionType(param_types, Box::new(ret_type));

        let token = match tokens.peek() {
            Some(token) => token,
            None => return Err(LangError::new_parser_end_of_file()),
        };

        let body = match token.kind {
            TokenKind::Parenthesis(ParenthesisKind::Curly, ParenthesisState::Open) => {
                tokens.pop();

                let body = tokens.snapshot();
                Self::pop_body(tokens);

                Some(body)
            },
            _ => None,
        };

        Ok((name, ParsableFunction { params: param_names, func_type, body }))
    }

    /// Skips a body up to and with the `}` that closes it (its `{` was read already).
    fn pop_body(tokens: &mut Tokens)
        requires
            old(tokens).pos >= 1,
        ensures
            final(tokens).tokens == old(tokens).tokens,
            final(tokens).remaining() <= old(tokens).remaining(),
            final(tokens).pos == body_end(old(tokens).tokens@, old(tokens).pos as nat, 1),
    {
        let mut open_parenthesis: usize = 1;
        let ghost toks = tokens.tokens@;

        loop
            invariant
                tokens.tokens == old(tokens).tokens,
                toks == old(tokens).tokens@,
                tokens.tokens.len() == toks.len(),
                tokens.remaining() <= old(tokens).remaining(),
                1 <= open_parenthesis <= tokens.pos,
                body_end(toks, old(tokens).pos as nat, 1) == body_end(toks, tokens.pos as nat, open_parenthesis as nat),
            decreases tokens.remaining(),
        {
            match tokens.pop() {
                Some(Token { kind: TokenKind::Parenthesis(ParenthesisKind::Curly, ParenthesisState::Open), start: _, end: _ }) => {
                    open_parenthesis = open_parenthesis + 1;
                },
                Some(Token { kind: TokenKind::Parenthesis(ParenthesisKind::Curly, ParenthesisState::Close), start: _, end: _ }) => {
                    if open_parenthesis == 1 {
                        return;
                    }
                    open_parenthesis = open_parenthesis - 1;
                },
                None => return,
                Some(_) => (),
            }
        }
    }

    /// Skips the rest of the line, with its newline token.
    fn pop_until_newline(tokens: &mut Tokens)
        ensures
            final(tokens).tokens == old(tokens).tokens,
            final(tokens).remaining() <= old(tokens).remaining(),
            final(tokens).pos == newline_end(old(tokens).tokens@, old(tokens).pos as nat),
    {
        let ghost toks = tokens.tokens@;
        loop
            invariant
                tokens.tokens == old(tokens).tokens,
                toks == old(tokens).tokens@,
                tokens.tokens.len() == toks.len(),
                tokens.remaining() <= old(tokens).remaining(),
                newline_end(toks, old(tokens).pos as nat) == newline_end(toks, tokens.pos as nat),
            decreases tokens.remaining(),
        {
            match tokens.pop() {
                Some(Token { kind: TokenKind::NewLine, start: _, end: _ }) | None => return,
                Some(_) => (),
            }
        }
    }
}

/// Skipping the rest of a line from `pos` stops just after its first newline, or at the end of
/// the tokens where the line has none; no newline lies before the stop.
pub proof fn law_line_skip(toks: Seq<Token>, pos: nat)
    requires
        pos <= toks.len(),
    ensures
        ({
            let e = newline_end(toks, pos);
            &&& pos <= e <= toks.len()
            &&& forall|q: int| pos <= q < e - 1 ==> (#[trigger] toks[q]).kind != TokenKind::NewLine
            &&& (e == toks.len() && forall|q: int| pos <= q < e ==> (#[trigger] toks[q]).kind != TokenKind::NewLine)
                || (pos < e && toks[e - 1].kind == TokenKind::NewLine)
        }),
    decreases toks.len() - pos,
{
    if pos < toks.len() && toks[pos as int].kind != TokenKind::NewLine {
        law_line_skip(toks, pos + 1);
    }
}

/// Skipping from `pos` with `depth` braces open (at least one): before the end no `}` closes
/// more braces than were open, and the end is either the end of the tokens or just after the
/// `}` that closes the braces that were open at `pos`.
proof fn lemma_body_end_balance(toks: Seq<Token>, pos: nat, depth: nat)
    requires
        pos <= toks.len(),
        depth >= 1,
    ensures
        ({
            let e = body_end(toks, pos, depth);
            let open = TokenKind::Parenthesis(ParenthesisKind::Curly, ParenthesisState::Open);
            let close = TokenKind::Parenthesis(ParenthesisKind::Curly, ParenthesisState::Close);
            &&& pos <= e <= toks.len()
            &&& forall|q: nat| pos <= q < e ==> #[trigger] count_kind(toks, pos, q, close) + 1 <= count_kind(toks, pos, q, open) + depth
            &&& (e == toks.len() && count_kind(toks, pos, e, close) + 1 <= count_kind(toks, pos, e, open) + depth)
                || (pos < e && toks[e - 1].kind == close && count_kind(toks, pos, e, close) == count_kind(toks, pos, e, open) + depth)
        }),
    decreases toks.len() - pos,
{
    let e = body_end(toks, pos, depth);
    let open = TokenKind::Parenthesis(ParenthesisKind::Curly, ParenthesisState::Open);
    let close = TokenKind::Parenthesis(ParenthesisKind::Curly, ParenthesisState::Close);
    if pos < toks.len() {
        let kind = toks[pos as int].kind;
        if kind == close && depth <= 1 {
            assert(e == pos + 1);
            lemma_count_front(toks, pos, pos + 1, open);
            lemma_count_front(toks, pos, pos + 1, close);
            assert forall|q: nat| pos <= q < e implies #[trigger] count_kind(toks, pos, q, close) + 1 <= count_kind(toks, pos, q, open) + depth by {
                assert(q == pos);
            }
        } else {
            let nd: nat = if kind == open { depth + 1 } else if kind == close { (depth - 1) as nat } else { depth };
            lemma_body_end_balance(toks, pos + 1, nd);
            assert(e == body_end(toks, pos + 1, nd));
            assert forall|q: nat| pos <= q < e implies #[trigger] count_kind(toks, pos, q, close) + 1 <= count_kind(toks, pos, q, open) + depth by {
                if q > pos {
                    lemma_count_front(toks, pos, q, open);
                    lemma_count_front(toks, pos, q, close);
                    assert(count_kind(toks, pos + 1, q, close) + 1 <= count_kind(toks, pos + 1, q, open) + nd);
                }
            }
            if e > pos {
                lemma_count_front(toks, pos, e, open);
                lemma_count_front(toks, pos, e, close);
            }
        }
    }
}

/// Skipping a function body whose `{` was just read stops just after the `}` that matches it:
/// no `}` before closes more than the braces opened after `pos`, and at it one more closes than
/// were opened; or it stops at the end of the tokens with no such `}`.
pub proof fn law_body_skip_matches_brace(toks: Seq<Token>, pos: nat)
    requires
        pos <= toks.len(),
    ensures
        ({
            let e = body_end(toks, pos, 1);
            let open = TokenKind::Parenthesis(ParenthesisKind::Curly, ParenthesisState::Open);
            let close = TokenKind::Parenthesis(ParenthesisKind::Curly, ParenthesisState::Close);
            &&& pos <= e <= toks.len()
            &&& forall|q: nat| pos <= q < e ==> #[trigger] count_kind(toks, pos, q, close) <= count_kind(toks, pos, q, open)
            &&& (e == toks.len() && count_kind(toks, pos, e, close) <= count_kind(toks, pos, e, open))
                || (pos < e && toks[e - 1].kind == close && count_kind(toks, pos, e, close) == count_kind(toks, pos, e, open) + 1)
        }),
{
    lemma_body_end_balance(toks, pos, 1);
}

} // verus!
