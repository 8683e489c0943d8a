use vstd::prelude::*;
use crate::class::{ClassType, fields_view, methods_view};
use crate::errors::{LangError, ParserErrorKind, end_of_file_error};
use crate::module::{ModuleIdentifier, ModuleUID};
use crate::module_preparser::{lemma_newline_end_ge, newline_end};
use crate::tokens::{LiteralKind, Token, TokenKind, TokenSnapshot, Tokens};
use crate::types::{ClassKind, FunctionType, FunctionTypeV, OperatorKind, ParenthesisKind, ParenthesisState, TypeKind, TypeV, types_view};
use crate::utils::{
    TokensExtensions, expect_spec, expect_token, names_view, param_names_spec, parse_parameter_names, parse_type_error,
    parse_type_option, step, token_at, type_error_spec, type_option_spec, unexpected,
};

verus! {

broadcast use vstd::std_specs::vec::axiom_spec_len;

/// A global variable of a definition module: its type and where its value starts.
pub struct VariableDeclaration {
    pub type_kind: TypeKind,
    pub body: TokenSnapshot,
}

/// A function of a definition module: its parameters, its type and where its body starts.
pub struct FunctionDeclaration {
    pub params: Vec<String>,
    pub func_type: FunctionType,
    pub body: TokenSnapshot,
}

/// A class of a definition module: its description and its methods.
pub struct ParsableClass {
    pub class_type: ClassType,
    pub functions: Vec<(String, FunctionDeclaration)>,
}

/// A definition module whose declarations are known and whose definitions are still to be parsed.
pub struct ParsableModule {
    pub uid: ModuleUID,
    pub tokens: Tokens,
    pub imports: Vec<ModuleIdentifier>,
    pub variables: Vec<(String, VariableDeclaration)>,
    pub functions: Vec<(String, FunctionDeclaration)>,
    pub classes: Vec<(String, ParsableClass)>,
}

/// A declaration module: it only declares functions and classes, which are defined elsewhere.
pub struct DeclarationModule {
    pub id: ModuleIdentifier,
    pub imports: Vec<ModuleIdentifier>,
    pub functions: Vec<(String, FunctionType)>,
    pub classes: Vec<(String, ClassType)>,
}

/// The position after the dedent that closes a block, `depth` inner blocks being open at `pos`.
pub open spec fn dedent_end(toks: Seq<Token>, pos: nat, depth: nat) -> nat
    decreases toks.len() - pos,
{
    if pos >= toks.len() {
        pos
    } else {
        match toks[pos as int].kind {
            TokenKind::Indent => dedent_end(toks, pos + 1, depth + 1),
            TokenKind::Dedent => if depth == 0 { pos + 1 } else { dedent_end(toks, pos + 1, (depth - 1) as nat) },
            _ => dedent_end(toks, pos + 1, depth),
        }
    }
}

/// What reading a field `name type` at `pos` gives, and the position after.
pub open spec fn var_definition_spec(toks: Seq<Token>, pos: nat) -> (Result<(Seq<char>, TypeV), LangError>, nat) {
    match token_at(toks, pos) {
        None => (Err(end_of_file_error()), pos),
        Some(t) => match t.kind {
            TokenKind::Symbol(name) => match type_error_spec(toks, pos + 1) {
                Err(e) => (Err(e), step(toks, pos + 1)),
                Ok(ty) => (Ok((name@, ty)), step(toks, pos + 1)),
            },
            _ => (Err(unexpected(t)), pos + 1),
        },
    }
}

/// What reading a variable `name type = value` at `pos` gives: the name, the type and where the
/// value starts; and the position after the line.
pub open spec fn init_variable_spec(toks: Seq<Token>, pos: nat) -> (Result<(Seq<char>, TypeV, nat), LangError>, nat) {
    match token_at(toks, pos) {
        None => (Err(end_of_file_error()), pos),
        Some(t) => match t.kind {
            TokenKind::Symbol(name) => match type_error_spec(toks, pos + 1) {
                Err(e) => (Err(e), step(toks, pos + 1)),
                Ok(ty) => {
                    let p2 = step(toks, pos + 1);
                    match expect_spec(toks, p2, TokenKind::Operator(OperatorKind::Assign)) {
                        Err(e) => (Err(e), step(toks, p2)),
                        Ok(_) => (Ok((name@, ty, p2 + 1)), newline_end(toks, p2 + 1)),
                    }
                },
            },
            _ => (Err(unexpected(t)), pos + 1),
        },
    }
}

/// What reading a function header `name(params) type?` at `pos` gives: the name, the parameter
/// names and types and the return type; and the position after.
pub open spec fn fn_header_spec(toks: Seq<Token>, pos: nat)
    -> (Result<(Seq<char>, Seq<Seq<char>>, Seq<TypeV>, TypeV), LangError>, nat)
{
    match token_at(toks, pos) {
        None => (Err(end_of_file_error()), pos),
        Some(t) => match t.kind {
            TokenKind::Symbol(name) => {
                let p1 = pos + 1;
                match expect_spec(toks, p1, TokenKind::Parenthesis(ParenthesisKind::Round, ParenthesisState::Open)) {
                    Err(e) => (Err(e), step(toks, p1)),
                    Ok(_) => {
                        let (params, p2) = param_names_spec(toks, step(toks, p1), true, Seq::empty(), Seq::empty());
                        match params {
                            Err(e) => (Err(e), p2),
                            Ok((names, types)) => match type_option_spec(toks, p2) {
                                Some(r) => (Ok((name@, names, types, r)), step(toks, p2)),
                                None => (Ok((name@, names, types, TypeV::Nothing)), p2),
                            },
                        }
                    },
                }
            },
            _ => (Err(unexpected(t)), pos + 1),
        },
    }
}

/// What reading a function definition `name(params) type? <indent> body <dedent>` at `pos`
/// gives: its header and where its body starts; and the position after the body.
pub open spec fn init_function_spec(toks: Seq<Token>, pos: nat)
    -> (Result<(Seq<char>, Seq<Seq<char>>, Seq<TypeV>, TypeV, nat), LangError>, nat)
{
    let (h, p3) = fn_header_spec(toks, pos);
    match h {
        Err(e) => (Err(e), p3),
        Ok((name, names, types, ret)) => match expect_spec(toks, p3, TokenKind::Indent) {
            Err(e) => (Err(e), step(toks, p3)),
            Ok(_) => (Ok((name, names, types, ret, p3 + 1)), dedent_end(toks, p3 + 1, 0)),
        },
    }
}

pub proof fn lemma_dedent_end_bounds(toks: Seq<Token>, pos: nat, depth: nat)
    ensures
        dedent_end(toks, pos, depth) >= pos,
        pos <= toks.len() ==> dedent_end(toks, pos, depth) <= toks.len(),
    decreases toks.len() - pos,
{
    if pos < toks.len() {
        match toks[pos as int].kind {
            TokenKind::Indent => lemma_dedent_end_bounds(toks, pos + 1, depth + 1),
            TokenKind::Dedent => if depth > 0 { lemma_dedent_end_bounds(toks, pos + 1, (depth - 1) as nat) },
            _ => lemma_dedent_end_bounds(toks, pos + 1, depth),
        }
    }
}

pub proof fn lemma_param_names_bounds(
    toks: Seq<Token>,
    pos: nat,
    next_is_argument: bool,
    names: Seq<Seq<char>>,
    types: Seq<TypeV>,
)
    ensures
        param_names_spec(toks, pos, next_is_argument, names, types).1 >= pos,
        pos <= toks.len() ==> param_names_spec(toks, pos, next_is_argument, names, types).1 <= toks.len(),
    decreases toks.len() - pos,
{
    if pos < toks.len() {
        let t = toks[pos as int];
        match t.kind {
            TokenKind::Symbol(name) => {
                if next_is_argument {
                    match type_error_spec(toks, pos + 1) {
                        Ok(ty) => lemma_param_names_bounds(toks, step(toks, pos + 1), false, names.push(name@), types.push(ty)),
                        Err(_) => {},
                    }
                }
            },
            TokenKind::Operator(OperatorKind::Comma) => {
                if !next_is_argument {
                    lemma_param_names_bounds(toks, pos + 1, true, names, types);
                }
            },
            _ => {},
        }
    }
}

pub proof fn lemma_fn_header_bounds(toks: Seq<Token>, pos: nat)
    requires
        pos <= toks.len(),
    ensures
        pos <= fn_header_spec(toks, pos).1 <= toks.len(),
        pos <= init_function_spec(toks, pos).1 <= toks.len(),
        pos <= init_variable_spec(toks, pos).1 <= toks.len(),
        pos <= var_definition_spec(toks, pos).1 <= toks.len(),
{
    if pos < toks.len() {
        lemma_param_names_bounds(toks, step(toks, pos + 1), true, Seq::empty(), Seq::empty());
        let p3 = fn_header_spec(toks, pos).1;
        lemma_dedent_end_bounds(toks, p3 + 1, 0);
        lemma_newline_end_ge(toks, step(toks, pos + 1) + 1);
    }
}

/// A function definition as read: name, parameter names and types, return type, body start.
pub type InitFunctionV = (Seq<char>, Seq<Seq<char>>, Seq<TypeV>, TypeV, nat);

/// Reading the body of a class definition from `pos` on, having read `fields` and `functions`:
/// up to the dedent that closes it (or the end).
pub open spec fn class_definition_spec(
    toks: Seq<Token>,
    pos: nat,
    fields: Seq<(Seq<char>, TypeV)>,
    functions: Seq<InitFunctionV>,
) -> (Result<(Seq<(Seq<char>, TypeV)>, Seq<InitFunctionV>), LangError>, nat)
    decreases toks.len() - pos,
{
    match token_at(toks, pos) {
        None => (Ok((fields, functions)), pos),
        Some(t) => match t.kind {
            TokenKind::Variable => {
                let (f, p) = var_definition_spec(toks, pos + 1);
                match f {
                    Err(e) => (Err(e), p),
                    Ok(fv) => {
                        proof {
                            lemma_fn_header_bounds(toks, pos + 1);
                        }
                        class_definition_spec(toks, p, fields.push(fv), functions)
                    },
                }
            },
            TokenKind::Function => {
                let (f, p) = init_function_spec(toks, pos + 1);
                match f {
                    Err(e) => (Err(e), p),
                    Ok(fv) => {
                        proof {
                            lemma_fn_header_bounds(toks, pos + 1);
                        }
                        class_definition_spec(toks, p, fields, functions.push(fv))
                    },
                }
            },
            TokenKind::NewLine => class_definition_spec(toks, pos + 1, fields, functions),
            TokenKind::Dedent => (Ok((fields, functions)), pos + 1),
            _ => (Err(LangError::Parser { token: t, kind: ParserErrorKind::UnexpectedToken }), pos + 1),
        },
    }
}

/// Reading the body of a class declaration from `pos` on, having read `fields` and `methods`.
pub open spec fn class_declaration_spec(
    toks: Seq<Token>,
    pos: nat,
    fields: Seq<(Seq<char>, TypeV)>,
    methods: Seq<(Seq<char>, FunctionTypeV)>,
) -> (Result<(Seq<(Seq<char>, TypeV)>, Seq<(Seq<char>, FunctionTypeV)>), LangError>, nat)
    decreases toks.len() - pos,
{
    match token_at(toks, pos) {
        None => (Ok((fields, methods)), pos),
        Some(t) => match t.kind {
            TokenKind::Variable => {
                let (f, p) = var_definition_spec(toks, pos + 1);
                match f {
                    Err(e) => (Err(e), p),
                    Ok(fv) => {
                        proof {
                            lemma_fn_header_bounds(toks, pos + 1);
                        }
                        class_declaration_spec(toks, p, fields.push(fv), methods)
                    },
                }
            },
            TokenKind::Function => {
                let (h, p) = fn_header_spec(toks, pos + 1);
                match h {
                    Err(e) => (Err(e), p),
                    Ok((n, _, ts, ret)) => {
                        proof {
                            lemma_fn_header_bounds(toks, pos + 1);
                        }
                        class_declaration_spec(toks, p, fields, methods.push((n, FunctionTypeV { params: ts, ret })))
                    },
                }
            },
            TokenKind::NewLine => class_declaration_spec(toks, pos + 1, fields, methods),
            TokenKind::Dedent => (Ok((fields, methods)), pos + 1),
            _ => (Err(LangError::Parser { token: t, kind: ParserErrorKind::UnexpectedToken }), pos + 1),
        },
    }
}

pub proof fn lemma_class_bodies_bounds(
    toks: Seq<Token>,
    pos: nat,
    fields: Seq<(Seq<char>, TypeV)>,
    functions: Seq<InitFunctionV>,
    methods: Seq<(Seq<char>, FunctionTypeV)>,
)
    requires
        pos <= toks.len(),
    ensures
        pos <= class_definition_spec(toks, pos, fields, functions).1 <= toks.len(),
        pos <= class_declaration_spec(toks, pos, fields, methods).1 <= toks.len(),
    decreases toks.len() - pos,
{
    if pos < toks.len() {
        lemma_fn_header_bounds(toks, pos + 1);
        let t = toks[pos as int];
        match t.kind {
            TokenKind::Variable => {
                let (f, p) = var_definition_spec(toks, pos + 1);
                if let Ok(fv) = f {
                    lemma_class_bodies_bounds(toks, p, fields.push(fv), functions, methods);
                    lemma_class_bodies_bounds(toks, p, fields.push(fv), functions, methods);
                }
            },
            TokenKind::Function => {
                let (f, p) = init_function_spec(toks, pos + 1);
                if let Ok(fv) = f {
                    lemma_class_bodies_bounds(toks, p, fields, functions.push(fv), methods);
                }
                let (h, q) = fn_header_spec(toks, pos + 1);
                if let Ok((n, _, ts, ret)) = h {
                    lemma_class_bodies_bounds(toks, q, fields, functions, methods.push((n, FunctionTypeV { params: ts, ret })));
                }
            },
            TokenKind::NewLine => lemma_class_bodies_bounds(toks, pos + 1, fields, functions, methods),
            _ => {},
        }
    }
}

/// The functions of a class definition, as read.
pub open spec fn init_functions_view(s: Seq<(String, FunctionDeclaration)>) -> Seq<InitFunctionV> {
    s.map_values(|p: (String, FunctionDeclaration)|
        (p.0@, names_view(p.1.params@), types_view(p.1.func_type.0@), (*p.1.func_type.1)@, p.1.body.0 as nat))
}

/// What reading a module written with indentation reports: an error of the language, or a
/// declaration that the kind of module does not take (with the token that starts it).
pub enum InitError {
    Lang(LangError),
    Unsupported(Token),
}

/// `e` is the error that `x` describes.
pub open spec fn init_error_is(e: LangError, x: InitError) -> bool {
    match x {
        InitError::Lang(l) => e == l,
        InitError::Unsupported(t) => e matches LangError::Parser { token, kind: ParserErrorKind::Unsupported(_) } && token == t,
    }
}

/// One declaration of a module written with indentation, as read.
pub enum InitDeclV {
    Import(Seq<char>),
    Variable(Seq<char>, TypeV, nat),
    Function(InitFunctionV),
    Class(Seq<char>, ClassKind, Seq<(Seq<char>, TypeV)>, Seq<InitFunctionV>),
    FunctionDeclaration(Seq<char>, FunctionTypeV),
    ClassDeclaration(Seq<char>, ClassKind, Seq<(Seq<char>, TypeV)>, Seq<(Seq<char>, FunctionTypeV)>),
    Nothing,
}

/// Reading one declaration at `pos`; in a declaration module (`declaration`) functions and
/// classes are read without bodies and variables are refused.
pub open spec fn init_declaration_spec(toks: Seq<Token>, pos: nat, declaration: bool) -> (Result<InitDeclV, InitError>, nat) {
    match token_at(toks, pos) {
        None => (Err(InitError::Lang(end_of_file_error())), pos),
        Some(t) => match t.kind {
            TokenKind::Import => match token_at(toks, pos + 1) {
                None => (Err(InitError::Lang(end_of_file_error())), pos + 1),
                Some(t2) => match t2.kind {
                    TokenKind::Literal(LiteralKind::String(path)) => match expect_spec(toks, pos + 2, TokenKind::NewLine) {
                        Err(e) => (Err(InitError::Lang(e)), step(toks, pos + 2)),
                        Ok(_) => (Ok(InitDeclV::Import(path@)), pos + 3),
                    },
                    _ => (Err(InitError::Lang(unexpected(t))), pos + 2),
                },
            },
            TokenKind::Variable => if declaration {
                (Err(InitError::Unsupported(t)), pos + 1)
            } else {
                let (v, p) = init_variable_spec(toks, pos + 1);
                match v {
                    Err(e) => (Err(InitError::Lang(e)), p),
                    Ok((n, ty, b)) => (Ok(InitDeclV::Variable(n, ty, b)), p),
                }
            },
            TokenKind::Function => if declaration {
                let (h, p) = fn_header_spec(toks, pos + 1);
                match h {
                    Err(e) => (Err(InitError::Lang(e)), p),
                    Ok((n, _, ts, ret)) => (Ok(InitDeclV::FunctionDeclaration(n, FunctionTypeV { params: ts, ret })), p),
                }
            } else {
                let (f, p) = init_function_spec(toks, pos + 1);
                match f {
                    Err(e) => (Err(InitError::Lang(e)), p),
                    Ok(fv) => (Ok(InitDeclV::Function(fv)), p),
                }
            },
            TokenKind::Class => {
                let data = token_at(toks, pos + 1) matches Some(t1) && t1.kind == TokenKind::Data;
                let p1: nat = if data { pos + 2 } else { pos + 1 };
                let kind = if data { ClassKind::Data } else { ClassKind::Normal };
                match token_at(toks, p1) {
                    None => (Err(InitError::Lang(end_of_file_error())), p1),
                    Some(tn) => match tn.kind {
                        TokenKind::Symbol(name) => match expect_spec(toks, p1 + 1, TokenKind::Indent) {
                            Err(e) => (Err(InitError::Lang(e)), step(toks, p1 + 1)),
                            Ok(_) => if declaration {
                                let (cb, p3) = class_declaration_spec(toks, p1 + 2, Seq::empty(), Seq::empty());
                                match cb {
                                    Err(e) => (Err(InitError::Lang(e)), p3),
                                    Ok((fs, ms)) => (Ok(InitDeclV::ClassDeclaration(name@, kind, fs, ms)), p3),
                                }
                            } else {
                                let (cb, p3) = class_definition_spec(toks, p1 + 2, Seq::empty(), Seq::empty());
                                match cb {
                                    Err(e) => (Err(InitError::Lang(e)), p3),
                                    Ok((fs, fns)) => (Ok(InitDeclV::Class(name@, kind, fs, fns)), p3),
                                }
                            },
                        },
                        _ => (Err(InitError::Lang(unexpected(tn))), p1 + 1),
                    },
                }
            },
            TokenKind::NewLine => (Ok(InitDeclV::Nothing), pos + 1),
            _ => (Err(InitError::Lang(unexpected(t))), pos + 1),
        },
    }
}

pub proof fn lemma_init_declaration_advances(toks: Seq<Token>, pos: nat, declaration: bool)
    requires
        pos < toks.len(),
    ensures
        pos < init_declaration_spec(toks, pos, declaration).1 <= toks.len(),
{
    lemma_fn_header_bounds(toks, pos + 1);
    let data = token_at(toks, pos + 1) matches Some(t1) && t1.kind == TokenKind::Data;
    let p1: nat = if data { pos + 2 } else { pos + 1 };
    if p1 + 2 <= toks.len() {
        lemma_class_bodies_bounds(toks, p1 + 2, Seq::empty(), Seq::empty(), Seq::empty());
    }
}

/// The declarations of a definition module, by kind, in the order they were read.
pub struct InitModuleV {
    pub imports: Seq<Seq<char>>,
    pub variables: Seq<(Seq<char>, TypeV, nat)>,
    pub functions: Seq<InitFunctionV>,
    pub classes: Seq<(Seq<char>, ClassKind, Seq<(Seq<char>, TypeV)>, Seq<InitFunctionV>)>,
}

/// Reading the declarations of a definition module from `pos` to the end, having read `acc`.
pub open spec fn init_module_spec(toks: Seq<Token>, pos: nat, acc: InitModuleV) -> Result<InitModuleV, InitError>
    decreases toks.len() - pos,
{
    if pos >= toks.len() {
        Ok(acc)
    } else {
        let t = toks[pos as int];
        let (d, p) = init_declaration_spec(toks, pos, false);
        proof {
            lemma_init_declaration_advances(toks, pos, false);
        }
        match d {
            Err(x) => Err(x),
            Ok(InitDeclV::Import(path)) => init_module_spec(toks, p, InitModuleV { imports: acc.imports.push(path), ..acc }),
            Ok(InitDeclV::Variable(n, ty, b)) => init_module_spec(toks, p, InitModuleV { variables: acc.variables.push((n, ty, b)), ..acc }),
            Ok(InitDeclV::Function(f)) => init_module_spec(toks, p, InitModuleV { functions: acc.functions.push(f), ..acc }),
            Ok(InitDeclV::Class(n, k, fs, fns)) => init_module_spec(toks, p, InitModuleV { classes: acc.classes.push((n, k, fs, fns)), ..acc }),
            Ok(InitDeclV::Nothing) => init_module_spec(toks, p, acc),
            Ok(_) => Err(InitError::Unsupported(t)),
        }
    }
}

/// No declarations yet.
pub open spec fn empty_init_module() -> InitModuleV {
    InitModuleV { imports: Seq::empty(), variables: Seq::empty(), functions: Seq::empty(), classes: Seq::empty() }
}

/// No declarations yet.
pub open spec fn empty_decl_module() -> DeclModuleV {
    DeclModuleV { functions: Seq::empty(), classes: Seq::empty() }
}

/// The declarations that a definition module holds.
pub open spec fn init_module_view(m: ParsableModule) -> InitModuleV {
    InitModuleV {
        imports: m.imports@.map_values(|i: ModuleIdentifier| i.0@),
        variables: m.variables@.map_values(|p: (String, VariableDeclaration)| (p.0@, p.1.type_kind@, p.1.body.0 as nat)),
        functions: init_functions_view(m.functions@),
        classes: m.classes@.map_values(|p: (String, ParsableClass)|
            (p.0@, p.1.class_type.kind, fields_view(p.1.class_type.fields@), init_functions_view(p.1.functions@))),
    }
}

/// The declarations of a declaration module, by kind, in the order they were read.
pub struct DeclModuleV {
    pub functions: Seq<(Seq<char>, FunctionTypeV)>,
    pub classes: Seq<(Seq<char>, ClassKind, Seq<(Seq<char>, TypeV)>, Seq<(Seq<char>, FunctionTypeV)>)>,
}

/// Reading the declarations of a declaration module from `pos` to the end, having read `acc`.
pub open spec fn decl_module_spec(toks: Seq<Token>, pos: nat, acc: DeclModuleV) -> Result<DeclModuleV, InitError>
    decreases toks.len() - pos,
{
    if pos >= toks.len() {
        Ok(acc)
    } else {
        let t = toks[pos as int];
        let (d, p) = init_declaration_spec(toks, pos, true);
        proof {
            lemma_init_declaration_advances(toks, pos, true);
        }
        match d {
            Err(x) => Err(x),
            Ok(InitDeclV::FunctionDeclaration(n, f)) => decl_module_spec(toks, p, DeclModuleV { functions: acc.functions.push((n, f)), ..acc }),
            Ok(InitDeclV::ClassDeclaration(n, k, fs, ms)) =>
                decl_module_spec(toks, p, DeclModuleV { classes: acc.classes.push((n, k, fs, ms)), ..acc }),
            Ok(InitDeclV::Nothing) => decl_module_spec(toks, p, acc),
            Ok(_) => Err(InitError::Unsupported(t)),
        }
    }
}

/// The declarations that a declaration module holds.
pub open spec fn decl_module_view(m: DeclarationModule) -> DeclModuleV {
    DeclModuleV {
        functions: m.functions@.map_values(|p: (String, FunctionType)| (p.0@, p.1@)),
        classes: m.classes@.map_values(|p: (String, ClassType)|
            (p.0@, p.1.kind, fields_view(p.1.fields@), methods_view(p.1.methods@))),
    }
}

/// The first step of parsing a module written with indentation: it reads the declarations and
/// records, for each definition, where its value or body starts.
pub struct ModuleInitializer;

enum DeclarationParseAction {
    Import(String),
    Variable(String, VariableDeclaration),
    Function(String, FunctionDeclaration),
    Class(String, ParsableClass),
    FunctionDeclaration(String, FunctionType),
    ClassDeclaration(ClassType),
    Nothing,
}

/// What a declaration read gives, as the declaration that was read.
spec fn action_matches(a: DeclarationParseAction, d: InitDeclV, module: ModuleUID) -> bool {
    match (a, d) {
        (DeclarationParseAction::Import(p), InitDeclV::Import(q)) => p@ == q,
        (DeclarationParseAction::Variable(n, v), InitDeclV::Variable(m, ty, b)) =>
            n@ == m && v.type_kind@ == ty && v.body.0 as nat == b,
        (DeclarationParseAction::Function(n, f), InitDeclV::Function(fv)) =>
            (n@, names_view(f.params@), types_view(f.func_type.0@), (*f.func_type.1)@, f.body.0 as nat) == fv,
        (DeclarationParseAction::Class(n, c), InitDeclV::Class(m, k, fs, fns)) => {
            &&& n@ == m
            &&& c.class_type.name@ == n@
            &&& c.class_type.module == module
            &&& c.class_type.kind == k
            &&& fields_view(c.class_type.fields@) == fs
            &&& init_functions_view(c.functions@) == fns
        },
        (DeclarationParseAction::FunctionDeclaration(n, f), InitDeclV::FunctionDeclaration(m, fv)) => n@ == m && f@ == fv,
        (DeclarationParseAction::ClassDeclaration(c), InitDeclV::ClassDeclaration(m, k, fs, ms)) =>
            c.name@ == m && c.module == module && c.kind == k && fields_view(c.fields@) == fs && methods_view(c.methods@) == ms,
        (DeclarationParseAction::Nothing, InitDeclV::Nothing) => true,
        _ => false,
    }
}

impl ModuleInitializer {
    /// Reads a field `name type`.
    fn parse_variable_definition(tokens: &mut Tokens) -> (r: Result<(String, TypeKind), LangError>)
        ensures
            final(tokens).tokens == old(tokens).tokens,
            final(tokens).remaining() <= old(tokens).remaining(),
            final(tokens).pos == var_definition_spec(old(tokens).tokens@, old(tokens).pos as nat).1,
            var_definition_spec(old(tokens).tokens@, old(tokens).pos as nat).0 == match r {
                Ok((n, t)) => Ok::<(Seq<char>, TypeV), LangError>((n@, t@)),
                Err(e) => Err::<(Seq<char>, TypeV), LangError>(e),
            },
    {
        let ghost toks = tokens.tokens@;
        let ghost p0 = tokens.pos as nat;
        assert(toks.len() == tokens.tokens.len());
        let token = tokens.pop_err()?;

        // <name>
        let name = match token.kind {
            TokenKind::Symbol(name) => name,
            _ => return Err(LangError::new_parser_unexpected_token(&token)),
        };

        // (type)
        let type_kind = match parse_type_error(tokens) {
            Ok(t) => t,
            Err(e) => {
                assert(tokens.pos == step(toks, p0 + 1));
                return Err(e);
            },
        };
        assert(tokens.pos == step(toks, p0 + 1));

        Ok((name, type_kind))
    }

    /// Skips a block up to and with the dedent that closes it.
    fn pop_until_dedent(tokens: &mut Tokens)
        ensures
            final(tokens).tokens == old(tokens).tokens,
            final(tokens).remaining() <= old(tokens).remaining(),
            final(tokens).pos == dedent_end(old(tokens).tokens@, old(tokens).pos as nat, 0),
    {
        let mut indentations: usize = 0;
        let ghost toks = tokens.tokens@;

        loop
            invariant
                tokens.tokens == old(tokens).tokens,
                toks == old(tokens).tokens@,
                tokens.tokens.len() == toks.len(),
                tokens.remaining() <= old(tokens).remaining(),
                indentations <= tokens.pos,
                dedent_end(toks, old(tokens).pos as nat, 0) == dedent_end(toks, tokens.pos as nat, indentations as nat),
            decreases tokens.remaining(),
        {
            match tokens.pop() {
                Some(Token { kind: TokenKind::Indent, start: _, end: _ }) => {
                    indentations = indentations + 1;
                },
                Some(Token { kind: TokenKind::Dedent, start: _, end: _ }) => {
                    if indentations == 0 {
                        return;
                    }
                    indentations = indentations - 1;
                },
                None => return,
                Some(_) => (),
            }
        }
    }

    /// Skips the rest of the line, with its newline token.
    fn pop_until_newline(tokens: &mut Tokens)
        ensures
            final(tokens).tokens == old(tokens).tokens,
            final(tokens).remaining() <= old(tokens).remaining(),
            final(tokens).pos == newline_end(old(tokens).tokens@, old(tokens).pos as nat),
    {
        let ghost toks = tokens.tokens@;
        loop
            invariant
                tokens.tokens == old(tokens).tokens,
                toks == old(tokens).tokens@,
                tokens.tokens.len() == toks.len(),
                tokens.remaining() <= old(tokens).remaining(),
                newline_end(toks, old(tokens).pos as nat) == newline_end(toks, tokens.pos as nat),
            decreases tokens.remaining(),
        {
            match tokens.pop() {
                Some(Token { kind: TokenKind::NewLine, start: _, end: _ }) | None => return,
                Some(_) => (),
            }
        }
    }

    /// Reads a global variable `name type = value`, skipping its value.
    fn parse_variable(tokens: &mut Tokens) -> (r: Result<(String, VariableDeclaration), LangError>)
        ensures
            final(tokens).tokens == old(tokens).tokens,
            final(tokens).remaining() <= old(tokens).remaining(),
            final(tokens).pos == init_variable_spec(old(tokens).tokens@, old(tokens).pos as nat).1,
            init_variable_spec(old(tokens).tokens@, old(tokens).pos as nat).0 == match r {
                Ok((n, v)) => Ok::<(Seq<char>, TypeV, nat), LangError>((n@, v.type_kind@, v.body.0 as nat)),
                Err(e) => Err::<(Seq<char>, TypeV, nat), LangError>(e),
            },
    {
        let ghost toks = tokens.tokens@;
        let ghost p0 = tokens.pos as nat;
        assert(toks.len() == tokens.tokens.len());
        let token = tokens.pop_err()?;

        // <name>
        let name = match token.kind {
            TokenKind::Symbol(name) => name,
            _ => return Err(LangError::new_parser_unexpected_token(&token)),
        };

        // (type)
        let type_kind = match parse_type_error(tokens) {
            Ok(t) => t,
            Err(e) => {
                assert(tokens.pos == step(toks, p0 + 1));
                return Err(e);
            },
        };
        assert(tokens.pos == step(toks, p0 + 1));

        // =
        expect_token(tokens, TokenKind::Operator(OperatorKind::Assign))?;

        // [value]
        let body = tokens.snapshot();
        Self::pop_until_newline(tokens);

        Ok((name, VariableDeclaration { type_kind, body }))
    }

    /// Reads a function header `name(params) type?`.
    fn parse_function_header(tokens: &mut Tokens) -> (r: Result<(String, Vec<String>, FunctionType), LangError>)
        ensures
            final(tokens).tokens == old(tokens).tokens,
            final(tokens).remaining() <= old(tokens).remaining(),
            final(tokens).pos == fn_header_spec(old(tokens).tokens@, old(tokens).pos as nat).1,
            fn_header_spec(old(tokens).tokens@, old(tokens).pos as nat).0 == match r {
                Ok((n, ps, f)) => Ok::<(Seq<char>, Seq<Seq<char>>, Seq<TypeV>, TypeV), LangError>(
                    (n@, names_view(ps@), types_view(f.0@), (*f.1)@)),
                Err(e) => Err::<(Seq<char>, Seq<Seq<char>>, Seq<TypeV>, TypeV), LangError>(e),
            },
    {
        let ghost toks = tokens.tokens@;
        assert(toks.len() == tokens.tokens.len());
        let token = tokens.pop_err()?;

        // <name>
        let name = match token.kind {
            TokenKind::Symbol(name) => name,
            _ => return Err(LangError::new_parser_unexpected_token(&token)),
        };

        // (
        expect_token(tokens, TokenKind::Parenthesis(ParenthesisKind::Round, ParenthesisState::Open))?;

        // (<param_name> (type))*)
        let (param_names, param_types) = parse_parameter_names(tokens)?;

        // (type)
        let ret_type = match parse_type_option(tokens) {
            Some(t) => t,
            None => TypeKind::Nothing,
        };

        Ok((name, param_names, FunctionType(param_types, Box::new(ret_type))))
    }

    /// Reads a function declaration `name(params) type?`.
    fn parse_function_declaration(tokens: &mut Tokens) -> (r: Result<(String, FunctionType), LangError>)
        ensures
            final(tokens).tokens == old(tokens).tokens,
            final(tokens).remaining() <= old(tokens).remaining(),
            final(tokens).pos == fn_header_spec(old(tokens).tokens@, old(tokens).pos as nat).1,
            match (fn_header_spec(old(tokens).tokens@, old(tokens).pos as nat).0, r) {
                (Ok((n, _, ts, ret)), Ok((name, f))) => n == name@ && ts == types_view(f.0@) && ret == (*f.1)@,
                (Err(e1), Err(e2)) => e1 == e2,
                _ => false,
            },
    {
        let (name, _, func_type) = Self::parse_function_header(tokens)?;
        Ok((name, func_type))
    }

    /// Reads a function definition `name(params) type? <indent> body <dedent>`, skipping its body.
    fn parse_function(tokens: &mut Tokens) -> (r: Result<(String, FunctionDeclaration), LangError>)
        ensures
            final(tokens).tokens == old(tokens).tokens,
            final(tokens).remaining() <= old(tokens).remaining(),
            final(tokens).pos == init_function_spec(old(tokens).tokens@, old(tokens).pos as nat).1,
            init_function_spec(old(tokens).tokens@, old(tokens).pos as nat).0 == match r {
                Ok((n, f)) => Ok::<(Seq<char>, Seq<Seq<char>>, Seq<TypeV>, TypeV, nat), LangError>(
                    (n@, names_view(f.params@), types_view(f.func_type.0@), (*f.func_type.1)@, f.body.0 as nat)),
                Err(e) => Err::<(Seq<char>, Seq<Seq<char>>, Seq<TypeV>, TypeV, nat), LangError>(e),
            },
    {
        let ghost toks = tokens.tokens@;
        assert(toks.len() == tokens.tokens.len());
        let (name, param_names, func_type) = Self::parse_function_header(tokens)?;

        // indentation
        expect_token(tokens, TokenKind::Indent)?;

        // {body}
        let body = tokens.snapshot();
        Self::pop_until_dedent(tokens);

        Ok((name, FunctionDeclaration { params: param_names, func_type, body }))
    }
}

impl ModuleInitializer {
    /// Reads the body of a class declaration: its fields and the types of its methods, up to
    /// the dedent that closes it.
    fn parse_class_declaration(tokens: &mut Tokens, module: ModuleUID, name: &String, kind: ClassKind)
        -> (r: Result<ClassType, LangError>)
        ensures
            final(tokens).tokens == old(tokens).tokens,
            final(tokens).remaining() <= old(tokens).remaining(),
            final(tokens).pos == class_declaration_spec(old(tokens).tokens@, old(tokens).pos as nat, Seq::empty(), Seq::empty()).1,
            match (r, class_declaration_spec(old(tokens).tokens@, old(tokens).pos as nat, Seq::empty(), Seq::empty()).0) {
                (Ok(c), Ok((fs, ms))) => c.name@ == name@ && c.module == module && c.kind == kind
                    && fields_view(c.fields@) == fs && methods_view(c.methods@) == ms,
                (Err(e), Err(x)) => e == x,
                _ => false,
            },
    {
        let mut fields: Vec<(String, TypeKind)> = Vec::new();
        let mut methods: Vec<(String, FunctionType)> = Vec::new();
        let ghost toks = tokens.tokens@;
        proof {
            assert(fields_view(fields@) =~= Seq::<(Seq<char>, TypeV)>::empty());
            assert(methods_view(methods@) =~= Seq::<(Seq<char>, FunctionTypeV)>::empty());
        }

        loop
            invariant
                tokens.tokens == old(tokens).tokens,
                toks == old(tokens).tokens@,
                toks.len() == tokens.tokens.len(),
                tokens.remaining() <= old(tokens).remaining(),
                class_declaration_spec(toks, old(tokens).pos as nat, Seq::empty(), Seq::empty())
                    == class_declaration_spec(toks, tokens.pos as nat, fields_view(fields@), methods_view(methods@)),
            decreases tokens.remaining(),
        {
            let token = match tokens.pop() {
                Some(token) => token,
                None => return Ok(ClassType { name: name.clone(), module, kind, fields, methods }),
            };

            match token.kind {
                TokenKind::Variable => {
                    let field = Self::parse_variable_definition(tokens)?;
                    let ghost before = fields@;
                    let ghost fv = (field.0@, field.1@);
                    fields.push(field);
                    proof {
                        assert(fields_view(fields@) =~= fields_view(before).push(fv));
                    }
                },
                TokenKind::Function => {
                    let method = Self::parse_function_declaration(tokens)?;
                    let ghost before = methods@;
                    let ghost mv = (method.0@, method.1@);
                    methods.push(method);
                    proof {
                        assert(methods_view(methods@) =~= methods_view(before).push(mv));
                    }
                },
                TokenKind::NewLine => (),
                TokenKind::Dedent => return Ok(ClassType { name: name.clone(), module, kind, fields, methods }),
                _ => return Err(LangError::parser(&token, ParserErrorKind::UnexpectedToken)),
            }
        }
    }

    /// Reads the body of a class definition: its fields and its methods, up to the dedent that
    /// closes it; the description of the class lists the types of the methods.
    fn parse_class_definition(tokens: &mut Tokens, module: ModuleUID, name: &String, kind: ClassKind)
        -> (r: Result<ParsableClass, LangError>)
        ensures
            final(tokens).tokens == old(tokens).tokens,
            final(tokens).remaining() <= old(tokens).remaining(),
            final(tokens).pos == class_definition_spec(old(tokens).tokens@, old(tokens).pos as nat, Seq::empty(), Seq::empty()).1,
            match (r, class_definition_spec(old(tokens).tokens@, old(tokens).pos as nat, Seq::empty(), Seq::empty()).0) {
                (Ok(c), Ok((fs, fns))) => {
                    &&& c.class_type.name@ == name@
                    &&& c.class_type.module == module
                    &&& c.class_type.kind == kind
                    &&& fields_view(c.class_type.fields@) == fs
                    &&& init_functions_view(c.functions@) == fns
                    &&& c.class_type.methods@.len() == c.functions@.len()
                    &&& forall|j: int| 0 <= j < c.functions@.len() ==>
                            (#[trigger] c.class_type.methods@[j]).0@ == c.functions@[j].0@
                            && c.class_type.methods@[j].1@ == c.functions@[j].1.func_type@
                },
                (Err(e), Err(x)) => e == x,
                _ => false,
            },
    {
        let mut fields: Vec<(String, TypeKind)> = Vec::new();
        let mut functions: Vec<(String, FunctionDeclaration)> = Vec::new();
        let mut function_types: Vec<(String, FunctionType)> = Vec::new();
        let ghost toks = tokens.tokens@;
        proof {
            assert(fields_view(fields@) =~= Seq::<(Seq<char>, TypeV)>::empty());
            assert(init_functions_view(functions@) =~= Seq::<InitFunctionV>::empty());
        }

        loop
            invariant
                tokens.tokens == old(tokens).tokens,
                toks == old(tokens).tokens@,
                toks.len() == tokens.tokens.len(),
                tokens.remaining() <= old(tokens).remaining(),
                function_types@.len() == functions@.len(),
                forall|j: int| 0 <= j < functions@.len() ==>
                    (#[trigger] function_types@[j]).0@ == functions@[j].0@
                    && function_types@[j].1@ == functions@[j].1.func_type@,
                class_definition_spec(toks, old(tokens).pos as nat, Seq::empty(), Seq::empty())
                    == class_definition_spec(toks, tokens.pos as nat, fields_view(fields@), init_functions_view(functions@)),
            decreases tokens.remaining(),
        {
            let token = match tokens.pop() {
                Some(token) => token,
                None => {
                    let class_type = ClassType { name: name.clone(), module, kind, fields, methods: function_types };
                    return Ok(ParsableClass { class_type, functions });
                },
            };

            match token.kind {
                TokenKind::Variable => {
                    let field = Self::parse_variable_definition(tokens)?;
                    let ghost before = fields@;
                    let ghost fv = (field.0@, field.1@);
                    fields.push(field);
                    proof {
                        assert(fields_view(fields@) =~= fields_view(before).push(fv));
                    }
                },
                TokenKind::Function => {
                    let (fname, decl) = Self::parse_function(tokens)?;
                    function_types.push((fname.clone(), decl.func_type.clone_fn_type()));
                    let ghost before = functions@;
                    let ghost fv = (fname@, names_view(decl.params@), types_view(decl.func_type.0@), (*decl.func_type.1)@, decl.body.0 as nat);
                    functions.push((fname, decl));
                    proof {
                        assert(init_functions_view(functions@) =~= init_functions_view(before).push(fv));
                    }
                },
                TokenKind::NewLine => (),
                TokenKind::Dedent => {
                    let class_type = ClassType { name: name.clone(), module, kind, fields, methods: function_types };
                    return Ok(ParsableClass { class_type, functions });
                },
                _ => return Err(LangError::parser(&token, ParserErrorKind::UnexpectedToken)),
            }
        }
    }

    /// Reads one declaration; in a declaration module (`declaration`), functions and classes
    /// are declared without bodies and variables are refused.
    fn parse_declaration(tokens: &mut Tokens, module: ModuleUID, declaration: bool) -> (r: Result<DeclarationParseAction, LangError>)
        requires
            old(tokens).remaining() > 0,
        ensures
            final(tokens).tokens == old(tokens).tokens,
            final(tokens).remaining() < old(tokens).remaining(),
            final(tokens).pos == init_declaration_spec(old(tokens).tokens@, old(tokens).pos as nat, declaration).1,
            match (r, init_declaration_spec(old(tokens).tokens@, old(tokens).pos as nat, declaration).0) {
                (Ok(a), Ok(d)) => action_matches(a, d, module),
                (Err(e), Err(x)) => init_error_is(e, x),
                _ => false,
            },
    {
        let ghost toks = tokens.tokens@;
        let ghost p0 = tokens.pos as nat;
        assert(toks.len() == tokens.tokens.len());
        proof {
            lemma_init_declaration_advances(toks, p0, declaration);
        }
        let token = tokens.pop_err()?;

        match token.kind {
            TokenKind::Import => {
                // import [path]
                let path = match tokens.pop_err()?.kind {
                    TokenKind::Literal(LiteralKind::String(path)) => path,
                    _ => return Err(LangError::new_parser_unexpected_token(&token)),
                };

                // new line
                expect_token(tokens, TokenKind::NewLine)?;

                Ok(DeclarationParseAction::Import(path))
            },
            TokenKind::Variable => {
                // var <name> (type) = [value]
                if declaration {
                    return Err(LangError::parser(
                        &token,
                        ParserErrorKind::Unsupported(String::from_str("Variable inside of a definition module")),
                    ));
                }

                let (name, decl) = Self::parse_variable(tokens)?;

                Ok(DeclarationParseAction::Variable(name, decl))
            },
            TokenKind::Function => {
                // func <name>((<param_name> (type))*) (type): {body}
                if declaration {
                    let (name, type_) = Self::parse_function_declaration(tokens)?;

                    return Ok(DeclarationParseAction::FunctionDeclaration(name, type_));
                }

                let (name, decl) = Self::parse_function(tokens)?;

                Ok(DeclarationParseAction::Function(name, decl))
            },
            TokenKind::Class => {
                // class (data)? ClassName <indent> fields and methods <dedent>
                let kind = match tokens.peek() {
                    Some(Token { kind: TokenKind::Data, start: _, end: _ }) => {
                        tokens.pop();
                        ClassKind::Data
                    },
                    _ => ClassKind::Normal,
                };

                // <name>
                let name = match tokens.pop() {
                    Some(Token { kind: TokenKind::Symbol(name), start: _, end: _ }) => name,
                    Some(token) => return Err(LangError::new_parser_unexpected_token(&token)),
                    None => return Err(LangError::new_parser_end_of_file()),
                };

                // indentation
                expect_token(tokens, TokenKind::Indent)?;

                if declaration {
                    let class_type = Self::parse_class_declaration(tokens, module, &name, kind)?;

                    Ok(DeclarationParseAction::ClassDeclaration(class_type))
                } else {
                    let class = Self::parse_class_definition(tokens, module, &name, kind)?;

                    Ok(DeclarationParseAction::Class(name, class))
                }
            },
            TokenKind::NewLine => Ok(DeclarationParseAction::Nothing),
            _ => Err(LangError::new_parser_unexpected_token(&token)),
        }
    }

    /// Reads every declaration of a definition module.
    #[verifier::loop_isolation(false)]
    pub fn initialize_module(tokens: Tokens, uid: ModuleUID) -> (r: Result<ParsableModule, LangError>)
        ensures
            r matches Ok(m) ==> init_module_spec(tokens.tokens@, tokens.pos as nat, empty_init_module()) == Ok::<InitModuleV, InitError>(init_module_view(m))
                && m.uid == uid && m.tokens.tokens == tokens.tokens
                && forall|i: int| 0 <= i < m.classes@.len() ==> (#[trigger] m.classes@[i]).1.class_type.module == uid,
            r matches Err(e) ==> init_module_spec(tokens.tokens@, tokens.pos as nat, empty_init_module()) matches Err(x)
                && init_error_is(e, x),
    {
        let ghost orig = tokens;
        let ghost toks = tokens.tokens@;
        let ghost start = tokens.pos as nat;
        let mut module = ParsableModule {
            uid,
            tokens,
            imports: Vec::new(),
            variables: Vec::new(),
            functions: Vec::new(),
            classes: Vec::new(),
        };
        proof {
            let v = init_module_view(module);
            assert(v.imports =~= Seq::<Seq<char>>::empty());
            assert(v.variables =~= Seq::<(Seq<char>, TypeV, nat)>::empty());
            assert(v.functions =~= Seq::<InitFunctionV>::empty());
            assert(v.classes =~= Seq::<(Seq<char>, ClassKind, Seq<(Seq<char>, TypeV)>, Seq<InitFunctionV>)>::empty());
        }

        loop
            invariant
                module.uid == uid,
                module.tokens.tokens == orig.tokens,
                toks == orig.tokens@,
                start == orig.pos as nat,
                module.tokens.tokens@ == toks,
                toks.len() == module.tokens.tokens.len(),
                init_module_spec(toks, start, empty_init_module()) == init_module_spec(toks, module.tokens.pos as nat, init_module_view(module)),
                forall|i: int| 0 <= i < module.classes@.len() ==> (#[trigger] module.classes@[i]).1.class_type.module == uid,
            decreases module.tokens.remaining(),
        {
            let token = match module.tokens.peek() {
                Some(token) => token,
                None => break,
            };

            let ghost p = module.tokens.pos as nat;
            let ghost before = init_module_view(module);
            let result = Self::parse_declaration(&mut module.tokens, module.uid, false);
            let ghost d = init_declaration_spec(toks, p, false).0;
            match result {
                Ok(DeclarationParseAction::Import(path)) => {
                    let ghost pv = path@;
                    module.imports.push(ModuleIdentifier(path));
                    proof {
                        let now = init_module_view(module);
                        assert(now.imports =~= before.imports.push(pv));
                        assert(now.variables =~= before.variables);
                        assert(now.functions =~= before.functions);
                        assert(now.classes =~= before.classes);
                    }
                },
                Ok(DeclarationParseAction::Function(name, func)) => {
                    let ghost fv = (name@, names_view(func.params@), types_view(func.func_type.0@), (*func.func_type.1)@, func.body.0 as nat);
                    module.functions.push((name, func));
                    proof {
                        let now = init_module_view(module);
                        assert(now.imports =~= before.imports);
                        assert(now.variables =~= before.variables);
                        assert(now.functions =~= before.functions.push(fv));
                        assert(now.classes =~= before.classes);
                    }
                },
                Ok(DeclarationParseAction::Variable(name, var)) => {
                    let ghost vv = (name@, var.type_kind@, var.body.0 as nat);
                    module.variables.push((name, var));
                    proof {
                        let now = init_module_view(module);
                        assert(now.imports =~= before.imports);
                        assert(now.variables =~= before.variables.push(vv));
                        assert(now.functions =~= before.functions);
                        assert(now.classes =~= before.classes);
                    }
                },
                Ok(DeclarationParseAction::Class(name, class)) => {
                    let ghost cv = (name@, class.class_type.kind, fields_view(class.class_type.fields@), init_functions_view(class.functions@));
                    let ghost old_classes = module.classes@;
                    module.classes.push((name, class));
                    proof {
                        let now = init_module_view(module);
                        assert(now.imports =~= before.imports);
                        assert(now.variables =~= before.variables);
                        assert(now.functions =~= before.functions);
                        assert(now.classes =~= before.classes.push(cv));
                        assert(module.classes@.drop_last() == old_classes);
                    }
                },
                Ok(DeclarationParseAction::FunctionDeclaration(_, _)) => {
                    return Err(LangError::parser(
                        &token,
                        ParserErrorKind::Unsupported(String::from_str("Function declaration inside a definition module")),
                    ));
                },
                Ok(DeclarationParseAction::ClassDeclaration(_)) => {
                    return Err(LangError::parser(
                        &token,
                        ParserErrorKind::Unsupported(String::from_str("Class declaration inside a definition module")),
                    ));
                },
                Ok(DeclarationParseAction::Nothing) => (),
                Err(err) => return Err(err),
            }
        }

        Ok(module)
    }

    /// Reads every declaration of a declaration module. An import there is refused.
    #[verifier::loop_isolation(false)]
    pub fn parse_declaration_module(tokens: Tokens, id: ModuleIdentifier, uid: ModuleUID) -> (r: Result<DeclarationModule, LangError>)
        ensures
            r matches Ok(m) ==> decl_module_spec(tokens.tokens@, tokens.pos as nat, empty_decl_module()) == Ok::<DeclModuleV, InitError>(decl_module_view(m))
                && m.id == id && m.imports@.len() == 0
                && forall|i: int| 0 <= i < m.classes@.len() ==> (#[trigger] m.classes@[i]).1.module == uid,
            r matches Err(e) ==> decl_module_spec(tokens.tokens@, tokens.pos as nat, empty_decl_module()) matches Err(x)
                && init_error_is(e, x),
    {
        let ghost toks = tokens.tokens@;
        let ghost start = tokens.pos as nat;
        let mut stream = tokens;
        let imports: Vec<ModuleIdentifier> = Vec::new();
        let mut functions: Vec<(String, FunctionType)> = Vec::new();
        let mut classes: Vec<(String, ClassType)> = Vec::new();
        proof {
            let v = decl_module_view(DeclarationModule { id, imports, functions, classes });
            assert(v.functions =~= Seq::<(Seq<char>, FunctionTypeV)>::empty());
            assert(v.classes =~= Seq::<(Seq<char>, ClassKind, Seq<(Seq<char>, TypeV)>, Seq<(Seq<char>, FunctionTypeV)>)>::empty());
        }

        loop
            invariant
                imports@.len() == 0,
                stream.tokens@ == toks,
                toks.len() == stream.tokens.len(),
                decl_module_spec(toks, start, empty_decl_module())
                    == decl_module_spec(toks, stream.pos as nat, decl_module_view(DeclarationModule { id, imports, functions, classes })),
                forall|i: int| 0 <= i < classes@.len() ==> (#[trigger] classes@[i]).1.module == uid,
            decreases stream.remaining(),
        {
            let token = match stream.peek() {
                Some(token) => token,
                None => break,
            };

            let ghost p = stream.pos as nat;
            let ghost before = decl_module_view(DeclarationModule { id, imports, functions, classes });
            let result = Self::parse_declaration(&mut stream, uid, true);
            match result {
                Ok(DeclarationParseAction::Import(_)) => {
                    return Err(LangError::parser(
                        &token,
                        ParserErrorKind::Unsupported(String::from_str("Import inside of a declaration module")),
                    ));
                },
                Ok(DeclarationParseAction::FunctionDeclaration(name, func_type)) => {
                    let ghost fv = (name@, func_type@);
                    functions.push((name, func_type));
                    proof {
                        let now = decl_module_view(DeclarationModule { id, imports, functions, classes });
                        assert(now.functions =~= before.functions.push(fv));
                        assert(now.classes =~= before.classes);
                    }
                },
                Ok(DeclarationParseAction::ClassDeclaration(class_type)) => {
                    let ghost cv = (class_type.name@, class_type.kind, fields_view(class_type.fields@), methods_view(class_type.methods@));
                    let ghost old_classes = classes@;
                    classes.push((class_type.name.clone(), class_type));
                    proof {
                        let now = decl_module_view(DeclarationModule { id, imports, functions, classes });
                        assert(now.functions =~= before.functions);
                        assert(now.classes =~= before.classes.push(cv));
                        assert(classes@.drop_last() == old_classes);
                    }
                },
                Ok(DeclarationParseAction::Function(_, _))
                | Ok(DeclarationParseAction::Variable(_, _))
                | Ok(DeclarationParseAction::Class(_, _)) => {
                    return Err(LangError::parser(
                        &token,
                        ParserErrorKind::Unsupported(String::from_str("Definition inside of a declaration module")),
                    ));
                },
                Ok(DeclarationParseAction::Nothing) => (),
                Err(err) => return Err(err),
            }
        }

        Ok(DeclarationModule { id, imports, functions, classes })
    }
}

/// How many of the tokens at positions `a` up to `b` (excluded) are of kind `k`.
pub open spec fn count_kind(toks: Seq<Token>, a: nat, b: nat, k: TokenKind) -> nat
    decreases b,
{
    if b <= a {
        0
    } else {
        count_kind(toks, a, (b - 1) as nat, k) + if toks[b - 1].kind == k { 1nat } else { 0nat }
    }
}

/// Counting from `a` counts the token at `a`, then the rest.
pub(crate) proof fn lemma_count_front(toks: Seq<Token>, a: nat, b: nat, k: TokenKind)
    requires
        a < b,
    ensures
        count_kind(toks, a, b, k) == (if toks[a as int].kind == k { 1nat } else { 0nat }) + count_kind(toks, a + 1, b, k),
    decreases b,
{
    if b > a + 1 {
        lemma_count_front(toks, a, (b - 1) as nat, k);
        assert(count_kind(toks, a + 1, b, k) == count_kind(toks, a + 1, (b - 1) as nat, k)
            + if toks[b - 1].kind == k { 1nat } else { 0nat });
    } else {
        assert(count_kind(toks, a, a, k) == 0);
        assert(count_kind(toks, a + 1, b, k) == 0);
    }
}

/// Skipping from `pos` with `depth` blocks open: before the end no block closes beyond the
/// open ones, and the end is either the end of the tokens or just after the dedent that closes
/// one block more than were opened.
proof fn lemma_dedent_end_balance(toks: Seq<Token>, pos: nat, depth: nat)
    requires
        pos <= toks.len(),
    ensures
        ({
            let e = dedent_end(toks, pos, depth);
            &&& pos <= e <= toks.len()
            &&& forall|q: nat| pos <= q < e ==> #[trigger] count_kind(toks, pos, q, TokenKind::Dedent)
                    <= count_kind(toks, pos, q, TokenKind::Indent) + depth
            &&& (e == toks.len() && count_kind(toks, pos, e, TokenKind::Dedent) <= count_kind(toks, pos, e, TokenKind::Indent) + depth)
                || (pos < e && toks[e - 1].kind == TokenKind::Dedent
                    && count_kind(toks, pos, e, TokenKind::Dedent) == count_kind(toks, pos, e, TokenKind::Indent) + depth + 1)
        }),
    decreases toks.len() - pos,
{
    let e = dedent_end(toks, pos, depth);
    if pos < toks.len() {
        let kind = toks[pos as int].kind;
        let nd: nat = match kind {
            TokenKind::Indent => depth + 1,
            TokenKind::Dedent => if depth == 0 { 0 } else { (depth - 1) as nat },
            _ => depth,
        };
        if kind == TokenKind::Dedent && depth == 0 {
            assert(e == pos + 1);
            lemma_count_front(toks, pos, pos + 1, TokenKind::Dedent);
            lemma_count_front(toks, pos, pos + 1, TokenKind::Indent);
            assert forall|q: nat| pos <= q < e implies #[trigger] count_kind(toks, pos, q, TokenKind::Dedent)
                <= count_kind(toks, pos, q, TokenKind::Indent) + depth by {
                assert(q == pos);
            }
        } else {
            lemma_dedent_end_balance(toks, pos + 1, nd);
            assert(e == dedent_end(toks, pos + 1, nd));
            assert forall|q: nat| pos <= q < e implies #[trigger] count_kind(toks, pos, q, TokenKind::Dedent)
                <= count_kind(toks, pos, q, TokenKind::Indent) + depth by {
                if q > pos {
                    lemma_count_front(toks, pos, q, TokenKind::Dedent);
                    lemma_count_front(toks, pos, q, TokenKind::Indent);
                    assert(count_kind(toks, pos + 1, q, TokenKind::Dedent) <= count_kind(toks, pos + 1, q, TokenKind::Indent) + nd);
                }
            }
            if e > pos {
                lemma_count_front(toks, pos, e, TokenKind::Dedent);
                lemma_count_front(toks, pos, e, TokenKind::Indent);
            }
        }
    }
}

/// Skipping an indented body from `pos` stops just after the dedent that closes it: no dedent
/// before it closes more blocks than were opened after `pos`, and at it one more block closes
/// than was opened; or it stops at the end of the tokens with no such dedent.
pub proof fn law_body_skip_balanced(toks: Seq<Token>, pos: nat)
    requires
        pos <= toks.len(),
    ensures
        ({
            let e = dedent_end(toks, pos, 0);
            &&& pos <= e <= toks.len()
            &&& forall|q: nat| pos <= q < e ==> #[trigger] count_kind(toks, pos, q, TokenKind::Dedent)
                    <= count_kind(toks, pos, q, TokenKind::Indent)
            &&& (e == toks.len() && count_kind(toks, pos, e, TokenKind::Dedent) <= count_kind(toks, pos, e, TokenKind::Indent))
                || (pos < e && toks[e - 1].kind == TokenKind::Dedent
                    && count_kind(toks, pos, e, TokenKind::Dedent) == count_kind(toks, pos, e, TokenKind::Indent) + 1)
        }),
{
    lemma_dedent_end_balance(toks, pos, 0);
}

} // verus!
