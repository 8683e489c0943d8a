use vstd::prelude::*;
use crate::module::ModuleUID;
use crate::text::{decimal, decimal_string, push_decimal, position_of, row_col};
use crate::tokens::{Token, TokenKind};
use crate::types::{FunctionType, TypeKind, TypeV, types_view, lemma_types_view_len};

verus! {

#[derive(Debug, PartialEq, Eq)]
pub enum TokenizerErrorKind {
    FloatParse(String),
    IntParse(String),
    InvalidOperatorToken,
    InvalidStringLiteral,
    InvalidIndent,
}

#[derive(Debug, PartialEq, Eq)]
pub enum ParserErrorKind {
    UnexpectedError(String),
    Unsupported(String),
    UnexpectedToken,
    UnexpectedEndOfFile,
    WrontType(TypeKind, TypeKind),
    ParametersExpectedComma,
    ParametersExpectedParam,
    VarNotFound,
    InvalidFieldAccess,
    VarIsNotObject,
    FieldDoesntExist,
    NotCallable,
    NotIndexable,
    InvalidArgCount(usize),
}

#[derive(Debug, PartialEq, Eq)]
pub enum BuildErrorKind {
    UnexpectedError,
    Unsupported(String),
    FuncNotFound(String),
    ModuleNotFound(ModuleUID),
    InvalidStackType,
    InvalidStackSize(usize, usize),
}

#[derive(Debug, PartialEq, Eq)]
pub enum RuntimeErrorKind {
    UnexpectedError(String),
    CantConvertValue,
    FuncInvalidParamCount(usize, usize),
    ExtFuncParamCount(usize, usize),
    ExtFuncParamType,
    VarNotFound(String),
    ValueNotNumber,
    ValueNotFunc,
    ModuleNotFound(ModuleUID),
}

#[derive(Debug, PartialEq, Eq)]
pub enum LoadErrorKind {
    ModuleNotFound(String),
    LoadModuleError(String),
}

/// An error of any stage of the language: tokenizing, parsing, building, loading, running.
#[derive(Debug, PartialEq, Eq)]
pub enum LangError {
    Tokenizer { token: Token, kind: TokenizerErrorKind },
    Parser { token: Token, kind: ParserErrorKind },
    Build { kind: BuildErrorKind },
    Load { kind: LoadErrorKind },
    Runtime { kind: RuntimeErrorKind },
}

impl LangError {
    pub fn tokenizer(token: &Token, kind: TokenizerErrorKind) -> (r: LangError)
        ensures
            r == (LangError::Tokenizer { token: *token, kind }),
    {
        LangError::Tokenizer { token: token.clone_token(), kind }
    }

    pub fn parser(token: &Token, kind: ParserErrorKind) -> (r: LangError)
        ensures
            r == (LangError::Parser { token: *token, kind }),
    {
        LangError::Parser { token: token.clone_token(), kind }
    }

    pub fn load(kind: LoadErrorKind) -> (r: LangError)
        ensures
            r == (LangError::Load { kind }),
    {
        LangError::Load { kind }
    }

    pub fn build(kind: BuildErrorKind) -> (r: LangError)
        ensures
            r == (LangError::Build { kind }),
    {
        LangError::Build { kind }
    }

    pub fn runtime(kind: RuntimeErrorKind) -> (r: LangError)
        ensures
            r == (LangError::Runtime { kind }),
    {
        LangError::Runtime { kind }
    }

    /// An unexpected token was met.
    pub fn new_parser_unexpected_token(token: &Token) -> (r: LangError)
        ensures
            r == (LangError::Parser { token: *token, kind: ParserErrorKind::UnexpectedToken }),
    {
        LangError::parser(token, ParserErrorKind::UnexpectedToken)
    }

    /// The tokens ended where more were needed; the token stands past every position.
    pub fn new_parser_end_of_file() -> (r: LangError)
        ensures
            r == end_of_file_error(),
    {
        LangError::parser(&Token::new(TokenKind::NewLine, usize::MAX, usize::MAX), ParserErrorKind::UnexpectedEndOfFile)
    }

    /// A value of type `got` stands where one of type `expected` was needed.
    pub fn wrong_type(token: &Token, expected: &TypeKind, got: &TypeKind) -> (r: LangError)
        ensures
            r matches LangError::Parser { token: t, kind: ParserErrorKind::WrontType(e, g) }
                && t == *token && e@ == expected@ && g@ == got@,
    {
        LangError::parser(token, ParserErrorKind::WrontType(expected.clone_type(), got.clone_type()))
    }
}

/// The error that reports an unexpected end of the tokens.
pub open spec fn end_of_file_error() -> LangError {
    LangError::Parser {
        token: Token { kind: TokenKind::NewLine, start: usize::MAX as usize, end: usize::MAX as usize },
        kind: ParserErrorKind::UnexpectedEndOfFile,
    }
}

pub open spec fn paren(prefix: Seq<char>, inner: Seq<char>) -> Seq<char> {
    prefix + inner + ")"@
}

/// The message of a build error.
pub open spec fn build_message(kind: BuildErrorKind) -> Seq<char> {
    match kind {
        BuildErrorKind::UnexpectedError => "Unexpected error"@,
        BuildErrorKind::Unsupported(feature) => paren("Unsupported feature ("@, feature@),
        BuildErrorKind::FuncNotFound(name) => paren("Function not found ("@, name@),
        BuildErrorKind::ModuleNotFound(uid) => paren("Module not found ("@, uid_debug(uid)),
        BuildErrorKind::InvalidStackType => "Invalid stack type"@,
        BuildErrorKind::InvalidStackSize(expected, found) =>
            "Expected "@ + decimal(expected as nat) + " items on the stack found "@ + decimal(found as nat),
    }
}

/// The message of a load error.
pub open spec fn load_message(kind: LoadErrorKind) -> Seq<char> {
    match kind {
        LoadErrorKind::ModuleNotFound(name) => paren("Module not found ("@, name@),
        LoadErrorKind::LoadModuleError(err) => "Erro while loading module: "@ + err@,
    }
}

/// The message of a runtime error.
pub open spec fn runtime_message(kind: RuntimeErrorKind) -> Seq<char> {
    match kind {
        RuntimeErrorKind::UnexpectedError(s) => "Unexpected error: "@ + s@,
        RuntimeErrorKind::CantConvertValue => "Can't convert value"@,
        RuntimeErrorKind::FuncInvalidParamCount(expected, found) =>
            "Incorrect number of parameters, expected "@ + decimal(expected as nat) + " found "@ + decimal(found as nat),
        RuntimeErrorKind::ExtFuncParamCount(expected, found) =>
            "Incorrect number of parameters in external function, expected "@ + decimal(expected as nat) + " found "@ + decimal(found as nat),
        RuntimeErrorKind::ExtFuncParamType => "Wrong type in external function paramter"@,
        RuntimeErrorKind::VarNotFound(name) => paren("Variable not found ("@, name@),
        RuntimeErrorKind::ValueNotNumber => "Variable is not a number"@,
        RuntimeErrorKind::ValueNotFunc => "Variable is not a function"@,
        RuntimeErrorKind::ModuleNotFound(uid) => paren("Module not found ("@, uid_debug(uid)),
    }
}

/// How a module identifier is shown in messages.
pub open spec fn uid_debug(uid: ModuleUID) -> Seq<char> {
    "ModuleUID("@ + decimal(uid.0 as nat) + ")"@
}

fn uid_debug_string(uid: ModuleUID) -> (r: String)
    ensures
        r@ == uid_debug(uid),
{
    let mut s = String::from_str("ModuleUID(");
    push_decimal(&mut s, uid.0);
    s.append(")");
    s
}

fn enclose(prefix: &str, inner: &str) -> (r: String)
    ensures
        r@ == paren(prefix@, inner@),
{
    let mut s = String::from_str(prefix);
    s.append(inner);
    s.append(")");
    s
}

fn two_numbers(a: &str, x: usize, b: &str, y: usize) -> (r: String)
    ensures
        r@ == a@ + decimal(x as nat) + b@ + decimal(y as nat),
{
    let mut s = String::from_str(a);
    push_decimal(&mut s, x as u64);
    s.append(b);
    push_decimal(&mut s, y as u64);
    s
}

/// The message that describes a build error.
pub fn format_build(kind: BuildErrorKind) -> (r: String)
    ensures
        r@ == build_message(kind),
{
    match kind {
        BuildErrorKind::UnexpectedError => String::from_str("Unexpected error"),
        BuildErrorKind::Unsupported(feature) => enclose("Unsupported feature (", feature.as_str()),
        BuildErrorKind::FuncNotFound(name) => enclose("Function not found (", name.as_str()),
        BuildErrorKind::ModuleNotFound(uid) => {
            let u = uid_debug_string(uid);
            enclose("Module not found (", u.as_str())
        },
        BuildErrorKind::InvalidStackType => String::from_str("Invalid stack type"),
        BuildErrorKind::InvalidStackSize(expected, found) =>
            two_numbers("Expected ", expected, " items on the stack found ", found),
    }
}

/// The message that describes a load error.
pub fn format_load(kind: LoadErrorKind) -> (r: String)
    ensures
        r@ == load_message(kind),
{
    match kind {
        LoadErrorKind::ModuleNotFound(name) => enclose("Module not found (", name.as_str()),
        LoadErrorKind::LoadModuleError(err) => {
            let mut s = String::from_str("Erro while loading module: ");
            s.append(err.as_str());
            s
        },
    }
}

/// The message that describes a runtime error.
pub fn format_runtime(kind: RuntimeErrorKind) -> (r: String)
    ensures
        r@ == runtime_message(kind),
{
    match kind {
        RuntimeErrorKind::UnexpectedError(s) => {
            let mut m = String::from_str("Unexpected error: ");
            m.append(s.as_str());
            m
        },
        RuntimeErrorKind::CantConvertValue => String::from_str("Can't convert value"),
        RuntimeErrorKind::FuncInvalidParamCount(expected, found) =>
            two_numbers("Incorrect number of parameters, expected ", expected, " found ", found),
        RuntimeErrorKind::ExtFuncParamCount(expected, found) =>
            two_numbers("Incorrect number of parameters in external function, expected ", expected, " found ", found),
        RuntimeErrorKind::ExtFuncParamType => String::from_str("Wrong type in external function paramter"),
        RuntimeErrorKind::VarNotFound(name) => enclose("Variable not found (", name.as_str()),
        RuntimeErrorKind::ValueNotNumber => String::from_str("Variable is not a number"),
        RuntimeErrorKind::ValueNotFunc => String::from_str("Variable is not a function"),
        RuntimeErrorKind::ModuleNotFound(uid) => {
            let u = uid_debug_string(uid);
            enclose("Module not found (", u.as_str())
        },
    }
}

/// The text of a type, in the shape of its Rust `Debug` formatting.
pub open spec fn type_text(t: TypeV) -> Seq<char>
    decreases t,
{
    match t {
        TypeV::Unknown => "Unknown"@,
        TypeV::Int => "Int"@,
        TypeV::Float => "Float"@,
        TypeV::Str => "String"@,
        TypeV::Bool => "Bool"@,
        TypeV::Nothing => "Nothing"@,
        TypeV::Vector(inner) => "Vector("@ + type_text(*inner) + ")"@,
        TypeV::Function(ps, ret) => "Function("@ + ("FunctionType(["@ + types_text(ps) + "], "@ + type_text(*ret) + ")"@) + ")"@,
        TypeV::Class(name, module) => "Class(ClassRef { name: \""@ + name + "\", module: ModuleUID("@ + decimal(module as nat) + ") })"@,
    }
}

/// The texts of a list of types, separated by commas.
pub open spec fn types_text(s: Seq<TypeV>) -> Seq<char>
    decreases s,
{
    if s.len() == 0 {
        Seq::empty()
    } else if s.len() == 1 {
        type_text(s[0])
    } else {
        types_text(s.drop_last()) + ", "@ + type_text(s.last())
    }
}

/// Writes the text of a type.
pub fn type_debug(t: &TypeKind) -> (r: String)
    ensures
        r@ == type_text(t@),
    decreases *t,
{
    match t {
        TypeKind::Unknown => String::from_str("Unknown"),
        TypeKind::Int => String::from_str("Int"),
        TypeKind::Float => String::from_str("Float"),
        TypeKind::String => String::from_str("String"),
        TypeKind::Bool => String::from_str("Bool"),
        TypeKind::Nothing => String::from_str("Nothing"),
        TypeKind::Vector(inner) => {
            let mut s = String::from_str("Vector(");
            let i = type_debug(&**inner);
            s.append(i.as_str());
            s.append(")");
            s
        },
        TypeKind::Function(ft) => {
            let mut s = String::from_str("Function(");
            let f = fn_type_debug(ft);
            s.append(f.as_str());
            s.append(")");
            s
        },
        TypeKind::Class(c) => {
            let mut s = String::from_str("Class(ClassRef { name: \"");
            s.append(c.name.as_str());
            s.append("\", module: ModuleUID(");
            push_decimal(&mut s, c.module.0);
            s.append(") })");
            s
        },
    }
}

/// Writes the text of a function type.
fn fn_type_debug(ft: &FunctionType) -> (r: String)
    ensures
        r@ == "FunctionType(["@ + types_text(types_view(ft.0@)) + "], "@ + type_text((*ft.1)@) + ")"@,
    decreases *ft,
{
    let mut s = String::from_str("FunctionType([");
    let ghost start = s@;
    let ghost ps = types_view(ft.0@);
    proof {
        lemma_types_view_len(ft.0@);
        assert(ps.take(0) =~= Seq::<TypeV>::empty());
    }
    let mut k: usize = 0;
    while k < ft.0.len()
        invariant
            k <= ft.0@.len(),
            ps == types_view(ft.0@),
            ps.len() == ft.0@.len(),
            forall|j: int| 0 <= j < ft.0@.len() ==> #[trigger] ps[j] == ft.0@[j]@,
            s@ == start + types_text(ps.take(k as int)),
            start == "FunctionType(["@,
        decreases ft.0@.len() - k,
    {
        proof {
            assert(decreases_to!(ft.0@ => ft.0@[k as int]));
        }
        if k > 0 {
            s.append(", ");
        }
        let p = type_debug(&ft.0[k]);
        s.append(p.as_str());
        proof {
            let t = ps.take(k + 1);
            assert(t.drop_last() =~= ps.take(k as int));
            assert(t.last() == ps[k as int]);
            if k == 0 {
                assert(t.len() == 1);
                assert(t[0] == ps[0]);
            }
        }
        k = k + 1;
    }
    proof {
        assert(ps.take(ft.0@.len() as int) =~= ps);
    }
    s.append("], ");
    let r = type_debug(&*ft.1);
    s.append(r.as_str());
    s.append(")");
    s
}

/// The text that says where a token stands in `source`: its line and column, from its start to
/// its end.
pub open spec fn token_place(source: Seq<char>, token: Token) -> Seq<char> {
    let n = if token.start <= source.len() { token.start as int } else { source.len() as int };
    let (row, col) = row_col(source.take(n));
    "Error from "@ + decimal(row) + ":"@ + decimal(col) + " to "@ + decimal(row) + ":"@
        + decimal(col + (token.end - token.start) as nat)
}

/// A token whose place can be written: it ends no sooner than it starts, and its columns fit
/// a machine word.
pub open spec fn placeable(source: Seq<char>, token: Token) -> bool {
    &&& token.start <= token.end
    &&& source.len() + 1 + (token.end - token.start) < usize::MAX
}

/// Writes where a token stands in `source`.
fn format_token(source: &String, token: Token) -> (r: String)
    requires
        placeable(source@, token),
    ensures
        r@ == token_place(source@, token),
{
    let (row, col) = position_of(source.as_str(), token.start);
    proof {
        crate::text::lemma_row_col_bounds(source@.take(if token.start <= source@.len() { token.start as int } else { source@.len() as int }));
    }
    let end_col = col + (token.end - token.start);
    let mut s = String::from_str("Error from ");
    push_decimal(&mut s, row as u64);
    s.append(":");
    push_decimal(&mut s, col as u64);
    s.append(" to ");
    push_decimal(&mut s, row as u64);
    s.append(":");
    push_decimal(&mut s, end_col as u64);
    s
}

/// The message of a tokenizer error.
pub open spec fn tokenizer_message(kind: TokenizerErrorKind) -> Seq<char> {
    match kind {
        TokenizerErrorKind::FloatParse(s) => paren("Error while parsing float literal ("@, s@),
        TokenizerErrorKind::IntParse(s) => paren("Error while parsing int literal ("@, s@),
        TokenizerErrorKind::InvalidOperatorToken => "Invalid operator"@,
        TokenizerErrorKind::InvalidStringLiteral => "Invalid string literal"@,
        TokenizerErrorKind::InvalidIndent => "Invalid indentation"@,
    }
}

/// The message of a parser error.
pub open spec fn parser_message(kind: ParserErrorKind) -> Seq<char> {
    match kind {
        ParserErrorKind::UnexpectedError(err) => paren("Unexpected error ("@, err@),
        ParserErrorKind::Unsupported(feature) => paren("Unsupported feature ("@, feature@),
        ParserErrorKind::UnexpectedToken => "Unexpected"@,
        ParserErrorKind::UnexpectedEndOfFile => "Unexpected end of file"@,
        ParserErrorKind::WrontType(expected, found) =>
            "Expected type "@ + type_text(expected@) + ", instead found "@ + type_text(found@),
        ParserErrorKind::ParametersExpectedComma => "Expected comma"@,
        ParserErrorKind::ParametersExpectedParam => "Expected parameter"@,
        ParserErrorKind::VarNotFound => "Variable not found"@,
        ParserErrorKind::InvalidFieldAccess => "Variable is not indexable by field"@,
        ParserErrorKind::VarIsNotObject => "Variable is not an object"@,
        ParserErrorKind::FieldDoesntExist => "Field doesn't exist"@,
        ParserErrorKind::NotCallable => "Variable is not callable"@,
        ParserErrorKind::NotIndexable => "Variable is not indexable"@,
        ParserErrorKind::InvalidArgCount(expected) => "Expected "@ + decimal(expected as nat) + " parameters"@,
    }
}

/// Writes a tokenizer error: where it stands, then what it is.
fn format_tokenizer(source: &String, token: Token, kind: TokenizerErrorKind) -> (r: String)
    requires
        placeable(source@, token),
    ensures
        r@ == token_place(source@, token) + "\n"@ + tokenizer_message(kind),
{
    let mut res = format_token(source, token);
    let err = match kind {
        TokenizerErrorKind::FloatParse(s) => enclose("Error while parsing float literal (", s.as_str()),
        TokenizerErrorKind::IntParse(s) => enclose("Error while parsing int literal (", s.as_str()),
        TokenizerErrorKind::InvalidOperatorToken => String::from_str("Invalid operator"),
        TokenizerErrorKind::InvalidStringLiteral => String::from_str("Invalid string literal"),
        TokenizerErrorKind::InvalidIndent => String::from_str("Invalid indentation"),
    };
    res.append("\n");
    res.append(err.as_str());
    res
}

/// Writes a parser error: where it stands, then what it is.
fn format_parser(source: &String, token: Token, kind: ParserErrorKind) -> (r: String)
    requires
        placeable(source@, token),
    ensures
        r@ == token_place(source@, token) + "\n"@ + parser_message(kind),
{
    let mut res = format_token(source, token);
    let err = match kind {
        ParserErrorKind::UnexpectedError(err) => enclose("Unexpected error (", err.as_str()),
        ParserErrorKind::Unsupported(feature) => enclose("Unsupported feature (", feature.as_str()),
        ParserErrorKind::UnexpectedToken => String::from_str("Unexpected"),
        ParserErrorKind::UnexpectedEndOfFile => String::from_str("Unexpected end of file"),
        ParserErrorKind::WrontType(expected, found) => {
            let mut m = String::from_str("Expected type ");
            let e = type_debug(&expected);
            m.append(e.as_str());
            m.append(", instead found ");
            let f = type_debug(&found);
            m.append(f.as_str());
            m
        },
        ParserErrorKind::ParametersExpectedComma => String::from_str("Expected comma"),
        ParserErrorKind::ParametersExpectedParam => String::from_str("Expected parameter"),
        ParserErrorKind::VarNotFound => String::from_str("Variable not found"),
        ParserErrorKind::InvalidFieldAccess => String::from_str("Variable is not indexable by field"),
        ParserErrorKind::VarIsNotObject => String::from_str("Variable is not an object"),
        ParserErrorKind::FieldDoesntExist => String::from_str("Field doesn't exist"),
        ParserErrorKind::NotCallable => String::from_str("Variable is not callable"),
        ParserErrorKind::NotIndexable => String::from_str("Variable is not indexable"),
        ParserErrorKind::InvalidArgCount(expected) => {
            let mut m = String::from_str("Expected ");
            push_decimal(&mut m, expected as u64);
            m.append(" parameters");
            m
        },
    };
    res.append("\n");
    res.append(err.as_str());
    res
}

/// Writes an error for a user: a tokenizer or parser error with the place of its token in
/// `source`, any other with its message.
pub fn format_error(source: &String, err: LangError) -> (r: String)
    requires
        err matches LangError::Tokenizer { token, .. } ==> placeable(source@, token),
        err matches LangError::Parser { token, .. } ==> placeable(source@, token),
    ensures
        r@ == match err {
            LangError::Tokenizer { token, kind } => token_place(source@, token) + "\n"@ + tokenizer_message(kind),
            LangError::Parser { token, kind } => token_place(source@, token) + "\n"@ + parser_message(kind),
            LangError::Build { kind } => build_message(kind),
            LangError::Load { kind } => load_message(kind),
            LangError::Runtime { kind } => runtime_message(kind),
        },
{
    match err {
        LangError::Tokenizer { token, kind } => format_tokenizer(source, token, kind),
        LangError::Parser { token, kind } => format_parser(source, token, kind),
        LangError::Build { kind } => format_build(kind),
        LangError::Load { kind } => format_load(kind),
        LangError::Runtime { kind } => format_runtime(kind),
    }
}

} // verus!
