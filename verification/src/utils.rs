use vstd::prelude::*;
use crate::errors::{LangError, ParserErrorKind, end_of_file_error};
use crate::tokens::{Token, TokenKind, Tokens};
use crate::types::{OperatorKind, ParenthesisKind, ParenthesisState, PrimitiveType, TypeKind, TypeV, lemma_types_view_push, primitive_type, types_view};

verus! {

broadcast use vstd::std_specs::vec::axiom_spec_len;

/// Reading a token that must be there.
pub trait TokensExtensions: Sized {
    fn pop_err(&mut self) -> Result<Token, LangError>;
    fn peek_err(&mut self) -> Result<Token, LangError>;
}

impl TokensExtensions for Tokens {
    /// The next token, read; the end-of-file error at the end.
    fn pop_err(&mut self) -> (r: Result<Token, LangError>)
        ensures
            r == match old(self).next_token() {
                Some(t) => Ok(t),
                None => Err(end_of_file_error()),
            },
            *final(self) == old(self).advanced(),
            final(self).tokens == old(self).tokens,
            final(self).pos as nat == step(old(self).tokens@, old(self).pos as nat),
            r is Ok ==> final(self).remaining() == old(self).remaining() - 1,
            r is Err ==> final(self).remaining() == old(self).remaining(),
    {
        match self.pop() {
            Some(token) => Ok(token),
            None => Err(LangError::new_parser_end_of_file()),
        }
    }

    /// The next token, left in the stream; the end-of-file error at the end.
    fn peek_err(&mut self) -> (r: Result<Token, LangError>)
        ensures
            r == match old(self).next_token() {
                Some(t) => Ok(t),
                None => Err(end_of_file_error()),
            },
            *final(self) == *old(self),
    {
        match self.peek() {
            Some(token) => Ok(token),
            None => Err(LangError::new_parser_end_of_file()),
        }
    }
}

/// The error for an unexpected token.
pub open spec fn unexpected(t: Token) -> LangError {
    LangError::Parser { token: t, kind: ParserErrorKind::UnexpectedToken }
}

/// The token at `pos`, if there is one.
pub open spec fn token_at(toks: Seq<Token>, pos: nat) -> Option<Token> {
    if pos < toks.len() { Some(toks[pos as int]) } else { None }
}

/// The position after reading one token at `pos`.
pub open spec fn step(toks: Seq<Token>, pos: nat) -> nat {
    if pos < toks.len() { pos + 1 } else { pos }
}

/// Reads a token of kind `expected`: the error names the token read instead, or the end of file.
pub open spec fn expect_spec(toks: Seq<Token>, pos: nat, expected: TokenKind) -> Result<(), LangError> {
    match token_at(toks, pos) {
        Some(t) => if t.kind == expected { Ok(()) } else { Err(unexpected(t)) },
        None => Err(end_of_file_error()),
    }
}

/// Reads one token and checks that it is of kind `expected` (a kind without data).
pub fn expect_token(tokens: &mut Tokens, expected: TokenKind) -> (r: Result<(), LangError>)
    requires
        expected matches TokenKind::Parenthesis(_, _) || expected matches TokenKind::Operator(_)
            || expected == TokenKind::NewLine || expected == TokenKind::Indent,
    ensures
        r == expect_spec(old(tokens).tokens@, old(tokens).pos as nat, expected),
        *final(tokens) == old(tokens).advanced(),
        final(tokens).pos as nat == step(old(tokens).tokens@, old(tokens).pos as nat),
        final(tokens).tokens == old(tokens).tokens,
        final(tokens).remaining() <= old(tokens).remaining(),
        r is Ok ==> final(tokens).remaining() < old(tokens).remaining(),
{
    match tokens.pop() {
        Some(token) => {
            let same = match (&token.kind, &expected) {
                (TokenKind::Parenthesis(a, b), TokenKind::Parenthesis(c, d)) => *a == *c && *b == *d,
                (TokenKind::Operator(a), TokenKind::Operator(b)) => *a == *b,
                (TokenKind::NewLine, TokenKind::NewLine) => true,
                (TokenKind::Indent, TokenKind::Indent) => true,
                _ => false,
            };
            if same {
                Ok(())
            } else {
                Err(LangError::new_parser_unexpected_token(&token))
            }
        },
        None => Err(LangError::new_parser_end_of_file()),
    }
}

/// Reading a type name at `pos`: the type, or the error for what stands there instead.
pub open spec fn type_error_spec(toks: Seq<Token>, pos: nat) -> Result<TypeV, LangError> {
    match token_at(toks, pos) {
        Some(t) => match t.kind {
            TokenKind::Type(p) => Ok(primitive_type(p)),
            _ => Err(unexpected(t)),
        },
        None => Err(end_of_file_error()),
    }
}

/// Reads a type name (one token).
pub fn parse_type_error(tokens: &mut Tokens) -> (r: Result<TypeKind, LangError>)
    ensures
        match r {
            Ok(t) => type_error_spec(old(tokens).tokens@, old(tokens).pos as nat) == Ok::<TypeV, LangError>(t@),
            Err(e) => type_error_spec(old(tokens).tokens@, old(tokens).pos as nat) == Err::<TypeV, LangError>(e),
        },
        *final(tokens) == old(tokens).advanced(),
        final(tokens).tokens == old(tokens).tokens,
        final(tokens).remaining() <= old(tokens).remaining(),
{
    match tokens.pop() {
        Some(token) => match &token.kind {
            TokenKind::Type(tk) => Ok(TypeKind::from_primitive(tk)),
            _ => Err(LangError::new_parser_unexpected_token(&token)),
        },
        None => Err(LangError::new_parser_end_of_file()),
    }
}

/// The type name at `pos`, if one stands there.
pub open spec fn type_option_spec(toks: Seq<Token>, pos: nat) -> Option<TypeV> {
    match token_at(toks, pos) {
        Some(t) => match t.kind {
            TokenKind::Type(p) => Some(primitive_type(p)),
            _ => None,
        },
        None => None,
    }
}

/// Reads a type name if the next token is one; otherwise reads nothing.
pub fn parse_type_option(tokens: &mut Tokens) -> (r: Option<TypeKind>)
    ensures
        match r {
            Some(t) => type_option_spec(old(tokens).tokens@, old(tokens).pos as nat) == Some(t@)
                && *final(tokens) == old(tokens).advanced(),
            None => type_option_spec(old(tokens).tokens@, old(tokens).pos as nat) is None
                && *final(tokens) == *old(tokens),
        },
        final(tokens).tokens == old(tokens).tokens,
        final(tokens).remaining() <= old(tokens).remaining(),
        final(tokens).pos as int == if type_option_spec(old(tokens).tokens@, old(tokens).pos as nat) is Some {
            old(tokens).pos + 1
        } else {
            old(tokens).pos as int
        },
{
    match tokens.peek() {
        Some(token) => match &token.kind {
            TokenKind::Type(tk) => {
                tokens.pop();
                Some(TypeKind::from_primitive(tk))
            },
            _ => None,
        },
        None => None,
    }
}

/// The result of reading a parameter list from `pos` on, having read `names` and `types`:
/// the full lists or the error, and the position after.
pub open spec fn param_names_spec(
    toks: Seq<Token>,
    pos: nat,
    next_is_argument: bool,
    names: Seq<Seq<char>>,
    types: Seq<TypeV>,
) -> (Result<(Seq<Seq<char>>, Seq<TypeV>), LangError>, nat)
    decreases toks.len() - pos,
{
    if pos >= toks.len() {
        (Err(end_of_file_error()), pos)
    } else {
        let t = toks[pos as int];
        match t.kind {
            TokenKind::Parenthesis(ParenthesisKind::Round, ParenthesisState::Close) => (Ok((names, types)), pos + 1),
            TokenKind::Symbol(name) => {
                if next_is_argument {
                    match type_error_spec(toks, pos + 1) {
                        Ok(ty) => param_names_spec(toks, step(toks, pos + 1), false, names.push(name@), types.push(ty)),
                        Err(e) => (Err(e), step(toks, pos + 1)),
                    }
                } else {
                    (Err(LangError::Parser { token: t, kind: ParserErrorKind::ParametersExpectedComma }), pos + 1)
                }
            },
            TokenKind::Operator(OperatorKind::Comma) => {
                if next_is_argument {
                    (Err(LangError::Parser { token: t, kind: ParserErrorKind::ParametersExpectedParam }), pos + 1)
                } else {
                    param_names_spec(toks, pos + 1, true, names, types)
                }
            },
            _ => (Err(unexpected(t)), pos + 1),
        }
    }
}

pub open spec fn names_view(s: Seq<String>) -> Seq<Seq<char>> {
    s.map_values(|x: String| x@)
}

/// Reads a list of parameters `name type, name type)`, up to and with the closing parenthesis.
pub fn parse_parameter_names(tokens: &mut Tokens) -> (r: Result<(Vec<String>, Vec<TypeKind>), LangError>)
    ensures
        final(tokens).tokens == old(tokens).tokens,
        final(tokens).pos == param_names_spec(old(tokens).tokens@, old(tokens).pos as nat, true, Seq::empty(), Seq::empty()).1,
        final(tokens).remaining() <= old(tokens).remaining(),
        r matches Ok((n, t)) ==> n@.len() == t@.len() && n@.len() + final(tokens).remaining() <= old(tokens).remaining(),
        param_names_spec(old(tokens).tokens@, old(tokens).pos as nat, true, Seq::empty(), Seq::empty()).0 == match r {
            Ok((n, t)) => Ok::<(Seq<Seq<char>>, Seq<TypeV>), LangError>((names_view(n@), types_view(t@))),
            Err(e) => Err::<(Seq<Seq<char>>, Seq<TypeV>), LangError>(e),
        },
{
    let mut names: Vec<String> = Vec::new();
    let mut types: Vec<TypeKind> = Vec::new();
    let mut next_is_argument = true;
    let ghost toks = tokens.tokens@;
    let ghost start = tokens.pos as nat;
    proof {
        assert(names_view(names@) =~= Seq::<Seq<char>>::empty());
        assert(types_view(types@) =~= Seq::<TypeV>::empty());
    }
    loop
        invariant
            tokens.tokens@ == toks,
            tokens.tokens == old(tokens).tokens,
            toks == old(tokens).tokens@,
            tokens.tokens.len() == toks.len(),
            start == old(tokens).pos as nat,
            names@.len() == types@.len(),
            tokens.remaining() <= old(tokens).remaining(),
            names@.len() + tokens.remaining() <= old(tokens).remaining(),
            param_names_spec(toks, start, true, Seq::empty(), Seq::empty())
                == param_names_spec(toks, tokens.pos as nat, next_is_argument, names_view(names@), types_view(types@)),
        decreases toks.len() - tokens.pos,
    {
        let ghost pos = tokens.pos as nat;
        let token = match tokens.pop() {
            Some(token) => token,
            None => return Err(LangError::new_parser_end_of_file()),
        };
        match &token.kind {
            TokenKind::Parenthesis(ParenthesisKind::Round, ParenthesisState::Close) => {
                return Ok((names, types));
            },
            TokenKind::Symbol(name) => {
                if next_is_argument {
                    next_is_argument = false;
                    let t = parse_type_error(tokens)?;
                    proof {
                        lemma_types_view_push(types@, t);
                        assert(names_view(names@.push(*name)) =~= names_view(names@).push(name@));
                    }
                    names.push(name.clone());
                    types.push(t);
                } else {
                    return Err(LangError::parser(&token, ParserErrorKind::ParametersExpectedComma));
                }
            },
            TokenKind::Operator(OperatorKind::Comma) => {
                if next_is_argument {
                    return Err(LangError::parser(&token, ParserErrorKind::ParametersExpectedParam));
                } else {
                    next_is_argument = true;
                }
            },
            _ => {
                return Err(LangError::new_parser_unexpected_token(&token));
            },
        }
    }
}

} // verus!
