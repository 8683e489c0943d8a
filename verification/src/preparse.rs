use vstd::prelude::*;
use crate::errors::{LangError, ParserErrorKind, end_of_file_error};
use crate::parsing_types::{ParsableFunctionType, ParsableType, ParsableTypeV, primitive_ptype, ptypes_view, lemma_ptypes_view_len};
use crate::tokens::{Token, TokenKind, Tokens};
use crate::types::{OperatorKind, ParenthesisKind, ParenthesisState};
use crate::utils::{TokensExtensions, names_view, step, token_at, unexpected};

verus! {

broadcast use vstd::std_specs::vec::axiom_spec_len;

/// Reading a declared type at `pos`: a primitive type or the name of a class.
pub open spec fn ptype_error_spec(toks: Seq<Token>, pos: nat) -> Result<ParsableTypeV, LangError> {
    match token_at(toks, pos) {
        Some(t) => match t.kind {
            TokenKind::Type(p) => Ok(primitive_ptype(p)),
            TokenKind::Symbol(name) => Ok(ParsableTypeV::Custom(name@)),
            _ => Err(unexpected(t)),
        },
        None => Err(end_of_file_error()),
    }
}

/// Reads a declared type (one token).
pub fn preparse_type_error(tokens: &mut Tokens) -> (r: Result<ParsableType, LangError>)
    ensures
        match r {
            Ok(t) => ptype_error_spec(old(tokens).tokens@, old(tokens).pos as nat) == Ok::<ParsableTypeV, LangError>(t@),
            Err(e) => ptype_error_spec(old(tokens).tokens@, old(tokens).pos as nat) == Err::<ParsableTypeV, LangError>(e),
        },
        *final(tokens) == old(tokens).advanced(),
        final(tokens).tokens == old(tokens).tokens,
        final(tokens).remaining() <= old(tokens).remaining(),
{
    let token = tokens.pop_err()?;

    // type
    match token.kind {
        TokenKind::Type(tk) => Ok(ParsableType::from_primitive(&tk)),
        TokenKind::Symbol(name) => Ok(ParsableType::Custom(name)),
        _ => Err(LangError::new_parser_unexpected_token(&token)),
    }
}

/// The declared type at `pos`, if one stands there.
pub open spec fn ptype_option_spec(toks: Seq<Token>, pos: nat) -> Option<ParsableTypeV> {
    match token_at(toks, pos) {
        Some(t) => match t.kind {
            TokenKind::Type(p) => Some(primitive_ptype(p)),
            TokenKind::Symbol(name) => Some(ParsableTypeV::Custom(name@)),
            _ => None,
        },
        None => None,
    }
}

/// Reads a declared type if the next token is one; otherwise reads nothing.
pub fn preparse_type_option(tokens: &mut Tokens) -> (r: Option<ParsableType>)
    ensures
        match r {
            Some(t) => ptype_option_spec(old(tokens).tokens@, old(tokens).pos as nat) == Some(t@)
                && *final(tokens) == old(tokens).advanced(),
            None => ptype_option_spec(old(tokens).tokens@, old(tokens).pos as nat) is None
                && *final(tokens) == *old(tokens),
        },
        final(tokens).tokens == old(tokens).tokens,
        final(tokens).remaining() <= old(tokens).remaining(),
{
    let token = match tokens.peek() {
        Some(token) => token,
        None => return None,
    };

    // type
    match token.kind {
        TokenKind::Type(tk) => {
            tokens.pop();
            Some(ParsableType::from_primitive(&tk))
        },
        TokenKind::Symbol(name) => {
            tokens.pop();
            Some(ParsableType::Custom(name))
        },
        _ => None,
    }
}

/// The result of reading a declared parameter list from `pos` on, having read `names` and
/// `types`: the full lists or the error, and the position after.
pub open spec fn pparam_names_spec(
    toks: Seq<Token>,
    pos: nat,
    next_is_argument: bool,
    names: Seq<Seq<char>>,
    types: Seq<ParsableTypeV>,
) -> (Result<(Seq<Seq<char>>, Seq<ParsableTypeV>), LangError>, nat)
    decreases toks.len() - pos,
{
    if pos >= toks.len() {
        (Err(end_of_file_error()), pos)
    } else {
        let t = toks[pos as int];
        match t.kind {
            TokenKind::Parenthesis(ParenthesisKind::Round, ParenthesisState::Close) => (Ok((names, types)), pos + 1),
            TokenKind::Symbol(name) => {
                if next_is_argument {
                    match ptype_error_spec(toks, pos + 1) {
                        Ok(ty) => pparam_names_spec(toks, step(toks, pos + 1), false, names.push(name@), types.push(ty)),
                        Err(e) => (Err(e), step(toks, pos + 1)),
                    }
                } else {
                    (Err(LangError::Parser { token: t, kind: ParserErrorKind::ParametersExpectedComma }), pos + 1)
                }
            },
            TokenKind::Operator(OperatorKind::Comma) => {
                if next_is_argument {
                    (Err(LangError::Parser { token: t, kind: ParserErrorKind::ParametersExpectedParam }), pos + 1)
                } else {
                    pparam_names_spec(toks, pos + 1, true, names, types)
                }
            },
            _ => (Err(unexpected(t)), pos + 1),
        }
    }
}

/// Reads a list of declared parameters `name type, name type)`, with the closing parenthesis.
pub fn preparse_parameter_names(tokens: &mut Tokens) -> (r: Result<(Vec<String>, Vec<ParsableType>), LangError>)
    ensures
        final(tokens).tokens == old(tokens).tokens,
        final(tokens).remaining() <= old(tokens).remaining(),
        final(tokens).pos == pparam_names_spec(old(tokens).tokens@, old(tokens).pos as nat, true, Seq::empty(), Seq::empty()).1,
        pparam_names_spec(old(tokens).tokens@, old(tokens).pos as nat, true, Seq::empty(), Seq::empty()).0 == match r {
            Ok((n, t)) => Ok::<(Seq<Seq<char>>, Seq<ParsableTypeV>), LangError>((names_view(n@), ptypes_view(t@))),
            Err(e) => Err::<(Seq<Seq<char>>, Seq<ParsableTypeV>), LangError>(e),
        },
{
    let mut names: Vec<String> = Vec::new();
    let mut types: Vec<ParsableType> = Vec::new();
    let mut next_is_argument = true;
    let ghost toks = tokens.tokens@;
    let ghost start = tokens.pos as nat;
    proof {
        assert(names_view(names@) =~= Seq::<Seq<char>>::empty());
        assert(ptypes_view(types@) =~= Seq::<ParsableTypeV>::empty());
    }
    loop
        invariant
            tokens.tokens@ == toks,
            tokens.tokens == old(tokens).tokens,
            toks == old(tokens).tokens@,
            tokens.tokens.len() == toks.len(),
            start == old(tokens).pos as nat,
            tokens.remaining() <= old(tokens).remaining(),
            pparam_names_spec(toks, start, true, Seq::empty(), Seq::empty())
                == pparam_names_spec(toks, tokens.pos as nat, next_is_argument, names_view(names@), ptypes_view(types@)),
        decreases toks.len() - tokens.pos,
    {
        let token = match tokens.pop() {
            Some(token) => token,
            None => return Err(LangError::new_parser_end_of_file()),
        };

        match &token.kind {
            TokenKind::Parenthesis(ParenthesisKind::Round, ParenthesisState::Close) => {
                return Ok((names, types));
            },
            TokenKind::Symbol(name) => {
                if next_is_argument {
                    next_is_argument = false;

                    let t = preparse_type_error(tokens)?;

                    proof {
                        lemma_ptypes_view_len(types@);
                        lemma_ptypes_view_len(types@.push(t));
                        assert(ptypes_view(types@.push(t)) =~= ptypes_view(types@).push(t@));
                        assert(names_view(names@.push(*name)) =~= names_view(names@).push(name@));
                    }
                    names.push(name.clone());
                    types.push(t);
                } else {
                    return Err(LangError::parser(&token, ParserErrorKind::ParametersExpectedComma));
                }
            },
            TokenKind::Operator(OperatorKind::Comma) => {
                if next_is_argument {
                    return Err(LangError::parser(&token, ParserErrorKind::ParametersExpectedParam));
                } else {
                    next_is_argument = true;
                }
            },
            _ => return Err(LangError::new_parser_unexpected_token(&token)),
        }
    }
}

} // verus!
