use vstd::prelude::*;
use crate::types::{Attribute, BoolOperatorKind, MathOperatorKind, OperatorKind, ParenthesisKind, ParenthesisState, PrimitiveType};

verus! {

broadcast use vstd::std_specs::vec::axiom_spec_len;

/// A literal value written in source code.
/// A float literal is held as the bit pattern of its `f32` value.
#[derive(Debug, PartialEq, Eq)]
pub enum LiteralKind {
    Nothing,
    Int(i32),
    Float(u32),
    Bool(bool),
    String(String),
}

impl LiteralKind {
    pub fn clone_literal(&self) -> (r: LiteralKind)
        ensures
            r == *self,
    {
        match self {
            LiteralKind::Nothing => LiteralKind::Nothing,
            LiteralKind::Int(i) => LiteralKind::Int(*i),
            LiteralKind::Float(f) => LiteralKind::Float(*f),
            LiteralKind::Bool(b) => LiteralKind::Bool(*b),
            LiteralKind::String(s) => LiteralKind::String(s.clone()),
        }
    }
}

/// A position in a token stream, to come back to later.
#[derive(Clone, Copy, Debug, PartialEq, Eq, Structural)]
pub struct TokenSnapshot(pub usize);

#[derive(Debug, PartialEq, Eq)]
pub enum TokenKind {
    NewLine,
    Indent,
    Dedent,
    Function,
    Variable,
    Class,
    Data,
    Attribute(Attribute),
    Return,
    Break,
    If,
    Else,
    For,
    While,
    Import,
    Operator(OperatorKind),
    BoolOperator(BoolOperatorKind),
    MathOperator(MathOperatorKind),
    Type(PrimitiveType),
    Symbol(String),
    Literal(LiteralKind),
    Parenthesis(ParenthesisKind, ParenthesisState),
}

impl TokenKind {
    pub fn clone_kind(&self) -> (r: TokenKind)
        ensures
            r == *self,
    {
        match self {
            TokenKind::NewLine => TokenKind::NewLine,
            TokenKind::Indent => TokenKind::Indent,
            TokenKind::Dedent => TokenKind::Dedent,
            TokenKind::Function => TokenKind::Function,
            TokenKind::Variable => TokenKind::Variable,
            TokenKind::Class => TokenKind::Class,
            TokenKind::Data => TokenKind::Data,
            TokenKind::Attribute(a) => TokenKind::Attribute(*a),
            TokenKind::Return => TokenKind::Return,
            TokenKind::Break => TokenKind::Break,
            TokenKind::If => TokenKind::If,
            TokenKind::Else => TokenKind::Else,
            TokenKind::For => TokenKind::For,
            TokenKind::While => TokenKind::While,
            TokenKind::Import => TokenKind::Import,
            TokenKind::Operator(o) => TokenKind::Operator(*o),
            TokenKind::BoolOperator(o) => TokenKind::BoolOperator(*o),
            TokenKind::MathOperator(o) => TokenKind::MathOperator(*o),
            TokenKind::Type(t) => TokenKind::Type(*t),
            TokenKind::Symbol(s) => TokenKind::Symbol(s.clone()),
            TokenKind::Literal(l) => TokenKind::Literal(l.clone_literal()),
            TokenKind::Parenthesis(k, st) => TokenKind::Parenthesis(*k, *st),
        }
    }
}

/// A token with the range of characters of the source that it was read from.
#[derive(Debug, PartialEq, Eq)]
pub struct Token {
    pub kind: TokenKind,
    pub start: usize,
    pub end: usize,
}

impl Token {
    pub fn new(kind: TokenKind, start: usize, end: usize) -> (r: Token)
        ensures
            r.kind == kind,
            r.start == start,
            r.end == end,
    {
        Token { kind, start, end }
    }

    pub fn clone_token(&self) -> (r: Token)
        ensures
            r == *self,
    {
        Token { kind: self.kind.clone_kind(), start: self.start, end: self.end }
    }
}

/// A stream of tokens read front to back, with a cursor that can be saved and restored.
pub struct Tokens {
    pub tokens: Vec<Token>,
    pub pos: usize,
}

impl Tokens {
    /// The tokens that are still to be read.
    pub open spec fn remaining(&self) -> nat {
        if self.pos < self.tokens@.len() {
            (self.tokens@.len() - self.pos) as nat
        } else {
            0
        }
    }

    /// The next token, if there is one.
    pub open spec fn next_token(&self) -> Option<Token> {
        if self.pos < self.tokens@.len() {
            Some(self.tokens@[self.pos as int])
        } else {
            None
        }
    }

    /// The stream after one token was read (unchanged at the end).
    pub open spec fn advanced(&self) -> Tokens {
        if self.pos < self.tokens@.len() {
            Tokens { tokens: self.tokens, pos: (self.pos + 1) as usize }
        } else {
            *self
        }
    }

    pub fn new(tokens: Vec<Token>) -> (r: Tokens)
        ensures
            r.tokens == tokens,
            r.pos == 0,
    {
        Tokens { tokens, pos: 0 }
    }

    pub fn has_next(&self) -> (r: bool)
        ensures
            r == (self.pos < self.tokens@.len()),
    {
        self.pos < self.tokens.len()
    }

    /// Reads the next token.
    pub fn pop(&mut self) -> (r: Option<Token>)
        ensures
            r == old(self).next_token(),
            *final(self) == old(self).advanced(),
            final(self).tokens == old(self).tokens,
            final(self).pos >= old(self).pos,
            r is Some ==> final(self).remaining() == old(self).remaining() - 1,
            r is None ==> final(self).remaining() == old(self).remaining() && *final(self) == *old(self),
            final(self).pos as int == if old(self).pos < old(self).tokens@.len() { old(self).pos + 1 } else { old(self).pos as int },
    {
        if self.pos < self.tokens.len() {
            let t = self.tokens[self.pos].clone_token();
            self.pos = self.pos + 1;
            Some(t)
        } else {
            None
        }
    }

    /// The next token, left in the stream.
    pub fn peek(&self) -> (r: Option<Token>)
        ensures
            r == self.next_token(),
            r is Some ==> self.remaining() > 0,
            r is None ==> self.remaining() == 0,
    {
        if self.pos < self.tokens.len() {
            Some(self.tokens[self.pos].clone_token())
        } else {
            None
        }
    }

    /// The current position.
    pub fn snapshot(&self) -> (r: TokenSnapshot)
        ensures
            r.0 == self.pos,
    {
        TokenSnapshot(self.pos)
    }

    /// Goes back (or forward) to a saved position.
    pub fn rollback(&mut self, snapshot: TokenSnapshot)
        ensures
            final(self).tokens == old(self).tokens,
            final(self).pos == snapshot.0,
    {
        self.pos = snapshot.0;
    }

    /// A new stream over the same tokens, at a saved position.
    pub fn new_clone(&self, snapshot: TokenSnapshot) -> (r: Tokens)
        ensures
            r.tokens@ == self.tokens@,
            r.pos == snapshot.0,
    {
        let mut v: Vec<Token> = Vec::new();
        let mut i: usize = 0;
        while i < self.tokens.len()
            invariant
                i <= self.tokens@.len(),
                v@ == self.tokens@.take(i as int),
            decreases self.tokens@.len() - i,
        {
            v.push(self.tokens[i].clone_token());
            proof {
                assert(self.tokens@.take(i + 1) == self.tokens@.take(i as int).push(self.tokens@[i as int]));
            }
            i = i + 1;
        }
        proof {
            assert(self.tokens@.take(self.tokens@.len() as int) == self.tokens@);
        }
        Tokens { tokens: v, pos: snapshot.0 }
    }
}

/// Going back to a saved position makes the stream read again what it read after the save.
pub proof fn law_rollback_restores(before: Tokens, after: Tokens, snap: TokenSnapshot)
    requires
        snap.0 == before.pos,
        after.tokens == before.tokens,
    ensures
        (Tokens { tokens: after.tokens, pos: snap.0 }).next_token() == before.next_token(),
        (Tokens { tokens: after.tokens, pos: snap.0 }).remaining() == before.remaining(),
{
}

/// Reading a token shortens what remains by one, unless the stream is at its end.
pub proof fn law_pop_consumes_one(t: Tokens)
    ensures
        t.next_token() is Some ==> t.advanced().remaining() == t.remaining() - 1,
        t.next_token() is None ==> t.advanced() == t && t.remaining() == 0,
{
    broadcast use vstd::std_specs::vec::axiom_spec_len;
    assert(t.tokens@.len() == t.tokens.len());
}

} // verus!
