use crate::ast::Ident;
use crate::source::{copy_bytes, diags_view, Diagnostic, SrcPos, WithPos};
use crate::tokenizer::{lex, tokenize, tokens_view, Kind, Token, TokenV};
use vstd::prelude::*;

verus! {

/// A hard syntax failure: it aborts the rule being parsed.
#[derive(Clone, Copy, PartialEq, Eq, Debug, Structural)]
pub enum ParseError {
    UnexpectedEof,
    UnexpectedToken(SrcPos),
    ExpectedSimpleName(SrcPos),
}

/// What a rule parser owes: `Ok` with the value that `s` gives, the cursor
/// moved to where `s` ends, exactly when `s` succeeds.
pub open spec fn parsed<T: View>(r: Result<T, ParseError>, s: Option<(T::V, int)>, end: int) -> bool {
    match s {
        Some((v, e)) => r is Ok && r->Ok_0@ == v && end == e,
        None => r is Err,
    }
}

pub open spec fn kind_at(toks: Seq<TokenV>, i: int) -> Option<Kind> {
    if 0 <= i < toks.len() {
        Some(toks[i].kind)
    } else {
        None
    }
}

pub open spec fn is_kind(toks: Seq<TokenV>, i: int, k: Kind) -> bool {
    kind_at(toks, i) == Some(k)
}

/// An identifier read from a token.
pub open spec fn ident_of(t: TokenV) -> WithPos<Seq<u8>> {
    WithPos { item: t.value, pos: t.pos }
}

/// A forward-only cursor over a token sequence.
pub struct TokenStream {
    pub tokens: Vec<Token>,
    pub idx: usize,
}

impl TokenStream {
    pub open spec fn toks(&self) -> Seq<TokenV> {
        tokens_view(self.tokens@)
    }

    pub open spec fn wf(&self) -> bool {
        self.idx <= self.tokens@.len()
    }

    /// The cursor stayed or moved forward over the same tokens.
    pub open spec fn same_tokens(&self, other: &TokenStream) -> bool {
        other.tokens@ == self.tokens@ && other.wf() && other.idx >= self.idx
    }

    /// A cursor at the first token of `tokens`.
    pub fn new(tokens: Vec<Token>) -> (r: TokenStream)
        ensures
            r.tokens@ == tokens@,
            r.idx == 0,
            r.wf(),
    {
        TokenStream { tokens, idx: 0 }
    }

    /// Lexes `src` and sets a cursor at its first token; the lexer's
    /// diagnostics come back beside it.
    pub fn from_source(src: &[u8]) -> (r: (TokenStream, Vec<Diagnostic>))
        ensures
            r.0.toks() == lex(src@).0,
            diags_view(r.1@) == lex(src@).1,
            r.0.idx == 0,
            r.0.wf(),
    {
        let (toks, diags) = tokenize(src);
        (TokenStream { tokens: toks, idx: 0 }, diags)
    }

    /// The kind of the next token, without consuming it.
    pub fn peek_kind(&self) -> (r: Option<Kind>)
        requires
            self.wf(),
        ensures
            r == kind_at(self.toks(), self.idx as int),
    {
        if self.idx < self.tokens.len() {
            Some(self.tokens[self.idx].kind)
        } else {
            None
        }
    }

    fn copy_token(t: &Token) -> (r: Token)
        ensures
            r@ == t@,
    {
        Token { kind: t.kind, value: copy_bytes(t.value.as_slice()), pos: t.pos }
    }

    /// The error for a next token that no rule expects: its position, or the
    /// end of the tokens.
    pub fn unexpected(&self) -> (r: ParseError)
        requires
            self.wf(),
        ensures
            self.idx < self.tokens@.len() ==> r == ParseError::UnexpectedToken(
                self.toks()[self.idx as int].pos,
            ),
            self.idx >= self.tokens@.len() ==> r == ParseError::UnexpectedEof,
    {
        if self.idx < self.tokens.len() {
            ParseError::UnexpectedToken(self.tokens[self.idx].pos)
        } else {
            ParseError::UnexpectedEof
        }
    }

    /// Consumes and returns the next token; fails at the end of the tokens.
    pub fn expect(&mut self) -> (r: Result<Token, ParseError>)
        requires
            old(self).wf(),
        ensures
            old(self).same_tokens(final(self)),
            old(self).idx < old(self).tokens@.len() ==> r is Ok && r->Ok_0@ == old(self).toks()[old(
                self,
            ).idx as int] && final(self).idx == old(self).idx + 1,
            old(self).idx >= old(self).tokens@.len() ==> r == Err::<Token, ParseError>(
                ParseError::UnexpectedEof,
            ),
    {
        if self.idx < self.tokens.len() {
            let t = Self::copy_token(&self.tokens[self.idx]);
            self.idx = self.idx + 1;
            Ok(t)
        } else {
            Err(ParseError::UnexpectedEof)
        }
    }

    /// Consumes the next token if it is of kind `k`, and fails otherwise.
    pub fn expect_kind(&mut self, k: Kind) -> (r: Result<Token, ParseError>)
        requires
            old(self).wf(),
        ensures
            old(self).same_tokens(final(self)),
            is_kind(old(self).toks(), old(self).idx as int, k) ==> r is Ok && r->Ok_0@ == old(
                self,
            ).toks()[old(self).idx as int] && final(self).idx == old(self).idx + 1,
            !is_kind(old(self).toks(), old(self).idx as int, k) ==> r is Err && final(self).idx
                == old(self).idx,
    {
        if self.idx < self.tokens.len() {
            if self.tokens[self.idx].kind == k {
                let t = Self::copy_token(&self.tokens[self.idx]);
                self.idx = self.idx + 1;
                Ok(t)
            } else {
                Err(ParseError::UnexpectedToken(self.tokens[self.idx].pos))
            }
        } else {
            Err(ParseError::UnexpectedEof)
        }
    }

    /// Consumes the next token if it is of kind `k`; says whether it did.
    pub fn skip_if_kind(&mut self, k: Kind) -> (r: bool)
        requires
            old(self).wf(),
        ensures
            old(self).same_tokens(final(self)),
            r == is_kind(old(self).toks(), old(self).idx as int, k),
            final(self).idx == old(self).idx + (if r {
                1int
            } else {
                0int
            }),
    {
        if self.idx < self.tokens.len() && self.tokens[self.idx].kind == k {
            self.idx = self.idx + 1;
            true
        } else {
            false
        }
    }

    /// Consumes the next token if it is an identifier, and returns it.
    pub fn pop_optional_ident(&mut self) -> (r: Option<Ident>)
        requires
            old(self).wf(),
        ensures
            old(self).same_tokens(final(self)),
            is_kind(old(self).toks(), old(self).idx as int, Kind::Identifier) ==> r is Some
                && r->Some_0@ == ident_of(old(self).toks()[old(self).idx as int]) && final(self).idx
                == old(self).idx + 1,
            !is_kind(old(self).toks(), old(self).idx as int, Kind::Identifier) ==> r is None
                && final(self).idx == old(self).idx,
    {
        if self.idx < self.tokens.len() && self.tokens[self.idx].kind == Kind::Identifier {
            let t = &self.tokens[self.idx];
            let id = WithPos { item: copy_bytes(t.value.as_slice()), pos: t.pos };
            self.idx = self.idx + 1;
            Some(id)
        } else {
            None
        }
    }
}

} // verus!
