use crate::ast::{Designator, DesignatorV, Name, NameV};
use crate::source::{span, WithPos};
use crate::tokenizer::{Kind, Token, TokenV};
use crate::tokenstream::{is_kind, parsed, ParseError, TokenStream};
use vstd::prelude::*;

verus! {

pub open spec fn first_byte(v: Seq<u8>) -> u8 {
    if v.len() > 0 {
        v[0]
    } else {
        0
    }
}

/// The name that a single token stands for, if it can start a name.
pub open spec fn primary_name(t: TokenV) -> Option<NameV> {
    match t.kind {
        Kind::Identifier => Some(NameV::Simple(t.value)),
        Kind::StringLiteral => Some(NameV::OperatorSymbol(t.value)),
        Kind::Character => Some(NameV::CharacterLiteral(first_byte(t.value))),
        _ => None,
    }
}

/// The designator that a single token stands for, if it can follow a dot.
pub open spec fn designator_of(t: TokenV) -> Option<DesignatorV> {
    match t.kind {
        Kind::Identifier => Some(DesignatorV::Identifier(t.value)),
        Kind::StringLiteral => Some(DesignatorV::OperatorSymbol(t.value)),
        Kind::Character => Some(DesignatorV::Character(first_byte(t.value))),
        _ => None,
    }
}

/// Extends the name `n` by every `.suffix` from index `j` on: the longest
/// selected name, and where it ends. A dot followed by anything but a
/// designator or `all` is a syntax error.
pub open spec fn name_suffixes(toks: Seq<TokenV>, n: WithPos<NameV>, j: int) -> Option<
    (WithPos<NameV>, int),
>
    decreases toks.len() - j,
{
    if 0 <= j && is_kind(toks, j, Kind::Dot) {
        if j + 1 < toks.len() {
            let t = toks[j + 1];
            let p = span(n.pos.start as int, t.pos.end as int);
            if t.kind == Kind::All {
                name_suffixes(
                    toks,
                    WithPos { item: NameV::SelectedAll(Box::new(n)), pos: p },
                    j + 2,
                )
            } else {
                match designator_of(t) {
                    Some(d) => name_suffixes(
                        toks,
                        WithPos {
                            item: NameV::Selected(Box::new(n), WithPos { item: d, pos: t.pos }),
                            pos: p,
                        },
                        j + 2,
                    ),
                    None => None,
                }
            }
        } else {
            None
        }
    } else {
        Some((n, j))
    }
}

/// The name that starts at index `i`, and where it ends.
pub open spec fn spec_name(toks: Seq<TokenV>, i: int) -> Option<(WithPos<NameV>, int)> {
    if 0 <= i < toks.len() {
        match primary_name(toks[i]) {
            Some(n) => name_suffixes(toks, WithPos { item: n, pos: toks[i].pos }, i + 1),
            None => None,
        }
    } else {
        None
    }
}

fn designator_from(t: Token) -> (r: Option<Designator>)
    ensures
        match designator_of(t@) {
            Some(d) => r is Some && r->Some_0@ == d,
            None => r is None,
        },
{
    match t.kind {
        Kind::Identifier => Some(Designator::Identifier(t.value)),
        Kind::StringLiteral => Some(Designator::OperatorSymbol(t.value)),
        Kind::Character => Some(
            Designator::Character(
                if t.value.len() > 0 {
                    t.value[0]
                } else {
                    0
                },
            ),
        ),
        _ => None,
    }
}

fn primary_from(t: Token) -> (r: Option<Name>)
    ensures
        match primary_name(t@) {
            Some(n) => r is Some && r->Some_0@ == n,
            None => r is None,
        },
{
    match t.kind {
        Kind::Identifier => Some(Name::Simple(t.value)),
        Kind::StringLiteral => Some(Name::OperatorSymbol(t.value)),
        Kind::Character => Some(
            Name::CharacterLiteral(
                if t.value.len() > 0 {
                    t.value[0]
                } else {
                    0
                },
            ),
        ),
        _ => None,
    }
}

/// LRM 8. Names: a simple name, operator symbol or character literal,
/// followed by any number of `.suffix` selections.
pub fn parse_name(stream: &mut TokenStream) -> (r: Result<WithPos<Name>, ParseError>)
    requires
        old(stream).wf(),
    ensures
        old(stream).same_tokens(final(stream)),
        parsed(r, spec_name(old(stream).toks(), old(stream).idx as int), final(stream).idx as int),
        r is Ok ==> final(stream).idx > old(stream).idx,
{
    let ghost toks = stream.toks();
    let ghost i0 = stream.idx as int;
    let t = match stream.expect() {
        Ok(t) => t,
        Err(e) => {
            return Err(e);
        },
    };
    let pos = t.pos;
    let first = match primary_from(t) {
        Some(n) => n,
        None => {
            return Err(ParseError::UnexpectedToken(pos));
        },
    };
    let mut cur = WithPos { item: first, pos };
    loop
        invariant
            stream.tokens@ == old(stream).tokens@,
            stream.wf(),
            toks == stream.toks(),
            toks == old(stream).toks(),
            i0 == old(stream).idx,
            stream.idx > i0,
            spec_name(toks, i0) == name_suffixes(toks, cur@, stream.idx as int),
        decreases stream.tokens@.len() - stream.idx,
    {
        let is_dot = match stream.peek_kind() {
            Some(Kind::Dot) => true,
            _ => false,
        };
        if !is_dot {
            return Ok(cur);
        }
        if stream.tokens.len() - stream.idx < 2 {
            return Err(ParseError::UnexpectedEof);
        }
        stream.idx = stream.idx + 1;
        let t = match stream.expect() {
            Ok(t) => t,
            Err(e) => {
                return Err(e);
            },
        };
        let p = crate::source::SrcPos { start: cur.pos.start, end: t.pos.end };
        if t.kind == Kind::All {
            cur = WithPos { item: Name::SelectedAll(Box::new(cur)), pos: p };
        } else {
            let tpos = t.pos;
            match designator_from(t) {
                Some(d) => {
                    cur = WithPos {
                        item: Name::Selected(Box::new(cur), WithPos { item: d, pos: tpos }),
                        pos: p,
                    };
                },
                None => {
                    return Err(ParseError::UnexpectedToken(tpos));
                },
            }
        }
    }
}

} // verus!
