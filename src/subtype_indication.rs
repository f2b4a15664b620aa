use crate::ast::{Name, NameV};
use crate::names::{parse_name, spec_name};
use crate::source::{span, SrcPos, WithPos};
use crate::tokenizer::{Kind, TokenV};
use crate::tokenstream::{is_kind, parsed, ParseError, TokenStream};
use vstd::prelude::*;

verus! {

#[derive(Clone, Copy, PartialEq, Eq, Debug, Structural)]
pub enum Direction {
    Ascending,
    Descending,
}

/// A bound of a range: an abstract or bit-string literal (its spelling), or a
/// name.
#[derive(Debug, PartialEq, Eq)]
pub enum Expression {
    Literal(Vec<u8>),
    Name(Name),
}

pub ghost enum ExpressionV {
    Literal(Seq<u8>),
    Name(NameV),
}

impl View for Expression {
    type V = ExpressionV;

    open spec fn view(&self) -> ExpressionV {
        match self {
            Expression::Literal(v) => ExpressionV::Literal(v@),
            Expression::Name(n) => ExpressionV::Name(n@),
        }
    }
}

/// `left to right` or `left downto right`.
#[derive(Debug, PartialEq, Eq)]
pub struct RangeConstraint {
    pub direction: Direction,
    pub left_expr: WithPos<Expression>,
    pub right_expr: WithPos<Expression>,
}

pub ghost struct RangeConstraintV {
    pub direction: Direction,
    pub left_expr: WithPos<ExpressionV>,
    pub right_expr: WithPos<ExpressionV>,
}

impl View for RangeConstraint {
    type V = RangeConstraintV;

    open spec fn view(&self) -> RangeConstraintV {
        RangeConstraintV {
            direction: self.direction,
            left_expr: self.left_expr@,
            right_expr: self.right_expr@,
        }
    }
}

/// A type mark with an optional parenthesised range constraint.
#[derive(Debug, PartialEq, Eq)]
pub struct SubtypeIndication {
    pub type_mark: WithPos<Name>,
    pub constraint: Option<WithPos<RangeConstraint>>,
}

pub ghost struct SubtypeIndicationV {
    pub type_mark: WithPos<NameV>,
    pub constraint: Option<WithPos<RangeConstraintV>>,
}

impl View for SubtypeIndication {
    type V = SubtypeIndicationV;

    open spec fn view(&self) -> SubtypeIndicationV {
        SubtypeIndicationV {
            type_mark: self.type_mark@,
            constraint: match self.constraint {
                Some(c) => Some(c@),
                None => None,
            },
        }
    }
}

/// An expression at index `i`: a literal, else a name.
pub open spec fn spec_expression(toks: Seq<TokenV>, i: int) -> Option<(WithPos<ExpressionV>, int)> {
    if is_kind(toks, i, Kind::AbstractLiteral) || is_kind(toks, i, Kind::BitString) {
        Some((WithPos { item: ExpressionV::Literal(toks[i].value), pos: toks[i].pos }, i + 1))
    } else {
        match spec_name(toks, i) {
            Some((n, e)) => Some((WithPos { item: ExpressionV::Name(n.item), pos: n.pos }, e)),
            None => None,
        }
    }
}

pub open spec fn direction_at(toks: Seq<TokenV>, i: int) -> Option<Direction> {
    if is_kind(toks, i, Kind::To) {
        Some(Direction::Ascending)
    } else if is_kind(toks, i, Kind::Downto) {
        Some(Direction::Descending)
    } else {
        None
    }
}

/// `( expression direction expression )` at index `i`.
pub open spec fn spec_range_constraint(toks: Seq<TokenV>, i: int) -> Option<
    (WithPos<RangeConstraintV>, int),
> {
    if !is_kind(toks, i, Kind::LeftPar) {
        None
    } else {
        match spec_expression(toks, i + 1) {
            None => None,
            Some((l, f)) => match direction_at(toks, f) {
                None => None,
                Some(d) => match spec_expression(toks, f + 1) {
                    None => None,
                    Some((r, g)) => if is_kind(toks, g, Kind::RightPar) {
                        Some(
                            (
                                WithPos {
                                    item: RangeConstraintV { direction: d, left_expr: l, right_expr: r },
                                    pos: span(toks[i].pos.start as int, toks[g].pos.end as int),
                                },
                                g + 1,
                            ),
                        )
                    } else {
                        None
                    },
                },
            },
        }
    }
}

/// A subtype indication at index `i`.
pub open spec fn spec_subtype_indication(toks: Seq<TokenV>, i: int) -> Option<
    (SubtypeIndicationV, int),
> {
    match spec_name(toks, i) {
        None => None,
        Some((tm, e)) => if is_kind(toks, e, Kind::LeftPar) {
            match spec_range_constraint(toks, e) {
                Some((c, f)) => Some((SubtypeIndicationV { type_mark: tm, constraint: Some(c) }, f)),
                None => None,
            }
        } else {
            Some((SubtypeIndicationV { type_mark: tm, constraint: None }, e))
        },
    }
}

fn parse_expression(stream: &mut TokenStream) -> (r: Result<WithPos<Expression>, ParseError>)
    requires
        old(stream).wf(),
    ensures
        old(stream).same_tokens(final(stream)),
        parsed(r, spec_expression(old(stream).toks(), old(stream).idx as int), final(stream).idx as int),
{
    let k = stream.peek_kind();
    if k == Some(Kind::AbstractLiteral) || k == Some(Kind::BitString) {
        match stream.expect() {
            Ok(t) => Ok(WithPos { item: Expression::Literal(t.value), pos: t.pos }),
            Err(e) => Err(e),
        }
    } else {
        match parse_name(stream) {
            Ok(n) => Ok(WithPos { item: Expression::Name(n.item), pos: n.pos }),
            Err(e) => Err(e),
        }
    }
}

fn parse_range_constraint(stream: &mut TokenStream) -> (r: Result<
    WithPos<RangeConstraint>,
    ParseError,
>)
    requires
        old(stream).wf(),
    ensures
        old(stream).same_tokens(final(stream)),
        parsed(
            r,
            spec_range_constraint(old(stream).toks(), old(stream).idx as int),
            final(stream).idx as int,
        ),
{
    let lpar = match stream.expect_kind(Kind::LeftPar) {
        Ok(t) => t,
        Err(e) => {
            return Err(e);
        },
    };
    let left_expr = match parse_expression(stream) {
        Ok(x) => x,
        Err(e) => {
            return Err(e);
        },
    };
    let direction = if stream.skip_if_kind(Kind::To) {
        Direction::Ascending
    } else if stream.skip_if_kind(Kind::Downto) {
        Direction::Descending
    } else {
        return Err(stream.unexpected());
    };
    let right_expr = match parse_expression(stream) {
        Ok(x) => x,
        Err(e) => {
            return Err(e);
        },
    };
    let rpar = match stream.expect_kind(Kind::RightPar) {
        Ok(t) => t,
        Err(e) => {
            return Err(e);
        },
    };
    Ok(
        WithPos {
            item: RangeConstraint { direction, left_expr, right_expr },
            pos: SrcPos { start: lpar.pos.start, end: rpar.pos.end },
        },
    )
}

/// LRM 6.3 Subtype declarations: a type mark, optionally constrained by
/// `(left to right)` or `(left downto right)`.
pub fn parse_subtype_indication(stream: &mut TokenStream) -> (r: Result<
    SubtypeIndication,
    ParseError,
>)
    requires
        old(stream).wf(),
    ensures
        old(stream).same_tokens(final(stream)),
        parsed(
            r,
            spec_subtype_indication(old(stream).toks(), old(stream).idx as int),
            final(stream).idx as int,
        ),
{
    let type_mark = match parse_name(stream) {
        Ok(n) => n,
        Err(e) => {
            return Err(e);
        },
    };
    if stream.peek_kind() == Some(Kind::LeftPar) {
        match parse_range_constraint(stream) {
            Ok(c) => Ok(SubtypeIndication { type_mark, constraint: Some(c) }),
            Err(e) => Err(e),
        }
    } else {
        Ok(SubtypeIndication { type_mark, constraint: None })
    }
}

} // verus!
