use crate::source::WithPos;
use vstd::prelude::*;

verus! {

/// The last part of a selected name, and the designator of an alias.
#[derive(Clone, Debug, PartialEq, Eq)]
pub enum Designator {
    Identifier(Vec<u8>),
    OperatorSymbol(Vec<u8>),
    Character(u8),
}

pub ghost enum DesignatorV {
    Identifier(Seq<u8>),
    OperatorSymbol(Seq<u8>),
    Character(u8),
}

impl View for Designator {
    type V = DesignatorV;

    open spec fn view(&self) -> DesignatorV {
        match self {
            Designator::Identifier(v) => DesignatorV::Identifier(v@),
            Designator::OperatorSymbol(v) => DesignatorV::OperatorSymbol(v@),
            Designator::Character(c) => DesignatorV::Character(*c),
        }
    }
}

/// A name: a simple name, an operator symbol, a character literal, or a
/// prefix name selected by `.suffix` or `.all`.
#[derive(Debug, PartialEq, Eq)]
pub enum Name {
    Simple(Vec<u8>),
    OperatorSymbol(Vec<u8>),
    CharacterLiteral(u8),
    Selected(Box<WithPos<Name>>, WithPos<Designator>),
    SelectedAll(Box<WithPos<Name>>),
}

pub ghost enum NameV {
    Simple(Seq<u8>),
    OperatorSymbol(Seq<u8>),
    CharacterLiteral(u8),
    Selected(Box<WithPos<NameV>>, WithPos<DesignatorV>),
    SelectedAll(Box<WithPos<NameV>>),
}

impl View for Name {
    type V = NameV;

    open spec fn view(&self) -> NameV
        decreases self,
    {
        match self {
            Name::Simple(v) => NameV::Simple(v@),
            Name::OperatorSymbol(v) => NameV::OperatorSymbol(v@),
            Name::CharacterLiteral(c) => NameV::CharacterLiteral(*c),
            Name::Selected(p, d) => NameV::Selected(
                Box::new(WithPos { item: p.item.view(), pos: p.pos }),
                d@,
            ),
            Name::SelectedAll(p) => NameV::SelectedAll(
                Box::new(WithPos { item: p.item.view(), pos: p.pos }),
            ),
        }
    }
}

/// An identifier with its span.
pub type Ident = WithPos<Vec<u8>>;

pub open spec fn names_view(s: Seq<WithPos<Name>>) -> Seq<WithPos<NameV>> {
    s.map_values(|n: WithPos<Name>| n@)
}

pub open spec fn opt_ident_view(o: Option<Ident>) -> Option<WithPos<Seq<u8>>> {
    match o {
        Some(x) => Some(x@),
        None => None,
    }
}

pub open spec fn idents_view(s: Seq<Ident>) -> Seq<WithPos<Seq<u8>>> {
    s.map_values(|n: Ident| n@)
}

} // verus!
