use crate::ast::{Designator, DesignatorV, Name, NameV};
use crate::names::{designator_of, parse_name, spec_name};
use crate::source::WithPos;
use crate::subprogram::{parse_signature, spec_signature, Signature, SignatureV};
use crate::subtype_indication::{
    parse_subtype_indication,
    spec_subtype_indication,
    SubtypeIndication,
    SubtypeIndicationV,
};
use crate::tokenizer::{Kind, TokenV};
use crate::tokenstream::{is_kind, parsed, ParseError, TokenStream};
use vstd::prelude::*;

verus! {

/// `alias designator [: subtype_indication] is name [signature];`
#[derive(Debug, PartialEq, Eq)]
pub struct AliasDeclaration {
    pub designator: WithPos<Designator>,
    pub subtype_indication: Option<SubtypeIndication>,
    pub name: WithPos<Name>,
    pub signature: Option<WithPos<Signature>>,
}

pub ghost struct AliasDeclarationV {
    pub designator: WithPos<DesignatorV>,
    pub subtype_indication: Option<SubtypeIndicationV>,
    pub name: WithPos<NameV>,
    pub signature: Option<WithPos<SignatureV>>,
}

impl View for AliasDeclaration {
    type V = AliasDeclarationV;

    open spec fn view(&self) -> AliasDeclarationV {
        AliasDeclarationV {
            designator: self.designator@,
            subtype_indication: match self.subtype_indication {
                Some(s) => Some(s@),
                None => None,
            },
            name: self.name@,
            signature: match self.signature {
                Some(s) => Some(s@),
                None => None,
            },
        }
    }
}

/// The optional `: subtype_indication` at index `j`.
pub open spec fn alias_subtype(toks: Seq<TokenV>, j: int) -> Option<(Option<SubtypeIndicationV>, int)> {
    if is_kind(toks, j, Kind::Colon) {
        match spec_subtype_indication(toks, j + 1) {
            Some((s, e)) => Some((Some(s), e)),
            None => None,
        }
    } else {
        Some((None, j))
    }
}

/// The optional signature at index `k`.
pub open spec fn alias_signature(toks: Seq<TokenV>, k: int) -> Option<(Option<WithPos<SignatureV>>, int)> {
    if is_kind(toks, k, Kind::LeftSquare) {
        match spec_signature(toks, k) {
            Some((s, e)) => Some((Some(s), e)),
            None => None,
        }
    } else {
        Some((None, k))
    }
}

/// An alias declaration at index `i`, and where it ends.
pub open spec fn spec_alias_declaration(toks: Seq<TokenV>, i: int) -> Option<(AliasDeclarationV, int)> {
    if !is_kind(toks, i, Kind::Alias) || !(i + 1 < toks.len()) {
        None
    } else {
        match designator_of(toks[i + 1]) {
            None => None,
            Some(d) => {
                let designator = WithPos { item: d, pos: toks[i + 1].pos };
                match alias_subtype(toks, i + 2) {
                    None => None,
                    Some((subtype_indication, j)) => if !is_kind(toks, j, Kind::Is) {
                        None
                    } else {
                        match spec_name(toks, j + 1) {
                            None => None,
                            Some((name, k)) => match alias_signature(toks, k) {
                                None => None,
                                Some((signature, m)) => if is_kind(toks, m, Kind::SemiColon) {
                                    Some(
                                        (
                                            AliasDeclarationV {
                                                designator,
                                                subtype_indication,
                                                name,
                                                signature,
                                            },
                                            m + 1,
                                        ),
                                    )
                                } else {
                                    None
                                },
                            },
                        }
                    },
                }
            },
        }
    }
}

/// LRM 6.6 Alias declarations.
pub fn parse_alias_declaration(stream: &mut TokenStream) -> (r: Result<
    AliasDeclaration,
    ParseError,
>)
    requires
        old(stream).wf(),
    ensures
        old(stream).same_tokens(final(stream)),
        parsed(
            r,
            spec_alias_declaration(old(stream).toks(), old(stream).idx as int),
            final(stream).idx as int,
        ),
        r is Ok ==> final(stream).idx > old(stream).idx,
{
    match stream.expect_kind(Kind::Alias) {
        Ok(_) => {},
        Err(e) => {
            return Err(e);
        },
    }
    let token = match stream.expect() {
        Ok(t) => t,
        Err(e) => {
            return Err(e);
        },
    };
    let tpos = token.pos;
    let designator = match token.kind {
        Kind::Identifier => WithPos { item: Designator::Identifier(token.value), pos: tpos },
        Kind::StringLiteral => WithPos { item: Designator::OperatorSymbol(token.value), pos: tpos },
        Kind::Character => WithPos {
            item: Designator::Character(
                if token.value.len() > 0 {
                    token.value[0]
                } else {
                    0
                },
            ),
            pos: tpos,
        },
        _ => {
            return Err(ParseError::UnexpectedToken(tpos));
        },
    };
    let subtype_indication = if stream.skip_if_kind(Kind::Colon) {
        match parse_subtype_indication(stream) {
            Ok(s) => Some(s),
            Err(e) => {
                return Err(e);
            },
        }
    } else {
        None
    };
    match stream.expect_kind(Kind::Is) {
        Ok(_) => {},
        Err(e) => {
            return Err(e);
        },
    }
    let name = match parse_name(stream) {
        Ok(n) => n,
        Err(e) => {
            return Err(e);
        },
    };
    let signature = if stream.peek_kind() == Some(Kind::LeftSquare) {
        match parse_signature(stream) {
            Ok(s) => Some(s),
            Err(e) => {
                return Err(e);
            },
        }
    } else {
        None
    };
    match stream.expect_kind(Kind::SemiColon) {
        Ok(_) => {},
        Err(e) => {
            return Err(e);
        },
    }
    Ok(AliasDeclaration { designator, subtype_indication, name, signature })
}

} // verus!
