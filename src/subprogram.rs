use crate::ast::{names_view, Name, NameV};
use crate::names::{parse_name, spec_name};
use crate::source::{span, SrcPos, WithPos};
use crate::tokenizer::{Kind, TokenV};
use crate::tokenstream::{is_kind, parsed, ParseError, TokenStream};
use vstd::prelude::*;

verus! {

/// `[ [type_mark {, type_mark}] [return type_mark] ]`
#[derive(Debug, PartialEq, Eq)]
pub struct Signature {
    pub type_marks: Vec<WithPos<Name>>,
    pub return_mark: Option<WithPos<Name>>,
}

pub ghost struct SignatureV {
    pub type_marks: Seq<WithPos<NameV>>,
    pub return_mark: Option<WithPos<NameV>>,
}

impl View for Signature {
    type V = SignatureV;

    open spec fn view(&self) -> SignatureV {
        SignatureV {
            type_marks: names_view(self.type_marks@),
            return_mark: match self.return_mark {
                Some(n) => Some(n@),
                None => None,
            },
        }
    }
}

/// After the type marks gathered in `acc`, at index `j`: `{, type_mark}`.
pub open spec fn sig_marks_tail(toks: Seq<TokenV>, j: int, acc: Seq<WithPos<NameV>>) -> Option<
    (Seq<WithPos<NameV>>, int),
>
    decreases toks.len() - j,
{
    if is_kind(toks, j, Kind::Comma) {
        match spec_name(toks, j + 1) {
            Some((n, e)) => if j < e <= toks.len() {
                sig_marks_tail(toks, e, acc.push(n))
            } else {
                None
            },
            None => None,
        }
    } else {
        Some((acc, j))
    }
}

/// The type marks that open a signature at index `j` (just past `[`).
pub open spec fn sig_marks(toks: Seq<TokenV>, j: int) -> Option<(Seq<WithPos<NameV>>, int)> {
    if is_kind(toks, j, Kind::Return) || is_kind(toks, j, Kind::RightSquare) {
        Some((Seq::empty(), j))
    } else {
        match spec_name(toks, j) {
            Some((n, e)) => sig_marks_tail(toks, e, seq![n]),
            None => None,
        }
    }
}

/// `[return type_mark] ]` at index `k`.
pub open spec fn sig_return(toks: Seq<TokenV>, k: int) -> Option<(Option<WithPos<NameV>>, int)> {
    if is_kind(toks, k, Kind::Return) {
        match spec_name(toks, k + 1) {
            Some((n, e)) => if is_kind(toks, e, Kind::RightSquare) {
                Some((Some(n), e + 1))
            } else {
                None
            },
            None => None,
        }
    } else if is_kind(toks, k, Kind::RightSquare) {
        Some((None, k + 1))
    } else {
        None
    }
}

/// A signature at index `i`, spanning its brackets.
pub open spec fn spec_signature(toks: Seq<TokenV>, i: int) -> Option<(WithPos<SignatureV>, int)> {
    if !is_kind(toks, i, Kind::LeftSquare) {
        None
    } else {
        match sig_marks(toks, i + 1) {
            None => None,
            Some((m, k)) => match sig_return(toks, k) {
                None => None,
                Some((ret, f)) => Some(
                    (
                        WithPos {
                            item: SignatureV { type_marks: m, return_mark: ret },
                            pos: span(toks[i].pos.start as int, toks[f - 1].pos.end as int),
                        },
                        f,
                    ),
                ),
            },
        }
    }
}

fn parse_sig_marks(stream: &mut TokenStream) -> (r: Result<Vec<WithPos<Name>>, ParseError>)
    requires
        old(stream).wf(),
    ensures
        old(stream).same_tokens(final(stream)),
        match sig_marks(old(stream).toks(), old(stream).idx as int) {
            Some((v, e)) => r is Ok && names_view(r->Ok_0@) == v && final(stream).idx == e,
            None => r is Err,
        },
{
    let mut acc: Vec<WithPos<Name>> = Vec::new();
    let k = stream.peek_kind();
    if k == Some(Kind::Return) || k == Some(Kind::RightSquare) {
        proof {
            assert(names_view(acc@) =~= Seq::<WithPos<NameV>>::empty());
        }
        return Ok(acc);
    }
    match parse_name(stream) {
        Ok(n) => {
            acc.push(n);
            proof {
                assert(names_view(acc@) =~= seq![n@]);
            }
        },
        Err(e) => {
            return Err(e);
        },
    }
    let ghost toks = stream.toks();
    loop
        invariant
            stream.tokens@ == old(stream).tokens@,
            stream.wf(),
            toks == stream.toks(),
            toks == old(stream).toks(),
            stream.idx >= old(stream).idx,
            sig_marks(toks, old(stream).idx as int) == sig_marks_tail(
                toks,
                stream.idx as int,
                names_view(acc@),
            ),
        decreases stream.tokens@.len() - stream.idx,
    {
        if !stream.skip_if_kind(Kind::Comma) {
            return Ok(acc);
        }
        match parse_name(stream) {
            Ok(n) => {
                let ghost a0 = names_view(acc@);
                acc.push(n);
                proof {
                    assert(names_view(acc@) =~= a0.push(n@));
                }
            },
            Err(e) => {
                return Err(e);
            },
        }
    }
}

/// LRM 4.5.3 Signatures: `[ [type_mark {, type_mark}] [return type_mark] ]`.
pub fn parse_signature(stream: &mut TokenStream) -> (r: Result<WithPos<Signature>, ParseError>)
    requires
        old(stream).wf(),
    ensures
        old(stream).same_tokens(final(stream)),
        parsed(r, spec_signature(old(stream).toks(), old(stream).idx as int), final(stream).idx as int),
{
    let lsq = match stream.expect_kind(Kind::LeftSquare) {
        Ok(t) => t,
        Err(e) => {
            return Err(e);
        },
    };
    let type_marks = match parse_sig_marks(stream) {
        Ok(m) => m,
        Err(e) => {
            return Err(e);
        },
    };
    let return_mark = if stream.skip_if_kind(Kind::Return) {
        match parse_name(stream) {
            Ok(n) => Some(n),
            Err(e) => {
                return Err(e);
            },
        }
    } else {
        None
    };
    let rsq = match stream.expect_kind(Kind::RightSquare) {
        Ok(t) => t,
        Err(e) => {
            return Err(e);
        },
    };
    Ok(
        WithPos {
            item: Signature { type_marks, return_mark },
            pos: SrcPos { start: lsq.pos.start, end: rsq.pos.end },
        },
    )
}

} // verus!
