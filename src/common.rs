use crate::ast::{opt_ident_view, Ident};
use crate::source::{bytes_eq, copy_bytes, Diagnostic, WithPos};
use vstd::prelude::*;
use vstd::string::StringSliceAdditionalSpecFns;

verus! {

pub open spec fn mismatch_message(expected: Seq<u8>) -> Seq<u8> {
    "End identifier mismatch, expected ".spec_bytes() + expected
}

/// The diagnostic owed when a closing identifier does not repeat the declared
/// one; none when there is no closing identifier or it matches.
pub open spec fn end_mismatch(ident: WithPos<Seq<u8>>, end_ident: Option<WithPos<Seq<u8>>>) -> Option<
    WithPos<Seq<u8>>,
> {
    match end_ident {
        Some(e) => if e.item != ident.item {
            Some(WithPos { item: mismatch_message(ident.item), pos: e.pos })
        } else {
            None
        },
        None => None,
    }
}

/// Compares an optional closing identifier with the declared one.
pub fn error_on_end_identifier_mismatch(ident: &Ident, end_ident: &Option<Ident>) -> (r: Option<
    Diagnostic,
>)
    ensures
        match end_mismatch(ident@, opt_ident_view(*end_ident)) {
            Some(d) => r is Some && r->Some_0@ == d,
            None => r is None,
        },
{
    match end_ident {
        Some(e) => {
            if bytes_eq(e.item.as_slice(), ident.item.as_slice()) {
                None
            } else {
                let mut m = copy_bytes("End identifier mismatch, expected ".as_bytes());
                let mut i: usize = 0;
                let ghost m0 = m@;
                while i < ident.item.len()
                    invariant
                        i <= ident.item@.len(),
                        m@ == m0 + ident.item@.subrange(0, i as int),
                    decreases ident.item@.len() - i,
                {
                    m.push(ident.item[i]);
                    i = i + 1;
                    proof {
                        assert(m@ =~= m0 + ident.item@.subrange(0, i as int));
                    }
                }
                proof {
                    assert(ident.item@.subrange(0, ident.item@.len() as int) =~= ident.item@);
                }
                Some(Diagnostic { pos: e.pos, message: m })
            }
        },
        None => None,
    }
}

} // verus!
