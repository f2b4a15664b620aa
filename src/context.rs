use crate::ast::{idents_view, names_view, opt_ident_view, Ident, Name, NameV};
use crate::common::{end_mismatch, error_on_end_identifier_mismatch};
use crate::names::{designator_of, name_suffixes, parse_name, primary_name, spec_name};
use crate::source::{diags_view, span, Diagnostic, WithPos};
use crate::tokenizer::{opt_seq, Kind, TokenV};
use crate::tokenstream::{ident_of, is_kind, parsed, ParseError, TokenStream};
use vstd::prelude::*;

verus! {

/// `library name {, name};`
#[derive(Clone, Debug, PartialEq, Eq)]
pub struct LibraryClause {
    pub name_list: Vec<Ident>,
}

impl View for LibraryClause {
    type V = Seq<WithPos<Seq<u8>>>;

    open spec fn view(&self) -> Seq<WithPos<Seq<u8>>> {
        idents_view(self.name_list@)
    }
}

/// `use name {, name};`
#[derive(Debug, PartialEq, Eq)]
pub struct UseClause {
    pub name_list: Vec<WithPos<Name>>,
}

impl View for UseClause {
    type V = Seq<WithPos<NameV>>;

    open spec fn view(&self) -> Seq<WithPos<NameV>> {
        names_view(self.name_list@)
    }
}

/// `context name {, name};`
#[derive(Debug, PartialEq, Eq)]
pub struct ContextReference {
    pub name_list: Vec<WithPos<Name>>,
}

impl View for ContextReference {
    type V = Seq<WithPos<NameV>>;

    open spec fn view(&self) -> Seq<WithPos<NameV>> {
        names_view(self.name_list@)
    }
}

#[derive(Debug, PartialEq, Eq)]
pub enum ContextItem {
    Library(LibraryClause),
    Use(UseClause),
    Context(ContextReference),
}

pub ghost enum ContextItemV {
    Library(Seq<WithPos<Seq<u8>>>),
    Use(Seq<WithPos<NameV>>),
    Context(Seq<WithPos<NameV>>),
}

impl View for ContextItem {
    type V = ContextItemV;

    open spec fn view(&self) -> ContextItemV {
        match self {
            ContextItem::Library(c) => ContextItemV::Library(c@),
            ContextItem::Use(c) => ContextItemV::Use(c@),
            ContextItem::Context(c) => ContextItemV::Context(c@),
        }
    }
}

pub open spec fn items_view(s: Seq<ContextItem>) -> Seq<ContextItemV> {
    s.map_values(|c: ContextItem| c@)
}

/// `context ident is {item} end [context] [ident];`
#[derive(Debug, PartialEq, Eq)]
pub struct ContextDeclaration {
    pub ident: Ident,
    pub items: Vec<ContextItem>,
}

pub ghost struct ContextDeclarationV {
    pub ident: WithPos<Seq<u8>>,
    pub items: Seq<ContextItemV>,
}

impl View for ContextDeclaration {
    type V = ContextDeclarationV;

    open spec fn view(&self) -> ContextDeclarationV {
        ContextDeclarationV { ident: self.ident@, items: items_view(self.items@) }
    }
}

/// What follows the `context` keyword: a declaration or a reference.
#[derive(Debug, PartialEq, Eq)]
pub enum DeclarationOrReference {
    Declaration(ContextDeclaration),
    Reference(ContextReference),
}

pub ghost enum DeclarationOrReferenceV {
    Declaration(ContextDeclarationV),
    Reference(Seq<WithPos<NameV>>),
}

impl View for DeclarationOrReference {
    type V = DeclarationOrReferenceV;

    open spec fn view(&self) -> DeclarationOrReferenceV {
        match self {
            DeclarationOrReference::Declaration(d) => DeclarationOrReferenceV::Declaration(d@),
            DeclarationOrReference::Reference(r) => DeclarationOrReferenceV::Reference(r@),
        }
    }
}

/// After the identifiers gathered in `acc`, at index `j`: `{, ident};`.
pub open spec fn ident_list_tail(toks: Seq<TokenV>, j: int, acc: Seq<WithPos<Seq<u8>>>) -> Option<
    (Seq<WithPos<Seq<u8>>>, int),
>
    decreases toks.len() - j,
{
    if is_kind(toks, j, Kind::Comma) && is_kind(toks, j + 1, Kind::Identifier) {
        ident_list_tail(toks, j + 2, acc.push(ident_of(toks[j + 1])))
    } else if is_kind(toks, j, Kind::SemiColon) {
        Some((acc, j + 1))
    } else {
        None
    }
}

/// `ident {, ident};` from index `i`.
pub open spec fn spec_ident_list(toks: Seq<TokenV>, i: int) -> Option<(Seq<WithPos<Seq<u8>>>, int)> {
    if is_kind(toks, i, Kind::Identifier) {
        ident_list_tail(toks, i + 1, seq![ident_of(toks[i])])
    } else {
        None
    }
}

/// After the names gathered in `acc`, at index `j`: `{, name};`.
pub open spec fn name_list_tail(toks: Seq<TokenV>, j: int, acc: Seq<WithPos<NameV>>) -> Option<
    (Seq<WithPos<NameV>>, int),
>
    decreases toks.len() - j,
{
    if is_kind(toks, j, Kind::Comma) {
        match spec_name(toks, j + 1) {
            Some((n, e)) => if j < e <= toks.len() {
                name_list_tail(toks, e, acc.push(n))
            } else {
                None
            },
            None => None,
        }
    } else if is_kind(toks, j, Kind::SemiColon) {
        Some((acc, j + 1))
    } else {
        None
    }
}

/// `name {, name};` from index `i`.
pub open spec fn spec_name_list(toks: Seq<TokenV>, i: int) -> Option<(Seq<WithPos<NameV>>, int)> {
    match spec_name(toks, i) {
        Some((n, e)) => name_list_tail(toks, e, seq![n]),
        None => None,
    }
}

pub open spec fn spec_library_clause(toks: Seq<TokenV>, i: int) -> Option<(Seq<WithPos<Seq<u8>>>, int)> {
    if is_kind(toks, i, Kind::Library) {
        spec_ident_list(toks, i + 1)
    } else {
        None
    }
}

pub open spec fn spec_use_clause(toks: Seq<TokenV>, i: int) -> Option<(Seq<WithPos<NameV>>, int)> {
    if is_kind(toks, i, Kind::Use) {
        spec_name_list(toks, i + 1)
    } else {
        None
    }
}

/// The closing `end [context] [ident];` at index `j`: the closing
/// identifier, if any, and where the declaration ends.
pub open spec fn spec_context_end(toks: Seq<TokenV>, j: int) -> Option<
    (Option<WithPos<Seq<u8>>>, int),
> {
    let a = if is_kind(toks, j + 1, Kind::Context) {
        j + 2
    } else {
        j + 1
    };
    let id = if is_kind(toks, a, Kind::Identifier) {
        Some(ident_of(toks[a]))
    } else {
        None
    };
    let b = if is_kind(toks, a, Kind::Identifier) {
        a + 1
    } else {
        a
    };
    if is_kind(toks, j, Kind::End) && is_kind(toks, b, Kind::SemiColon) {
        Some((id, b + 1))
    } else {
        None
    }
}

pub open spec fn push_item(
    toks: Seq<TokenV>,
    j: int,
    acc: Seq<ContextItemV>,
    r: Option<(ContextItemV, int)>,
) -> Option<(Seq<ContextItemV>, int)> {
    match r {
        Some((c, e)) => if j < e <= toks.len() {
            Some((acc.push(c), e))
        } else {
            None
        },
        None => None,
    }
}

/// One item of a context declaration at index `j`, keyword included.
pub open spec fn spec_context_item(toks: Seq<TokenV>, j: int) -> Option<(ContextItemV, int)> {
    if is_kind(toks, j, Kind::Library) {
        match spec_ident_list(toks, j + 1) {
            Some((l, e)) => Some((ContextItemV::Library(l), e)),
            None => None,
        }
    } else if is_kind(toks, j, Kind::Use) {
        match spec_name_list(toks, j + 1) {
            Some((l, e)) => Some((ContextItemV::Use(l), e)),
            None => None,
        }
    } else if is_kind(toks, j, Kind::Context) {
        match spec_name_list(toks, j + 1) {
            Some((l, e)) => Some((ContextItemV::Context(l), e)),
            None => None,
        }
    } else {
        None
    }
}

/// The items of a context declaration from index `j` up to its closing
/// `end`: the items, the closing identifier, and where the declaration ends.
pub open spec fn spec_context_items(toks: Seq<TokenV>, j: int, acc: Seq<ContextItemV>) -> Option<
    (Seq<ContextItemV>, Option<WithPos<Seq<u8>>>, int),
>
    decreases toks.len() - j,
{
    if is_kind(toks, j, Kind::End) {
        match spec_context_end(toks, j) {
            Some((id, e)) => Some((acc, id, e)),
            None => None,
        }
    } else {
        match push_item(toks, j, acc, spec_context_item(toks, j)) {
            Some((acc2, e)) => if j < e <= toks.len() {
                spec_context_items(toks, e, acc2)
            } else {
                None
            },
            None => None,
        }
    }
}

/// A context declaration or reference at index `i`, the diagnostics it
/// gives, and where it ends.
pub open spec fn spec_context(toks: Seq<TokenV>, i: int) -> Option<
    (DeclarationOrReferenceV, Seq<WithPos<Seq<u8>>>, int),
> {
    if !is_kind(toks, i, Kind::Context) {
        None
    } else {
        match spec_name(toks, i + 1) {
            None => None,
            Some((n, e)) => if is_kind(toks, e, Kind::Is) {
                match spec_context_items(toks, e + 1, Seq::empty()) {
                    None => None,
                    Some((items, end_ident, f)) => match n.item {
                        NameV::Simple(s) => {
                            let ident = WithPos { item: s, pos: n.pos };
                            Some(
                                (
                                    DeclarationOrReferenceV::Declaration(
                                        ContextDeclarationV { ident, items },
                                    ),
                                    opt_seq(end_mismatch(ident, end_ident)),
                                    f,
                                ),
                            )
                        },
                        _ => None,
                    },
                }
            } else {
                match name_list_tail(toks, e, seq![n]) {
                    Some((l, f)) => Some((DeclarationOrReferenceV::Reference(l), Seq::empty(), f)),
                    None => None,
                }
            },
        }
    }
}

fn parse_ident_list_tail(stream: &mut TokenStream, init: Vec<Ident>) -> (r: Result<
    Vec<Ident>,
    ParseError,
>)
    requires
        old(stream).wf(),
    ensures
        old(stream).same_tokens(final(stream)),
        match ident_list_tail(old(stream).toks(), old(stream).idx as int, idents_view(init@)) {
            Some((v, e)) => r is Ok && idents_view(r->Ok_0@) == v && final(stream).idx == e,
            None => r is Err,
        },
        r is Ok ==> final(stream).idx > old(stream).idx,
{
    let ghost toks = stream.toks();
    let ghost goal = ident_list_tail(toks, stream.idx as int, idents_view(init@));
    let mut acc = init;
    loop
        invariant
            stream.tokens@ == old(stream).tokens@,
            stream.wf(),
            toks == stream.toks(),
            toks == old(stream).toks(),
            stream.idx >= old(stream).idx,
            goal == ident_list_tail(toks, old(stream).idx as int, idents_view(init@)),
            goal == ident_list_tail(toks, stream.idx as int, idents_view(acc@)),
        decreases stream.tokens@.len() - stream.idx,
    {
        if stream.idx < stream.tokens.len() && stream.tokens[stream.idx].kind == Kind::Comma {
            stream.idx = stream.idx + 1;
            match stream.pop_optional_ident() {
                Some(id) => {
                    let ghost a0 = idents_view(acc@);
                    acc.push(id);
                    proof {
                        assert(idents_view(acc@) =~= a0.push(id@));
                    }
                },
                None => {
                    return Err(stream.unexpected());
                },
            }
        } else {
            match stream.expect_kind(Kind::SemiColon) {
                Ok(_) => {
                    return Ok(acc);
                },
                Err(e) => {
                    return Err(e);
                },
            }
        }
    }
}

fn parse_name_list_tail(stream: &mut TokenStream, init: Vec<WithPos<Name>>) -> (r: Result<
    Vec<WithPos<Name>>,
    ParseError,
>)
    requires
        old(stream).wf(),
    ensures
        old(stream).same_tokens(final(stream)),
        match name_list_tail(old(stream).toks(), old(stream).idx as int, names_view(init@)) {
            Some((v, e)) => r is Ok && names_view(r->Ok_0@) == v && final(stream).idx == e,
            None => r is Err,
        },
        r is Ok ==> final(stream).idx > old(stream).idx,
{
    let ghost toks = stream.toks();
    let ghost goal = name_list_tail(toks, stream.idx as int, names_view(init@));
    let mut acc = init;
    loop
        invariant
            stream.tokens@ == old(stream).tokens@,
            stream.wf(),
            toks == stream.toks(),
            toks == old(stream).toks(),
            stream.idx >= old(stream).idx,
            goal == name_list_tail(toks, old(stream).idx as int, names_view(init@)),
            goal == name_list_tail(toks, stream.idx as int, names_view(acc@)),
        decreases stream.tokens@.len() - stream.idx,
    {
        if stream.idx < stream.tokens.len() && stream.tokens[stream.idx].kind == Kind::Comma {
            stream.idx = stream.idx + 1;
            match parse_name(stream) {
                Ok(n) => {
                    let ghost a0 = names_view(acc@);
                    acc.push(n);
                    proof {
                        assert(names_view(acc@) =~= a0.push(n@));
                    }
                },
                Err(e) => {
                    return Err(e);
                },
            }
        } else {
            match stream.expect_kind(Kind::SemiColon) {
                Ok(_) => {
                    return Ok(acc);
                },
                Err(e) => {
                    return Err(e);
                },
            }
        }
    }
}

fn parse_library_clause_no_keyword(stream: &mut TokenStream) -> (r: Result<LibraryClause, ParseError>)
    requires
        old(stream).wf(),
    ensures
        old(stream).same_tokens(final(stream)),
        parsed(r, spec_ident_list(old(stream).toks(), old(stream).idx as int), final(stream).idx as int),
        r is Ok ==> final(stream).idx > old(stream).idx,
{
    match stream.pop_optional_ident() {
        Some(id) => {
            let mut acc: Vec<Ident> = Vec::new();
            acc.push(id);
            proof {
                assert(idents_view(acc@) =~= seq![id@]);
            }
            match parse_ident_list_tail(stream, acc) {
                Ok(name_list) => Ok(LibraryClause { name_list }),
                Err(e) => Err(e),
            }
        },
        None => Err(stream.unexpected()),
    }
}

fn parse_name_list(stream: &mut TokenStream) -> (r: Result<Vec<WithPos<Name>>, ParseError>)
    requires
        old(stream).wf(),
    ensures
        old(stream).same_tokens(final(stream)),
        match spec_name_list(old(stream).toks(), old(stream).idx as int) {
            Some((v, e)) => r is Ok && names_view(r->Ok_0@) == v && final(stream).idx == e,
            None => r is Err,
        },
        r is Ok ==> final(stream).idx > old(stream).idx,
{
    match parse_name(stream) {
        Ok(n) => {
            let mut acc: Vec<WithPos<Name>> = Vec::new();
            acc.push(n);
            proof {
                assert(names_view(acc@) =~= seq![n@]);
            }
            parse_name_list_tail(stream, acc)
        },
        Err(e) => Err(e),
    }
}

/// LRM 13. Design units and their analysis: `library name {, name};`
pub fn parse_library_clause(stream: &mut TokenStream) -> (r: Result<LibraryClause, ParseError>)
    requires
        old(stream).wf(),
    ensures
        old(stream).same_tokens(final(stream)),
        parsed(
            r,
            spec_library_clause(old(stream).toks(), old(stream).idx as int),
            final(stream).idx as int,
        ),
        r is Ok ==> final(stream).idx > old(stream).idx,
{
    match stream.expect_kind(Kind::Library) {
        Ok(_) => parse_library_clause_no_keyword(stream),
        Err(e) => Err(e),
    }
}

/// LRM 12.4. Use clauses: `use name {, name};`
pub fn parse_use_clause(stream: &mut TokenStream) -> (r: Result<UseClause, ParseError>)
    requires
        old(stream).wf(),
    ensures
        old(stream).same_tokens(final(stream)),
        parsed(r, spec_use_clause(old(stream).toks(), old(stream).idx as int), final(stream).idx as int),
        r is Ok ==> final(stream).idx > old(stream).idx,
{
    match stream.expect_kind(Kind::Use) {
        Ok(_) => match parse_name_list(stream) {
            Ok(name_list) => Ok(UseClause { name_list }),
            Err(e) => Err(e),
        },
        Err(e) => Err(e),
    }
}

fn parse_context_item(stream: &mut TokenStream) -> (r: Result<ContextItem, ParseError>)
    requires
        old(stream).wf(),
    ensures
        old(stream).same_tokens(final(stream)),
        parsed(r, spec_context_item(old(stream).toks(), old(stream).idx as int), final(stream).idx as int),
        r is Ok ==> final(stream).idx > old(stream).idx,
{
    if stream.skip_if_kind(Kind::Library) {
        match parse_library_clause_no_keyword(stream) {
            Ok(c) => Ok(ContextItem::Library(c)),
            Err(e) => Err(e),
        }
    } else if stream.skip_if_kind(Kind::Use) {
        match parse_name_list(stream) {
            Ok(name_list) => Ok(ContextItem::Use(UseClause { name_list })),
            Err(e) => Err(e),
        }
    } else if stream.skip_if_kind(Kind::Context) {
        match parse_name_list(stream) {
            Ok(name_list) => Ok(ContextItem::Context(ContextReference { name_list })),
            Err(e) => Err(e),
        }
    } else {
        match stream.expect() {
            Ok(t) => Err(ParseError::UnexpectedToken(t.pos)),
            Err(e) => Err(e),
        }
    }
}

fn parse_context_items(stream: &mut TokenStream) -> (r: Result<
    (Vec<ContextItem>, Option<Ident>),
    ParseError,
>)
    requires
        old(stream).wf(),
    ensures
        old(stream).same_tokens(final(stream)),
        match spec_context_items(old(stream).toks(), old(stream).idx as int, Seq::empty()) {
            Some((items, id, e)) => r is Ok && items_view(r->Ok_0.0@) == items && opt_ident_view(
                r->Ok_0.1,
            ) == id && final(stream).idx == e,
            None => r is Err,
        },
{
    let ghost toks = stream.toks();
    let mut items: Vec<ContextItem> = Vec::new();
    proof {
        assert(items_view(items@) =~= Seq::<ContextItemV>::empty());
    }
    loop
        invariant
            stream.tokens@ == old(stream).tokens@,
            stream.wf(),
            toks == stream.toks(),
            toks == old(stream).toks(),
            stream.idx >= old(stream).idx,
            spec_context_items(toks, old(stream).idx as int, Seq::empty()) == spec_context_items(
                toks,
                stream.idx as int,
                items_view(items@),
            ),
        decreases stream.tokens@.len() - stream.idx,
    {
        if stream.skip_if_kind(Kind::End) {
            stream.skip_if_kind(Kind::Context);
            let end_ident = stream.pop_optional_ident();
            match stream.expect_kind(Kind::SemiColon) {
                Ok(_) => {
                    return Ok((items, end_ident));
                },
                Err(e) => {
                    return Err(e);
                },
            }
        }
        match parse_context_item(stream) {
            Ok(c) => {
                let ghost a0 = items_view(items@);
                items.push(c);
                proof {
                    assert(items_view(items@) =~= a0.push(c@));
                }
            },
            Err(e) => {
                return Err(e);
            },
        }
    }
}

/// LRM 13.4 Context clauses: a context reference `context name {, name};`,
/// or a context declaration `context ident is {item} end [context] [ident];`.
/// A closing identifier that differs from the declared one gives a
/// diagnostic in `messages`; the declared identifier is kept.
pub fn parse_context(stream: &mut TokenStream, messages: &mut Vec<Diagnostic>) -> (r: Result<
    DeclarationOrReference,
    ParseError,
>)
    requires
        old(stream).wf(),
    ensures
        old(stream).same_tokens(final(stream)),
        match spec_context(old(stream).toks(), old(stream).idx as int) {
            Some((v, d, e)) => r is Ok && r->Ok_0@ == v && final(stream).idx == e && diags_view(
                final(messages)@,
            ) == diags_view(old(messages)@) + d,
            None => r is Err && final(messages)@ == old(messages)@,
        },
        r is Ok ==> final(stream).idx > old(stream).idx,
        match spec_name(old(stream).toks(), old(stream).idx + 1) {
            Some((n, e)) => is_kind(old(stream).toks(), old(stream).idx as int, Kind::Context)
                && is_kind(old(stream).toks(), e, Kind::Is) && spec_context_items(
                old(stream).toks(),
                e + 1,
                Seq::empty(),
            ) is Some && !(n.item is Simple) ==> r == Err::<DeclarationOrReference, ParseError>(
                ParseError::ExpectedSimpleName(n.pos),
            ),
            None => true,
        },
{
    match stream.expect_kind(Kind::Context) {
        Ok(_) => {},
        Err(e) => {
            return Err(e);
        },
    }
    let name = match parse_name(stream) {
        Ok(n) => n,
        Err(e) => {
            return Err(e);
        },
    };
    if stream.skip_if_kind(Kind::Is) {
        let (items, end_ident) = match parse_context_items(stream) {
            Ok(x) => x,
            Err(e) => {
                return Err(e);
            },
        };
        let ident = match name.item {
            Name::Simple(s) => WithPos { item: s, pos: name.pos },
            _ => {
                return Err(ParseError::ExpectedSimpleName(name.pos));
            },
        };
        let d = error_on_end_identifier_mismatch(&ident, &end_ident);
        let ghost m0 = diags_view(messages@);
        match d {
            Some(d) => {
                messages.push(d);
                proof {
                    assert(diags_view(messages@) =~= m0 + seq![d@]);
                }
            },
            None => {
                proof {
                    assert(diags_view(messages@) =~= m0 + Seq::<WithPos<Seq<u8>>>::empty());
                }
            },
        }
        Ok(DeclarationOrReference::Declaration(ContextDeclaration { ident, items }))
    } else {
        let mut acc: Vec<WithPos<Name>> = Vec::new();
        acc.push(name);
        proof {
            assert(names_view(acc@) =~= seq![name@]);
            assert(diags_view(messages@) =~= diags_view(messages@) + Seq::<WithPos<Seq<u8>>>::empty());
        }
        match parse_name_list_tail(stream, acc) {
            Ok(name_list) => Ok(DeclarationOrReference::Reference(ContextReference { name_list })),
            Err(e) => Err(e),
        }
    }
}

/// The tokens from index `j` close a declaration named `x` in one of the four
/// spellings: `end;`, `end context;`, `end x;` or `end context x;`.
pub open spec fn closing_spelling(toks: Seq<TokenV>, j: int, x: Seq<u8>) -> bool {
    &&& is_kind(toks, j, Kind::End)
    &&& {
        ||| is_kind(toks, j + 1, Kind::SemiColon)
        ||| is_kind(toks, j + 1, Kind::Context) && is_kind(toks, j + 2, Kind::SemiColon)
        ||| is_kind(toks, j + 1, Kind::Identifier) && toks[j + 1].value == x && is_kind(
            toks,
            j + 2,
            Kind::SemiColon,
        )
        ||| is_kind(toks, j + 1, Kind::Context) && is_kind(toks, j + 2, Kind::Identifier)
            && toks[j + 2].value == x && is_kind(toks, j + 3, Kind::SemiColon)
    }
}

/// Whichever of the four spellings closes a context declaration, the items
/// read before it stand as they are, and the closing identifier, when there
/// is one and it repeats the declared one, gives no diagnostic.
pub proof fn lemma_closing_spellings(
    toks: Seq<TokenV>,
    j: int,
    acc: Seq<ContextItemV>,
    ident: WithPos<Seq<u8>>,
)
    requires
        closing_spelling(toks, j, ident.item),
    ensures
        spec_context_items(toks, j, acc) is Some,
        spec_context_items(toks, j, acc)->Some_0.0 == acc,
        end_mismatch(ident, spec_context_items(toks, j, acc)->Some_0.1) is None,
{
}

/// A context declaration with nothing between `is` and `end` is legal: it
/// has no items and, closed in any of the four spellings, no diagnostic.
pub proof fn lemma_empty_context_declaration(toks: Seq<TokenV>, i: int)
    requires
        is_kind(toks, i, Kind::Context),
        is_kind(toks, i + 1, Kind::Identifier),
        is_kind(toks, i + 2, Kind::Is),
        closing_spelling(toks, i + 3, toks[i + 1].value),
    ensures
        spec_context(toks, i) is Some,
        spec_context(toks, i)->Some_0.0 == DeclarationOrReferenceV::Declaration(
            ContextDeclarationV { ident: ident_of(toks[i + 1]), items: Seq::empty() },
        ),
        spec_context(toks, i)->Some_0.1 == Seq::<WithPos<Seq<u8>>>::empty(),
{
    lemma_closing_spellings(toks, i + 3, Seq::empty(), ident_of(toks[i + 1]));
    assert(spec_name(toks, i + 1) == Some((WithPos { item: NameV::Simple(toks[i + 1].value), pos: toks[i + 1].pos }, i + 2)));
}

/// `t1` and `t2` hold the same tokens before index `p`, and an `end` at `p`.
pub open spec fn same_up_to_end(t1: Seq<TokenV>, t2: Seq<TokenV>, p: int) -> bool {
    &&& 0 <= p < t1.len()
    &&& p < t2.len()
    &&& t1[p].kind == Kind::End
    &&& t2[p].kind == Kind::End
    &&& forall|k: int| 0 <= k < p ==> #[trigger] t1[k] == t2[k]
}

proof fn lemma_suffixes_frame(t1: Seq<TokenV>, t2: Seq<TokenV>, p: int, n: WithPos<NameV>, j: int)
    requires
        same_up_to_end(t1, t2, p),
        0 <= j <= p,
    ensures
        name_suffixes(t1, n, j) == name_suffixes(t2, n, j),
        name_suffixes(t1, n, j) is Some ==> j <= name_suffixes(t1, n, j)->Some_0.1 <= p,
    decreases t1.len() - j,
{
    if j < p {
        assert(t1[j] == t2[j]);
        if is_kind(t1, j, Kind::Dot) && j + 1 < p {
            assert(t1[j + 1] == t2[j + 1]);
            let t = t1[j + 1];
            let q = span(n.pos.start as int, t.pos.end as int);
            lemma_suffixes_frame(t1, t2, p, WithPos { item: NameV::SelectedAll(Box::new(n)), pos: q }, j + 2);
            match designator_of(t) {
                Some(d) => {
                    lemma_suffixes_frame(
                        t1,
                        t2,
                        p,
                        WithPos {
                            item: NameV::Selected(Box::new(n), WithPos { item: d, pos: t.pos }),
                            pos: q,
                        },
                        j + 2,
                    );
                },
                None => {},
            }
        }
    }
}

proof fn lemma_name_frame(t1: Seq<TokenV>, t2: Seq<TokenV>, p: int, i: int)
    requires
        same_up_to_end(t1, t2, p),
        0 <= i <= p,
    ensures
        spec_name(t1, i) == spec_name(t2, i),
        spec_name(t1, i) is Some ==> i < spec_name(t1, i)->Some_0.1 <= p,
{
    if i < p {
        assert(t1[i] == t2[i]);
        match primary_name(t1[i]) {
            Some(n) => lemma_suffixes_frame(t1, t2, p, WithPos { item: n, pos: t1[i].pos }, i + 1),
            None => {},
        }
    }
}

proof fn lemma_ident_list_frame(
    t1: Seq<TokenV>,
    t2: Seq<TokenV>,
    p: int,
    j: int,
    acc: Seq<WithPos<Seq<u8>>>,
)
    requires
        same_up_to_end(t1, t2, p),
        0 <= j <= p,
    ensures
        ident_list_tail(t1, j, acc) == ident_list_tail(t2, j, acc),
        ident_list_tail(t1, j, acc) is Some ==> j < ident_list_tail(t1, j, acc)->Some_0.1 <= p,
    decreases t1.len() - j,
{
    if j < p {
        assert(t1[j] == t2[j]);
        if j + 1 < p {
            assert(t1[j + 1] == t2[j + 1]);
            lemma_ident_list_frame(t1, t2, p, j + 2, acc.push(ident_of(t1[j + 1])));
        }
    }
}

proof fn lemma_name_list_frame(
    t1: Seq<TokenV>,
    t2: Seq<TokenV>,
    p: int,
    j: int,
    acc: Seq<WithPos<NameV>>,
)
    requires
        same_up_to_end(t1, t2, p),
        0 <= j <= p,
    ensures
        name_list_tail(t1, j, acc) == name_list_tail(t2, j, acc),
        name_list_tail(t1, j, acc) is Some ==> j < name_list_tail(t1, j, acc)->Some_0.1 <= p,
    decreases t1.len() - j,
{
    if j < p {
        assert(t1[j] == t2[j]);
        lemma_name_frame(t1, t2, p, j + 1);
        match spec_name(t1, j + 1) {
            Some((n, e)) => {
                lemma_name_list_frame(t1, t2, p, e, acc.push(n));
            },
            None => {},
        }
    }
}

proof fn lemma_context_item_frame(t1: Seq<TokenV>, t2: Seq<TokenV>, p: int, j: int)
    requires
        same_up_to_end(t1, t2, p),
        0 <= j <= p,
    ensures
        spec_context_item(t1, j) == spec_context_item(t2, j),
        spec_context_item(t1, j) is Some ==> j < spec_context_item(t1, j)->Some_0.1 <= p,
{
    if j < p {
        assert(t1[j] == t2[j]);
        if j + 1 <= p {
            lemma_name_frame(t1, t2, p, j + 1);
            if j + 1 < p {
                assert(t1[j + 1] == t2[j + 1]);
                lemma_ident_list_frame(t1, t2, p, j + 2, seq![ident_of(t1[j + 1])]);
            }
            match spec_name(t1, j + 1) {
                Some((n, e)) => lemma_name_list_frame(t1, t2, p, e, seq![n]),
                None => {},
            }
        }
    }
}

proof fn lemma_context_items_frame(
    t1: Seq<TokenV>,
    t2: Seq<TokenV>,
    p: int,
    j: int,
    acc: Seq<ContextItemV>,
    ident: WithPos<Seq<u8>>,
)
    requires
        same_up_to_end(t1, t2, p),
        closing_spelling(t1, p, ident.item),
        closing_spelling(t2, p, ident.item),
        0 <= j <= p,
    ensures
        spec_context_items(t1, j, acc) is Some == spec_context_items(t2, j, acc) is Some,
        spec_context_items(t1, j, acc) is Some ==> {
            let r1 = spec_context_items(t1, j, acc)->Some_0;
            let r2 = spec_context_items(t2, j, acc)->Some_0;
            &&& r1.0 == r2.0
            &&& end_mismatch(ident, r1.1) == end_mismatch(ident, r2.1)
            &&& r1.2 > p ==> end_mismatch(ident, r1.1) is None
        },
    decreases t1.len() - j,
{
    if j == p {
        lemma_closing_spellings(t1, p, acc, ident);
        lemma_closing_spellings(t2, p, acc, ident);
    } else {
        assert(t1[j] == t2[j]);
        if is_kind(t1, j, Kind::End) {
            if j + 1 < p {
                assert(t1[j + 1] == t2[j + 1]);
            }
            if j + 2 < p {
                assert(t1[j + 2] == t2[j + 2]);
            }
            if j + 3 < p {
                assert(t1[j + 3] == t2[j + 3]);
            }
        } else {
            lemma_context_item_frame(t1, t2, p, j);
            match push_item(t1, j, acc, spec_context_item(t1, j)) {
                Some((acc2, e)) => {
                    lemma_context_items_frame(t1, t2, p, e, acc2, ident);
                },
                None => {},
            }
        }
    }
}

proof fn lemma_suffixes_keep_simple(t: Seq<TokenV>, n: WithPos<NameV>, j: int)
    requires
        name_suffixes(t, n, j) is Some,
        name_suffixes(t, n, j)->Some_0.0.item is Simple,
        !(n.item is Selected),
        !(n.item is SelectedAll),
    ensures
        name_suffixes(t, n, j)->Some_0.0 == n,
    decreases t.len() - j,
{
    if 0 <= j && is_kind(t, j, Kind::Dot) && j + 1 < t.len() {
        let tk = t[j + 1];
        let q = span(n.pos.start as int, tk.pos.end as int);
        if tk.kind == Kind::All {
            lemma_suffixes_not_simple(t, WithPos { item: NameV::SelectedAll(Box::new(n)), pos: q }, j + 2);
        } else {
            match designator_of(tk) {
                Some(d) => lemma_suffixes_not_simple(
                    t,
                    WithPos {
                        item: NameV::Selected(Box::new(n), WithPos { item: d, pos: tk.pos }),
                        pos: q,
                    },
                    j + 2,
                ),
                None => {},
            }
        }
    }
}

proof fn lemma_suffixes_not_simple(t: Seq<TokenV>, n: WithPos<NameV>, j: int)
    requires
        n.item is Selected || n.item is SelectedAll,
    ensures
        name_suffixes(t, n, j) is Some ==> !(name_suffixes(t, n, j)->Some_0.0.item is Simple),
    decreases t.len() - j,
{
    if 0 <= j && is_kind(t, j, Kind::Dot) && j + 1 < t.len() {
        let tk = t[j + 1];
        let q = span(n.pos.start as int, tk.pos.end as int);
        lemma_suffixes_not_simple(t, WithPos { item: NameV::SelectedAll(Box::new(n)), pos: q }, j + 2);
        match designator_of(tk) {
            Some(d) => lemma_suffixes_not_simple(
                t,
                WithPos {
                    item: NameV::Selected(Box::new(n), WithPos { item: d, pos: tk.pos }),
                    pos: q,
                },
                j + 2,
            ),
            None => {},
        }
    }
}

/// All four spellings of the closing tag close a context declaration alike:
/// two token sequences that hold the same declaration body before an `end`
/// at `p`, each closed there by `end;`, `end context;`, `end x;` or
/// `end context x;` with `x` the declared identifier, parse to the same
/// declaration with the same diagnostics; and when the declaration is the
/// one closed at `p`, to no diagnostic.
pub proof fn lemma_closing_tag_spellings(t1: Seq<TokenV>, t2: Seq<TokenV>, i: int, p: int)
    requires
        same_up_to_end(t1, t2, p),
        0 <= i,
        i + 1 < p,
        closing_spelling(t1, p, t1[i + 1].value),
        closing_spelling(t2, p, t1[i + 1].value),
    ensures
        spec_context(t1, i) is Some == spec_context(t2, i) is Some,
        spec_context(t1, i) is Some ==> spec_context(t1, i)->Some_0.0 == spec_context(t2, i)->Some_0.0
            && spec_context(t1, i)->Some_0.1 == spec_context(t2, i)->Some_0.1,
        spec_context(t1, i) is Some && spec_context(t1, i)->Some_0.2 > p && spec_context(
            t1,
            i,
        )->Some_0.0 is Declaration ==> spec_context(t1, i)->Some_0.1 == Seq::<
            WithPos<Seq<u8>>,
        >::empty(),
{
    assert(t1[i] == t2[i]);
    assert(t1[i + 1] == t2[i + 1]);
    lemma_name_frame(t1, t2, p, i + 1);
    match spec_name(t1, i + 1) {
        Some((n, e)) => {
            if n.item is Simple {
                match primary_name(t1[i + 1]) {
                    Some(n0) => lemma_suffixes_keep_simple(
                        t1,
                        WithPos { item: n0, pos: t1[i + 1].pos },
                        i + 2,
                    ),
                    None => {},
                }
            }
            if e < p {
                assert(t1[e] == t2[e]);
            }
            if e + 1 <= p {
                lemma_context_items_frame(
                    t1,
                    t2,
                    p,
                    e + 1,
                    Seq::empty(),
                    WithPos { item: t1[i + 1].value, pos: n.pos },
                );
            }
            lemma_name_list_frame(t1, t2, p, e, seq![n]);
        },
        None => {},
    }
}

} // verus!
