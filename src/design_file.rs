use crate::alias_declaration::{parse_alias_declaration, spec_alias_declaration, AliasDeclaration, AliasDeclarationV};
use crate::context::{
    parse_context,
    parse_library_clause,
    parse_use_clause,
    spec_context,
    spec_library_clause,
    spec_use_clause,
    DeclarationOrReference,
    DeclarationOrReferenceV,
    LibraryClause,
    UseClause,
};
use crate::ast::NameV;
use crate::source::{diags_view, Diagnostic, WithPos};
use crate::tokenizer::{lex, Kind, TokenV};
use crate::tokenstream::{is_kind, ParseError, TokenStream};
use vstd::prelude::*;

verus! {

/// One top-level construct of a source file.
#[derive(Debug, PartialEq, Eq)]
pub enum DesignItem {
    Library(LibraryClause),
    Use(UseClause),
    Context(DeclarationOrReference),
    Alias(AliasDeclaration),
}

pub ghost enum DesignItemV {
    Library(Seq<WithPos<Seq<u8>>>),
    Use(Seq<WithPos<NameV>>),
    Context(DeclarationOrReferenceV),
    Alias(AliasDeclarationV),
}

impl View for DesignItem {
    type V = DesignItemV;

    open spec fn view(&self) -> DesignItemV {
        match self {
            DesignItem::Library(c) => DesignItemV::Library(c@),
            DesignItem::Use(c) => DesignItemV::Use(c@),
            DesignItem::Context(c) => DesignItemV::Context(c@),
            DesignItem::Alias(c) => DesignItemV::Alias(c@),
        }
    }
}

pub open spec fn design_items_view(s: Seq<DesignItem>) -> Seq<DesignItemV> {
    s.map_values(|d: DesignItem| d@)
}

/// What parsing one file gives: its items, or the syntax error that ended
/// the parse; and every diagnostic recorded before the parse ended.
#[derive(Debug, PartialEq, Eq)]
pub struct ParsedFile {
    pub items: Result<Vec<DesignItem>, ParseError>,
    pub diagnostics: Vec<Diagnostic>,
}

pub ghost struct ParsedFileV {
    pub items: Option<Seq<DesignItemV>>,
    pub diagnostics: Seq<WithPos<Seq<u8>>>,
}

impl View for ParsedFile {
    type V = ParsedFileV;

    open spec fn view(&self) -> ParsedFileV {
        ParsedFileV {
            items: match self.items {
                Ok(v) => Some(design_items_view(v@)),
                Err(_) => None,
            },
            diagnostics: diags_view(self.diagnostics@),
        }
    }
}

/// The top-level construct at index `j`, the diagnostics it gives, and where
/// it ends.
pub open spec fn spec_design_item(toks: Seq<TokenV>, j: int) -> Option<
    (DesignItemV, Seq<WithPos<Seq<u8>>>, int),
> {
    if is_kind(toks, j, Kind::Library) {
        match spec_library_clause(toks, j) {
            Some((c, e)) => Some((DesignItemV::Library(c), Seq::empty(), e)),
            None => None,
        }
    } else if is_kind(toks, j, Kind::Use) {
        match spec_use_clause(toks, j) {
            Some((c, e)) => Some((DesignItemV::Use(c), Seq::empty(), e)),
            None => None,
        }
    } else if is_kind(toks, j, Kind::Context) {
        match spec_context(toks, j) {
            Some((c, d, e)) => Some((DesignItemV::Context(c), d, e)),
            None => None,
        }
    } else if is_kind(toks, j, Kind::Alias) {
        match spec_alias_declaration(toks, j) {
            Some((c, e)) => Some((DesignItemV::Alias(c), Seq::empty(), e)),
            None => None,
        }
    } else {
        None
    }
}

/// The constructs from index `j` to the end, after `items` and `diags`; a
/// syntax error drops the items and keeps the diagnostics gathered so far.
pub open spec fn spec_design_items(
    toks: Seq<TokenV>,
    j: int,
    items: Seq<DesignItemV>,
    diags: Seq<WithPos<Seq<u8>>>,
) -> ParsedFileV
    decreases toks.len() - j,
{
    if j < 0 || j >= toks.len() {
        ParsedFileV { items: Some(items), diagnostics: diags }
    } else {
        match spec_design_item(toks, j) {
            Some((it, d, e)) => if j < e <= toks.len() {
                spec_design_items(toks, e, items.push(it), diags + d)
            } else {
                ParsedFileV { items: None, diagnostics: diags }
            },
            None => ParsedFileV { items: None, diagnostics: diags },
        }
    }
}

/// What parsing the source text `src` gives.
pub open spec fn spec_parse_file(src: Seq<u8>) -> ParsedFileV {
    spec_design_items(lex(src).0, 0, Seq::empty(), lex(src).1)
}

fn parse_design_item(stream: &mut TokenStream, messages: &mut Vec<Diagnostic>) -> (r: Result<
    DesignItem,
    ParseError,
>)
    requires
        old(stream).wf(),
    ensures
        old(stream).same_tokens(final(stream)),
        match spec_design_item(old(stream).toks(), old(stream).idx as int) {
            Some((v, d, e)) => r is Ok && r->Ok_0@ == v && final(stream).idx == e && diags_view(
                final(messages)@,
            ) == diags_view(old(messages)@) + d,
            None => r is Err,
        },
        r is Ok ==> final(stream).idx > old(stream).idx,
        r is Err ==> final(messages)@ == old(messages)@,
{
    let ghost m0 = diags_view(messages@);
    proof {
        assert(m0 + Seq::<WithPos<Seq<u8>>>::empty() =~= m0);
    }
    match stream.peek_kind() {
        Some(Kind::Library) => match parse_library_clause(stream) {
            Ok(c) => Ok(DesignItem::Library(c)),
            Err(e) => Err(e),
        },
        Some(Kind::Use) => match parse_use_clause(stream) {
            Ok(c) => Ok(DesignItem::Use(c)),
            Err(e) => Err(e),
        },
        Some(Kind::Context) => match parse_context(stream, messages) {
            Ok(c) => Ok(DesignItem::Context(c)),
            Err(e) => Err(e),
        },
        Some(Kind::Alias) => match parse_alias_declaration(stream) {
            Ok(c) => Ok(DesignItem::Alias(c)),
            Err(e) => Err(e),
        },
        _ => match stream.expect() {
            Ok(t) => Err(ParseError::UnexpectedToken(t.pos)),
            Err(e) => Err(e),
        },
    }
}

/// Parses one source file: lexes it, then reads top-level constructs up to
/// the end. A syntax error ends the parse and drops the items read so far;
/// the diagnostics recorded until then are kept.
pub fn parse_design_file(src: &[u8]) -> (r: ParsedFile)
    ensures
        r@ == spec_parse_file(src@),
{
    let (mut stream, mut diagnostics) = TokenStream::from_source(src);
    let mut items: Vec<DesignItem> = Vec::new();
    let ghost toks = stream.toks();
    proof {
        assert(design_items_view(items@) =~= Seq::<DesignItemV>::empty());
    }
    while stream.idx < stream.tokens.len()
        invariant
            stream.wf(),
            toks == stream.toks(),
            toks == lex(src@).0,
            spec_parse_file(src@) == spec_design_items(
                toks,
                stream.idx as int,
                design_items_view(items@),
                diags_view(diagnostics@),
            ),
        decreases stream.tokens@.len() - stream.idx,
    {
        let ghost j = stream.idx;
        let ghost i0 = design_items_view(items@);
        match parse_design_item(&mut stream, &mut diagnostics) {
            Ok(it) => {
                items.push(it);
                proof {
                    assert(design_items_view(items@) =~= i0.push(it@));
                }
            },
            Err(e) => {
                return ParsedFile { items: Err(e), diagnostics };
            },
        }
    }
    ParsedFile { items: Ok(items), diagnostics }
}

/// Parses every file of a project; each result is that of its file alone.
pub fn parse_files(files: &Vec<Vec<u8>>) -> (r: Vec<ParsedFile>)
    ensures
        r@.len() == files@.len(),
        forall|k: int| 0 <= k < files@.len() ==> #[trigger] r@[k]@ == spec_parse_file(files@[k]@),
{
    let mut r: Vec<ParsedFile> = Vec::new();
    let mut k: usize = 0;
    while k < files.len()
        invariant
            k <= files@.len(),
            r@.len() == k,
            forall|m: int| 0 <= m < k ==> #[trigger] r@[m]@ == spec_parse_file(files@[m]@),
        decreases files@.len() - k,
    {
        r.push(parse_design_file(files[k].as_slice()));
        k = k + 1;
    }
    r
}

/// Parsing is deterministic: the same text gives equal items and equal
/// diagnostics, every time it is parsed.
pub proof fn lemma_parse_deterministic(a: Seq<u8>, b: Seq<u8>)
    requires
        a == b,
    ensures
        spec_parse_file(a) == spec_parse_file(b),
{
}

/// What parsing each file of a list gives.
pub open spec fn parse_all(files: Seq<Seq<u8>>) -> Seq<ParsedFileV> {
    files.map_values(|f: Seq<u8>| spec_parse_file(f))
}

/// The order in which files are handed out does not change what they give:
/// parsing the files in any order (`reordered[k]` is `files[order[k]]`)
/// gives each file the result it has in the list's own order, so the items
/// and the diagnostics of the project are the same whichever worker took
/// which file, and when.
pub proof fn lemma_parse_order_independent(
    files: Seq<Seq<u8>>,
    order: Seq<int>,
    reordered: Seq<Seq<u8>>,
)
    requires
        order.len() == files.len(),
        reordered.len() == files.len(),
        forall|k: int| 0 <= k < order.len() ==> 0 <= #[trigger] order[k] < files.len(),
        forall|k: int| 0 <= k < order.len() ==> #[trigger] reordered[k] == files[order[k]],
    ensures
        forall|k: int|
            0 <= k < files.len() ==> #[trigger] parse_all(reordered)[k] == parse_all(files)[order[k]],
{
    assert forall|k: int| 0 <= k < files.len() implies #[trigger] parse_all(reordered)[k] == parse_all(
        files,
    )[order[k]] by {
        assert(reordered[k] == files[order[k]]);
    }
}

} // verus!
