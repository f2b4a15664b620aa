use crate::source::{copy_bytes, copy_range, bytes_eq, diags_view, span, Diagnostic, SrcPos, WithPos};
use vstd::prelude::*;
use vstd::string::StringSliceAdditionalSpecFns;

verus! {

/// The kinds of token the lexer produces.
#[derive(Clone, Copy, PartialEq, Eq, Debug, Structural)]
pub enum Kind {
    Identifier,
    StringLiteral,
    Character,
    AbstractLiteral,
    BitString,
    Library,
    Use,
    Context,
    Is,
    End,
    Alias,
    Return,
    To,
    Downto,
    All,
    Comma,
    SemiColon,
    Colon,
    Dot,
    Tick,
    LeftPar,
    RightPar,
    LeftSquare,
    RightSquare,
}

/// One lexical unit: its kind, its value and its span.
///
/// The value is the spelling for identifiers, keywords, abstract and
/// bit-string literals, and punctuation; for a string literal it is the text between the quotes with
/// doubled quotes collapsed; for a character literal it is the one byte.
#[derive(Clone, Debug, PartialEq, Eq)]
pub struct Token {
    pub kind: Kind,
    pub value: Vec<u8>,
    pub pos: SrcPos,
}

pub ghost struct TokenV {
    pub kind: Kind,
    pub value: Seq<u8>,
    pub pos: SrcPos,
}

impl View for Token {
    type V = TokenV;

    open spec fn view(&self) -> TokenV {
        TokenV { kind: self.kind, value: self.value@, pos: self.pos }
    }
}

pub open spec fn tokens_view(t: Seq<Token>) -> Seq<TokenV> {
    t.map_values(|x: Token| x@)
}

pub open spec fn is_letter(b: u8) -> bool {
    (65 <= b <= 90) || (97 <= b <= 122)
}

pub open spec fn is_digit(b: u8) -> bool {
    48 <= b <= 57
}

pub open spec fn is_word_byte(b: u8) -> bool {
    is_letter(b) || is_digit(b) || b == 95
}

pub open spec fn is_space(b: u8) -> bool {
    b == 32 || b == 9 || b == 10 || b == 13 || b == 12
}

/// The base specifiers that may open a bit-string literal: b, o, x.
pub open spec fn is_base(b: u8) -> bool {
    b == 98 || b == 66 || b == 111 || b == 79 || b == 120 || b == 88
}

pub open spec fn to_lower(b: u8) -> u8 {
    if 65 <= b <= 90 {
        (b + 32) as u8
    } else {
        b
    }
}

/// The first index at or after `j` that does not continue a word (or, with
/// `digits`, a run of decimal digits).
pub open spec fn run_end(src: Seq<u8>, j: int, digits: bool) -> int
    decreases src.len() - j,
{
    if 0 <= j < src.len() && (if digits {
        is_digit(src[j])
    } else {
        is_word_byte(src[j])
    }) {
        run_end(src, j + 1, digits)
    } else {
        j
    }
}

/// The index of the first line feed at or after `j`, or the length.
pub open spec fn line_end(src: Seq<u8>, j: int) -> int
    decreases src.len() - j,
{
    if 0 <= j < src.len() && src[j] != 10 {
        line_end(src, j + 1)
    } else if j < src.len() {
        j
    } else {
        src.len() as int
    }
}

/// Keywords are recognised without regard to letter case.
pub open spec fn keyword_kind(word: Seq<u8>) -> Option<Kind> {
    let w = word.map_values(|b: u8| to_lower(b));
    if w == "library".spec_bytes() {
        Some(Kind::Library)
    } else if w == "use".spec_bytes() {
        Some(Kind::Use)
    } else if w == "context".spec_bytes() {
        Some(Kind::Context)
    } else if w == "is".spec_bytes() {
        Some(Kind::Is)
    } else if w == "end".spec_bytes() {
        Some(Kind::End)
    } else if w == "alias".spec_bytes() {
        Some(Kind::Alias)
    } else if w == "return".spec_bytes() {
        Some(Kind::Return)
    } else if w == "to".spec_bytes() {
        Some(Kind::To)
    } else if w == "downto".spec_bytes() {
        Some(Kind::Downto)
    } else if w == "all".spec_bytes() {
        Some(Kind::All)
    } else {
        None
    }
}

pub open spec fn punct_kind(b: u8) -> Option<Kind> {
    if b == 44 {
        Some(Kind::Comma)
    } else if b == 59 {
        Some(Kind::SemiColon)
    } else if b == 58 {
        Some(Kind::Colon)
    } else if b == 46 {
        Some(Kind::Dot)
    } else if b == 40 {
        Some(Kind::LeftPar)
    } else if b == 41 {
        Some(Kind::RightPar)
    } else if b == 91 {
        Some(Kind::LeftSquare)
    } else if b == 93 {
        Some(Kind::RightSquare)
    } else {
        None
    }
}

pub open spec fn prepend(a: Seq<u8>, o: Option<(int, Seq<u8>)>) -> Option<(int, Seq<u8>)> {
    match o {
        Some((e, v)) => Some((e, a + v)),
        None => None,
    }
}

/// Scans the body of a string literal from `j` (just past the opening quote):
/// the index past the closing quote and the unescaped contents, or `None` when
/// a line feed or the end of the text comes first.
pub open spec fn string_scan(src: Seq<u8>, j: int) -> Option<(int, Seq<u8>)>
    decreases src.len() - j,
{
    if j < 0 || j >= src.len() || src[j] == 10 {
        None
    } else if src[j] == 34 {
        if j + 1 < src.len() && src[j + 1] == 34 {
            prepend(seq![34u8], string_scan(src, j + 2))
        } else {
            Some((j + 1, Seq::empty()))
        }
    } else {
        prepend(seq![src[j]], string_scan(src, j + 1))
    }
}

pub open spec fn tok(kind: Kind, value: Seq<u8>, start: int, end: int) -> TokenV {
    TokenV { kind, value, pos: span(start, end) }
}

pub open spec fn invalid_character_msg() -> Seq<u8> {
    "Invalid character".spec_bytes()
}

pub open spec fn unterminated_string_msg() -> Seq<u8> {
    "Unterminated string literal".spec_bytes()
}

/// What the lexer does at index `i`: where it goes on, and the token or the
/// diagnostic it produces there, if any.
pub open spec fn lex_step(src: Seq<u8>, i: int) -> (int, Option<TokenV>, Option<WithPos<Seq<u8>>>) {
    let b = src[i];
    if is_space(b) {
        (i + 1, None, None)
    } else if b == 45 && i + 1 < src.len() && src[i + 1] == 45 {
        (line_end(src, i), None, None)
    } else if is_base(b) && i + 1 < src.len() && src[i + 1] == 34 {
        match string_scan(src, i + 2) {
            Some((e, v)) => (e, Some(tok(Kind::BitString, src.subrange(i, e), i, e)), None),
            None => {
                let e = line_end(src, i);
                (e, None, Some(WithPos { item: unterminated_string_msg(), pos: span(i, e) }))
            },
        }
    } else if is_letter(b) {
        let e = run_end(src, i + 1, false);
        let w = src.subrange(i, e);
        let k = match keyword_kind(w) {
            Some(k) => k,
            None => Kind::Identifier,
        };
        (e, Some(tok(k, w, i, e)), None)
    } else if is_digit(b) {
        let e = run_end(src, i + 1, true);
        (e, Some(tok(Kind::AbstractLiteral, src.subrange(i, e), i, e)), None)
    } else if b == 34 {
        match string_scan(src, i + 1) {
            Some((e, v)) => (e, Some(tok(Kind::StringLiteral, v, i, e)), None),
            None => {
                let e = line_end(src, i);
                (e, None, Some(WithPos { item: unterminated_string_msg(), pos: span(i, e) }))
            },
        }
    } else if b == 39 && i + 2 < src.len() && src[i + 2] == 39 {
        (i + 3, Some(tok(Kind::Character, seq![src[i + 1]], i, i + 3)), None)
    } else if b == 39 {
        (i + 1, Some(tok(Kind::Tick, seq![b], i, i + 1)), None)
    } else {
        match punct_kind(b) {
            Some(k) => (i + 1, Some(tok(k, seq![b], i, i + 1)), None),
            None => (i + 1, None, Some(WithPos { item: invalid_character_msg(), pos: span(i, i + 1) })),
        }
    }
}

pub open spec fn opt_seq<T>(o: Option<T>) -> Seq<T> {
    match o {
        Some(x) => seq![x],
        None => Seq::empty(),
    }
}

/// The tokens and diagnostics of `src` from index `i` on.
pub open spec fn lex_from(src: Seq<u8>, i: int) -> (Seq<TokenV>, Seq<WithPos<Seq<u8>>>)
    decreases src.len() - i,
{
    if i < 0 || i >= src.len() {
        (Seq::empty(), Seq::empty())
    } else {
        let st = lex_step(src, i);
        if st.0 <= i || st.0 > src.len() {
            (Seq::empty(), Seq::empty())
        } else {
            let rest = lex_from(src, st.0);
            (opt_seq(st.1) + rest.0, opt_seq(st.2) + rest.1)
        }
    }
}

/// The tokens and diagnostics of a whole text.
pub open spec fn lex(src: Seq<u8>) -> (Seq<TokenV>, Seq<WithPos<Seq<u8>>>) {
    lex_from(src, 0)
}

fn lower_byte(b: u8) -> (r: u8)
    ensures
        r == to_lower(b),
{
    if 65 <= b && b <= 90 {
        b + 32
    } else {
        b
    }
}

fn is_word_byte_exec(b: u8, digits: bool) -> (r: bool)
    ensures
        r == (if digits {
            is_digit(b)
        } else {
            is_word_byte(b)
        }),
{
    if digits {
        48 <= b && b <= 57
    } else {
        (65 <= b && b <= 90) || (97 <= b && b <= 122) || (48 <= b && b <= 57) || b == 95
    }
}

fn scan_run(src: &[u8], j: usize, digits: bool) -> (r: usize)
    requires
        j <= src@.len(),
    ensures
        r == run_end(src@, j as int, digits),
        j <= r <= src@.len(),
{
    let mut k: usize = j;
    while k < src.len() && is_word_byte_exec(src[k], digits)
        invariant
            j <= k <= src@.len(),
            run_end(src@, k as int, digits) == run_end(src@, j as int, digits),
        decreases src@.len() - k,
    {
        k = k + 1;
    }
    k
}

fn scan_line(src: &[u8], j: usize) -> (r: usize)
    requires
        j <= src@.len(),
    ensures
        r == line_end(src@, j as int),
        j <= r <= src@.len(),
{
    let mut k: usize = j;
    while k < src.len() && src[k] != 10
        invariant
            j <= k <= src@.len(),
            line_end(src@, k as int) == line_end(src@, j as int),
        decreases src@.len() - k,
    {
        k = k + 1;
    }
    k
}

proof fn lemma_prepend_push(a: Seq<u8>, x: u8, o: Option<(int, Seq<u8>)>)
    ensures
        prepend(a, prepend(seq![x], o)) == prepend(a.push(x), o),
{
    match o {
        Some((e, v)) => {
            assert(a + (seq![x] + v) =~= a.push(x) + v);
        },
        None => {},
    }
}

fn scan_string(src: &[u8], j: usize) -> (r: Option<(usize, Vec<u8>)>)
    requires
        j <= src@.len(),
    ensures
        match r {
            Some((e, v)) => string_scan(src@, j as int) == Some((e as int, v@)) && j < e <= src@.len(),
            None => string_scan(src@, j as int) is None,
        },
{
    let mut acc: Vec<u8> = Vec::new();
    let mut k: usize = j;
    proof {
        assert(acc@ + Seq::<u8>::empty() =~= acc@);
        match string_scan(src@, k as int) {
            Some((e, v)) => assert(acc@ + v =~= v),
            None => {},
        }
    }
    loop
        invariant
            j <= k <= src@.len(),
            string_scan(src@, j as int) == prepend(acc@, string_scan(src@, k as int)),
        decreases src@.len() - k,
    {
        if k >= src.len() || src[k] == 10 {
            return None;
        }
        if src[k] == 34 {
            if k + 1 < src.len() && src[k + 1] == 34 {
                proof {
                    lemma_prepend_push(acc@, 34u8, string_scan(src@, k + 2));
                }
                acc.push(34);
                k = k + 2;
            } else {
                proof {
                    assert(acc@ + Seq::<u8>::empty() =~= acc@);
                }
                return Some((k + 1, acc));
            }
        } else {
            proof {
                lemma_prepend_push(acc@, src@[k as int], string_scan(src@, k + 1));
            }
            acc.push(src[k]);
            k = k + 1;
        }
    }
}

fn keyword_of(word: &[u8]) -> (r: Option<Kind>)
    ensures
        r == keyword_kind(word@),
{
    let mut w: Vec<u8> = Vec::new();
    let mut i: usize = 0;
    while i < word.len()
        invariant
            i <= word@.len(),
            w@ == word@.subrange(0, i as int).map_values(|b: u8| to_lower(b)),
        decreases word@.len() - i,
    {
        w.push(lower_byte(word[i]));
        i = i + 1;
        proof {
            assert(w@ =~= word@.subrange(0, i as int).map_values(|b: u8| to_lower(b)));
        }
    }
    proof {
        assert(word@.subrange(0, word@.len() as int) =~= word@);
    }
    let w = w.as_slice();
    if bytes_eq(w, "library".as_bytes()) {
        Some(Kind::Library)
    } else if bytes_eq(w, "use".as_bytes()) {
        Some(Kind::Use)
    } else if bytes_eq(w, "context".as_bytes()) {
        Some(Kind::Context)
    } else if bytes_eq(w, "is".as_bytes()) {
        Some(Kind::Is)
    } else if bytes_eq(w, "end".as_bytes()) {
        Some(Kind::End)
    } else if bytes_eq(w, "alias".as_bytes()) {
        Some(Kind::Alias)
    } else if bytes_eq(w, "return".as_bytes()) {
        Some(Kind::Return)
    } else if bytes_eq(w, "to".as_bytes()) {
        Some(Kind::To)
    } else if bytes_eq(w, "downto".as_bytes()) {
        Some(Kind::Downto)
    } else if bytes_eq(w, "all".as_bytes()) {
        Some(Kind::All)
    } else {
        None
    }
}

fn punct_of(b: u8) -> (r: Option<Kind>)
    ensures
        r == punct_kind(b),
{
    if b == 44 {
        Some(Kind::Comma)
    } else if b == 59 {
        Some(Kind::SemiColon)
    } else if b == 58 {
        Some(Kind::Colon)
    } else if b == 46 {
        Some(Kind::Dot)
    } else if b == 40 {
        Some(Kind::LeftPar)
    } else if b == 41 {
        Some(Kind::RightPar)
    } else if b == 91 {
        Some(Kind::LeftSquare)
    } else if b == 93 {
        Some(Kind::RightSquare)
    } else {
        None
    }
}

fn single(b: u8) -> (r: Vec<u8>)
    ensures
        r@ == seq![b],
{
    let mut v: Vec<u8> = Vec::new();
    v.push(b);
    proof {
        assert(v@ =~= seq![b]);
    }
    v
}

fn new_token(kind: Kind, value: Vec<u8>, start: usize, end: usize) -> (r: Token)
    ensures
        r@ == tok(kind, value@, start as int, end as int),
{
    Token { kind, value, pos: SrcPos { start, end } }
}

/// One step of the lexer at index `i`.
fn lex_one(src: &[u8], i: usize) -> (r: (usize, Option<Token>, Option<Diagnostic>))
    requires
        i < src@.len(),
    ensures
        i < r.0 <= src@.len(),
        lex_step(src@, i as int) == (
            r.0 as int,
            match r.1 {
                Some(t) => Some(t@),
                None => None,
            },
            match r.2 {
                Some(d) => Some(d@),
                None => None,
            },
        ),
{
    let b = src[i];
    if b == 32 || b == 9 || b == 10 || b == 13 || b == 12 {
        (i + 1, None, None)
    } else if b == 45 && i + 1 < src.len() && src[i + 1] == 45 {
        let e = scan_line(src, i + 1);
        assert(line_end(src@, i as int) == line_end(src@, i + 1));
        (e, None, None)
    } else if (b == 98 || b == 66 || b == 111 || b == 79 || b == 120 || b == 88) && src.len() - i
        > 1 && src[i + 1] == 34 {
        match scan_string(src, i + 2) {
            Some((e, _)) => (e, Some(new_token(Kind::BitString, copy_range(src, i, e), i, e)), None),
            None => {
                let e = scan_line(src, i + 1);
                assert(line_end(src@, i as int) == line_end(src@, i + 1));
                let m = copy_bytes("Unterminated string literal".as_bytes());
                (e, None, Some(Diagnostic { pos: SrcPos { start: i, end: e }, message: m }))
            },
        }
    } else if (65 <= b && b <= 90) || (97 <= b && b <= 122) {
        let e = scan_run(src, i + 1, false);
        let w = copy_range(src, i, e);
        let k = match keyword_of(w.as_slice()) {
            Some(k) => k,
            None => Kind::Identifier,
        };
        (e, Some(new_token(k, w, i, e)), None)
    } else if 48 <= b && b <= 57 {
        let e = scan_run(src, i + 1, true);
        let w = copy_range(src, i, e);
        (e, Some(new_token(Kind::AbstractLiteral, w, i, e)), None)
    } else if b == 34 {
        match scan_string(src, i + 1) {
            Some((e, v)) => (e, Some(new_token(Kind::StringLiteral, v, i, e)), None),
            None => {
                let e = scan_line(src, i + 1);
                assert(line_end(src@, i as int) == line_end(src@, i + 1));
                let m = copy_bytes("Unterminated string literal".as_bytes());
                (e, None, Some(Diagnostic { pos: SrcPos { start: i, end: e }, message: m }))
            },
        }
    } else if b == 39 && src.len() - i > 2 && src[i + 2] == 39 {
        (i + 3, Some(new_token(Kind::Character, single(src[i + 1]), i, i + 3)), None)
    } else if b == 39 {
        (i + 1, Some(new_token(Kind::Tick, single(b), i, i + 1)), None)
    } else {
        match punct_of(b) {
            Some(k) => (i + 1, Some(new_token(k, single(b), i, i + 1)), None),
            None => {
                let m = copy_bytes("Invalid character".as_bytes());
                (i + 1, None, Some(Diagnostic { pos: SrcPos { start: i, end: i + 1 }, message: m }))
            },
        }
    }
}

/// Turns a source text into its tokens, skipping white space and comments.
/// An invalid character or an unterminated string literal gives a diagnostic
/// and the lexer goes on after it.
pub fn tokenize(src: &[u8]) -> (r: (Vec<Token>, Vec<Diagnostic>))
    ensures
        (tokens_view(r.0@), diags_view(r.1@)) == lex(src@),
{
    let mut toks: Vec<Token> = Vec::new();
    let mut diags: Vec<Diagnostic> = Vec::new();
    let mut i: usize = 0;
    proof {
        assert(tokens_view(toks@) + lex_from(src@, 0).0 =~= lex_from(src@, 0).0);
        assert(diags_view(diags@) + lex_from(src@, 0).1 =~= lex_from(src@, 0).1);
    }
    while i < src.len()
        invariant
            i <= src@.len(),
            tokens_view(toks@) + lex_from(src@, i as int).0 == lex(src@).0,
            diags_view(diags@) + lex_from(src@, i as int).1 == lex(src@).1,
        decreases src@.len() - i,
    {
        let (n, t, d) = lex_one(src, i);
        let ghost ot = t;
        let ghost od = d;
        let ghost rest = lex_from(src@, n as int);
        let ghost tv0 = tokens_view(toks@);
        let ghost dv0 = diags_view(diags@);
        match t {
            Some(t) => {
                toks.push(t);
            },
            None => {},
        }
        match d {
            Some(d) => {
                diags.push(d);
            },
            None => {},
        }
        proof {
            match ot {
                Some(x) => {
                    assert(tokens_view(toks@) =~= tv0.push(x@));
                    assert(tv0 + (seq![x@] + rest.0) =~= tv0.push(x@) + rest.0);
                },
                None => {
                    assert(tokens_view(toks@) =~= tv0);
                    assert(Seq::<TokenV>::empty() + rest.0 =~= rest.0);
                },
            }
            match od {
                Some(x) => {
                    assert(diags_view(diags@) =~= dv0.push(x@));
                    assert(dv0 + (seq![x@] + rest.1) =~= dv0.push(x@) + rest.1);
                },
                None => {
                    assert(diags_view(diags@) =~= dv0);
                    assert(Seq::<WithPos<Seq<u8>>>::empty() + rest.1 =~= rest.1);
                },
            }
        }
        i = n;
    }
    proof {
        assert(tokens_view(toks@) + Seq::<TokenV>::empty() =~= tokens_view(toks@));
        assert(diags_view(diags@) + Seq::<WithPos<Seq<u8>>>::empty() =~= diags_view(diags@));
    }
    (toks, diags)
}

} // verus!
