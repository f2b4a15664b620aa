use vstd::prelude::*;

verus! {

/// A half-open byte span `[start, end)` into one source text.
#[derive(Clone, Copy, PartialEq, Eq, Debug, Structural)]
pub struct SrcPos {
    pub start: usize,
    pub end: usize,
}

pub open spec fn span(start: int, end: int) -> SrcPos {
    SrcPos { start: start as usize, end: end as usize }
}

/// A value together with the source span it was read from.
#[derive(Clone, Debug, PartialEq, Eq)]
pub struct WithPos<T> {
    pub item: T,
    pub pos: SrcPos,
}

impl<T: View> View for WithPos<T> {
    type V = WithPos<T::V>;

    open spec fn view(&self) -> WithPos<T::V> {
        WithPos { item: self.item@, pos: self.pos }
    }
}

/// A positioned, human-readable report of a recoverable issue.
#[derive(Clone, Debug, PartialEq, Eq)]
pub struct Diagnostic {
    pub pos: SrcPos,
    pub message: Vec<u8>,
}

impl View for Diagnostic {
    type V = WithPos<Seq<u8>>;

    open spec fn view(&self) -> WithPos<Seq<u8>> {
        WithPos { item: self.message@, pos: self.pos }
    }
}

pub open spec fn diags_view(d: Seq<Diagnostic>) -> Seq<WithPos<Seq<u8>>> {
    d.map_values(|x: Diagnostic| x@)
}

/// Copies a byte slice into a fresh vector.
pub fn copy_bytes(s: &[u8]) -> (r: Vec<u8>)
    ensures
        r@ == s@,
{
    let mut r: Vec<u8> = Vec::new();
    let mut i: usize = 0;
    while i < s.len()
        invariant
            i <= s@.len(),
            r@ == s@.subrange(0, i as int),
        decreases s@.len() - i,
    {
        r.push(s[i]);
        i = i + 1;
        proof {
            assert(r@ =~= s@.subrange(0, i as int));
        }
    }
    proof {
        assert(r@ =~= s@);
    }
    r
}

/// Copies `s[start..end]` into a fresh vector.
pub fn copy_range(s: &[u8], start: usize, end: usize) -> (r: Vec<u8>)
    requires
        start <= end <= s@.len(),
    ensures
        r@ == s@.subrange(start as int, end as int),
{
    let mut r: Vec<u8> = Vec::new();
    let mut i: usize = start;
    while i < end
        invariant
            start <= i <= end,
            end <= s@.len(),
            r@ == s@.subrange(start as int, i as int),
        decreases end - i,
    {
        r.push(s[i]);
        i = i + 1;
        proof {
            assert(r@ =~= s@.subrange(start as int, i as int));
        }
    }
    r
}

/// Byte-wise equality of two slices.
pub fn bytes_eq(a: &[u8], b: &[u8]) -> (r: bool)
    ensures
        r == (a@ == b@),
{
    if a.len() != b.len() {
        return false;
    }
    let mut i: usize = 0;
    while i < a.len()
        invariant
            a@.len() == b@.len(),
            i <= a@.len(),
            forall|k: int| 0 <= k < i ==> a@[k] == b@[k],
        decreases a@.len() - i,
    {
        if a[i] != b[i] {
            return false;
        }
        i = i + 1;
    }
    proof {
        assert(a@ =~= b@);
    }
    true
}

/// The 1-based line and column of byte offset `k` in `src`: a line feed
/// starts a new line; every other byte takes one column.
pub open spec fn line_col(src: Seq<u8>, k: int) -> (int, int)
    decreases k,
{
    if k <= 0 {
        (1, 1)
    } else {
        let prev = line_col(src, k - 1);
        if src[k - 1] == 10 {
            (prev.0 + 1, 1)
        } else {
            (prev.0, prev.1 + 1)
        }
    }
}

/// The 1-based line and column at which byte offset `offset` of `src` stands.
pub fn line_and_column(src: &[u8], offset: usize) -> (r: (usize, usize))
    requires
        offset <= src@.len(),
        offset < usize::MAX,
    ensures
        (r.0 as int, r.1 as int) == line_col(src@, offset as int),
{
    let mut line: usize = 1;
    let mut col: usize = 1;
    let mut i: usize = 0;
    while i < offset
        invariant
            i <= offset <= src@.len(),
            offset < usize::MAX,
            (line as int, col as int) == line_col(src@, i as int),
            1 <= line <= i + 1,
            1 <= col <= i + 1,
        decreases offset - i,
    {
        if src[i] == 10 {
            line = line + 1;
            col = 1;
        } else {
            col = col + 1;
        }
        i = i + 1;
    }
    (line, col)
}

} // verus!
