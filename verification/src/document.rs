use vstd::prelude::*;
use vstd::string::StrSliceExecFns;

verus! {

/// A contiguous region of a document's text: a start offset and a length,
/// both counted in characters from the start of the document.
///
/// Findings hold spans rather than copies of the text; the document they
/// were produced from resolves a span back to its text, its line and its
/// column.
#[derive(Clone, Copy, Debug, PartialEq, Eq, Structural)]
pub struct Span {
    pub offset: usize,
    pub len: usize,
}

impl Span {
    /// The span lies entirely within a text of `n` characters.
    pub open spec fn in_bounds(self, n: nat) -> bool {
        self.offset + self.len <= n
    }

    /// The zero-length sentinel span standing for an empty href.
    pub fn sentinel() -> (r: Span)
        ensures
            r == (Span { offset: 0usize, len: 0usize }),
    {
        Span { offset: 0, len: 0 }
    }
}

/// The full input text of one scan, held as a sequence of characters so
/// that every matched sub-slice can be addressed by character offset.
/// Immutable once constructed; detectors borrow it read-only.
pub struct Document {
    text: Vec<char>,
}

impl View for Document {
    type V = Seq<char>;

    closed spec fn view(&self) -> Seq<char> {
        self.text@
    }
}

/// The number of `'\n'` characters in `t` before position `end`.
pub open spec fn newlines_before(t: Seq<char>, end: int) -> nat
    decreases end,
{
    if end <= 0 || end > t.len() {
        0
    } else {
        newlines_before(t, end - 1) + (if t[end - 1] == '\n' {
            1nat
        } else {
            0nat
        })
    }
}

/// The position of the first character of the line that position `off`
/// lies on: either 0 or the position just after the last `'\n'` before
/// `off`.
pub open spec fn line_start(t: Seq<char>, off: int) -> int
    decreases off,
{
    if off <= 0 {
        0
    } else if t[off - 1] == '\n' {
        off
    } else {
        line_start(t, off - 1)
    }
}

/// A document's text is held in a vector, so its length always fits in
/// `usize`.
pub broadcast proof fn lemma_document_len_fits(d: &Document)
    ensures
        #[trigger] d@.len() <= usize::MAX,
{
    broadcast use vstd::std_specs::vec::axiom_spec_len;

    assert(vstd::std_specs::vec::spec_vec_len(&d.text) == d.text@.len());
}

impl Document {
    /// Builds a document from the full input text.
    pub fn new(s: &str) -> (d: Document)
        ensures
            d@ == s@,
    {
        let n = s.unicode_len();
        let mut text: Vec<char> = Vec::new();
        let mut i: usize = 0;
        while i < n
            invariant
                i <= n,
                n == s@.len(),
                text@ == s@.subrange(0, i as int),
            decreases n - i,
        {
            let c = s.get_char(i);
            text.push(c);
            proof {
                assert(s@.subrange(0, i + 1) =~= s@.subrange(0, i as int).push(s@[i as int]));
            }
            i = i + 1;
        }
        proof {
            assert(s@.subrange(0, n as int) =~= s@);
        }
        Document { text }
    }

    /// The length of the document in characters.
    pub fn len(&self) -> (n: usize)
        ensures
            n == self@.len(),
    {
        self.text.len()
    }

    pub fn char_at(&self, i: usize) -> (c: char)
        requires
            i < self@.len(),
        ensures
            c == self@[i as int],
    {
        self.text[i]
    }

    /// The text that a span refers to, copied out of the document.
    pub fn fragment(&self, sp: Span) -> (r: Vec<char>)
        requires
            sp.in_bounds(self@.len()),
        ensures
            r@ == self@.subrange(sp.offset as int, sp.offset + sp.len),
    {
        let n = self.len();
        let mut r: Vec<char> = Vec::new();
        let mut i: usize = 0;
        while i < sp.len
            invariant
                i <= sp.len,
                n == self@.len(),
                sp.offset + sp.len <= n,
                r@ == self@.subrange(sp.offset as int, sp.offset + i),
            decreases sp.len - i,
        {
            let c = self.char_at(sp.offset + i);
            r.push(c);
            proof {
                assert(self@.subrange(sp.offset as int, sp.offset + i + 1) =~= self@.subrange(
                    sp.offset as int,
                    sp.offset + i,
                ).push(self@[sp.offset + i]));
            }
            i = i + 1;
        }
        r
    }

    /// The 1-based line number of the character at `offset` (or, when
    /// `offset` is the document's length, of the end of the text).
    pub fn line_of(&self, offset: usize) -> (line: usize)
        requires
            offset <= self@.len(),
            self@.len() < usize::MAX,
        ensures
            line == newlines_before(self@, offset as int) + 1,
    {
        let mut count: usize = 0;
        let mut i: usize = 0;
        while i < offset
            invariant
                i <= offset,
                offset <= self@.len(),
                count == newlines_before(self@, i as int),
                count <= i,
            decreases offset - i,
        {
            if self.char_at(i) == '\n' {
                count = count + 1;
            }
            i = i + 1;
        }
        count + 1
    }

    /// The 1-based column of the character at `offset` within its line.
    pub fn col_of(&self, offset: usize) -> (col: usize)
        requires
            offset <= self@.len(),
            self@.len() < usize::MAX,
        ensures
            col == offset - line_start(self@, offset as int) + 1,
    {
        let mut j: usize = offset;
        while j > 0 && self.char_at(j - 1) != '\n'
            invariant
                j <= offset,
                offset <= self@.len(),
                line_start(self@, offset as int) == line_start(self@, j as int),
            decreases j,
        {
            j = j - 1;
        }
        offset - j + 1
    }
}

} // verus!
