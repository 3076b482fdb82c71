use crate::document::{Document, Span};
use vstd::prelude::*;

verus! {

broadcast use crate::document::lemma_document_len_fits;

/// One recognized token: the span it covers (or, for a delimited group,
/// the span of its content) and the position just after everything the
/// recognizer consumed.
#[derive(Clone, Copy, Debug, PartialEq, Eq, Structural)]
pub struct Token {
    pub span: Span,
    pub next: usize,
}

/// A matched bracket or paren group. When the group is the empty pair
/// (`[]`, `![]` or `()`), `empty` is true and `span` covers the opening
/// token; otherwise `span` covers the content between the delimiters.
#[derive(Clone, Copy, Debug, PartialEq, Eq, Structural)]
pub struct GroupMatch {
    pub span: Span,
    pub empty: bool,
    pub next: usize,
}

/// One recognized link or image construct: the bracket group holding the
/// anchor or alt text, the paren group holding the href, and the position
/// just after the closing paren.
#[derive(Clone, Copy, Debug, PartialEq, Eq, Structural)]
pub struct ConstructMatch {
    pub label: GroupMatch,
    pub target: GroupMatch,
    pub next: usize,
}

/// The least index at or after `from` that holds the character `c`, if
/// any; `None` when `from` is negative or past the end.
pub open spec fn find_char(t: Seq<char>, from: int, c: char) -> Option<int>
    decreases t.len() - from,
{
    if from < 0 || from >= t.len() {
        None
    } else if t[from] == c {
        Some(from)
    } else {
        find_char(t, from + 1, c)
    }
}

/// What `find_char` returns is the first occurrence of `c` at or after
/// `from`, and `None` only when there is none.
pub proof fn lemma_find_char(t: Seq<char>, from: int, c: char)
    requires
        0 <= from,
    ensures
        match find_char(t, from, c) {
            Some(j) => from <= j < t.len() && t[j] == c && forall|k: int|
                from <= k < j ==> t[k] != c,
            None => forall|k: int| from <= k < t.len() ==> t[k] != c,
        },
    decreases t.len() - from,
{
    if from < 0 || from >= t.len() {
    } else if t[from] == c {
    } else {
        lemma_find_char(t, from + 1, c);
    }
}

/// Recognizes the single character `c` at position `at`.
pub open spec fn spec_tag1(t: Seq<char>, at: int, c: char) -> Option<Token> {
    if 0 <= at < t.len() && t[at] == c {
        Some(
            Token {
                span: Span { offset: at as usize, len: 1 as usize },
                next: (at + 1) as usize,
            },
        )
    } else {
        None
    }
}

/// Recognizes the two-character image opener `![` at position `at`.
pub open spec fn spec_image_open(t: Seq<char>, at: int) -> Option<Token> {
    if 0 <= at && at + 2 <= t.len() && t[at] == '!' && t[at + 1] == '[' {
        Some(
            Token {
                span: Span { offset: at as usize, len: 2 as usize },
                next: (at + 2) as usize,
            },
        )
    } else {
        None
    }
}

/// Recognizes the empty pair `c_open c_close` at `at`; the token covers
/// the opening character alone.
pub open spec fn spec_empty_pair(t: Seq<char>, at: int, c_open: char, c_close: char) -> Option<
    Token,
> {
    if 0 <= at && at + 2 <= t.len() && t[at] == c_open && t[at + 1] == c_close {
        Some(
            Token {
                span: Span { offset: at as usize, len: 1 as usize },
                next: (at + 2) as usize,
            },
        )
    } else {
        None
    }
}

/// Recognizes `c_open`, then at least one character that is not
/// `c_close`, then `c_close`; the token covers the content.
pub open spec fn spec_non_empty_pair(t: Seq<char>, at: int, c_open: char, c_close: char) -> Option<
    Token,
> {
    if 0 <= at < t.len() && t[at] == c_open {
        match find_char(t, at + 1, c_close) {
            Some(m) => if m > at + 1 {
                Some(
                    Token {
                        span: Span { offset: (at + 1) as usize, len: (m - at - 1) as usize },
                        next: (m + 1) as usize,
                    },
                )
            } else {
                None
            },
            None => None,
        }
    } else {
        None
    }
}

/// A bracket or paren group at `at`: the empty pair, or the opener, the
/// content up to the first closer, and the closer.
pub open spec fn spec_group(t: Seq<char>, at: int, c_open: char, c_close: char) -> Option<
    GroupMatch,
> {
    if 0 <= at < t.len() && t[at] == c_open {
        match find_char(t, at + 1, c_close) {
            Some(m) => Some(
                if m == at + 1 {
                    GroupMatch {
                        span: Span { offset: at as usize, len: 1 as usize },
                        empty: true,
                        next: (m + 1) as usize,
                    }
                } else {
                    GroupMatch {
                        span: Span { offset: (at + 1) as usize, len: (m - at - 1) as usize },
                        empty: false,
                        next: (m + 1) as usize,
                    }
                },
            ),
            None => None,
        }
    } else {
        None
    }
}

/// An image bracket group at `at`: `![`, then as for a bracket group.
/// When empty, the span covers the two-character opener `![`.
pub open spec fn spec_image_group(t: Seq<char>, at: int) -> Option<GroupMatch> {
    if 0 <= at && at + 2 <= t.len() && t[at] == '!' && t[at + 1] == '[' {
        match find_char(t, at + 2, ']') {
            Some(m) => Some(
                if m == at + 2 {
                    GroupMatch {
                        span: Span { offset: at as usize, len: 2 as usize },
                        empty: true,
                        next: (m + 1) as usize,
                    }
                } else {
                    GroupMatch {
                        span: Span { offset: (at + 2) as usize, len: (m - at - 2) as usize },
                        empty: false,
                        next: (m + 1) as usize,
                    }
                },
            ),
            None => None,
        }
    } else {
        None
    }
}

/// A link construct at `at`: a bracket group immediately followed by a
/// paren group.
pub open spec fn spec_markdown_url(t: Seq<char>, at: int) -> Option<ConstructMatch> {
    match spec_group(t, at, '[', ']') {
        Some(b) => match spec_group(t, b.next as int, '(', ')') {
            Some(p) => Some(ConstructMatch { label: b, target: p, next: p.next }),
            None => None,
        },
        None => None,
    }
}

/// An image construct at `at`: an image bracket group immediately
/// followed by a paren group.
pub open spec fn spec_markdown_image(t: Seq<char>, at: int) -> Option<ConstructMatch> {
    match spec_image_group(t, at) {
        Some(b) => match spec_group(t, b.next as int, '(', ')') {
            Some(p) => Some(ConstructMatch { label: b, target: p, next: p.next }),
            None => None,
        },
        None => None,
    }
}

/// Finds the first occurrence of `c` at or after `from`.
pub fn find_char_from(doc: &Document, from: usize, c: char) -> (r: Option<usize>)
    ensures
        match r {
            Some(j) => find_char(doc@, from as int, c) == Some(j as int),
            None => find_char(doc@, from as int, c) is None,
        },
{
    let n = doc.len();
    let mut j: usize = from;
    while j < n
        invariant
            from <= j,
            n == doc@.len(),
            find_char(doc@, from as int, c) == find_char(doc@, j as int, c),
        decreases n - j,
    {
        if doc.char_at(j) == c {
            return Some(j);
        }
        j = j + 1;
    }
    None
}

fn tag1(doc: &Document, at: usize, c: char) -> (r: Option<Token>)
    ensures
        r == spec_tag1(doc@, at as int, c),
{
    if at < doc.len() && doc.char_at(at) == c {
        Some(Token { span: Span { offset: at, len: 1 }, next: at + 1 })
    } else {
        None
    }
}

/// Recognizes a literal `(` at `at`.
pub fn left_parens(doc: &Document, at: usize) -> (r: Option<Token>)
    ensures
        r == spec_tag1(doc@, at as int, '('),
{
    tag1(doc, at, '(')
}

/// Recognizes a literal `)` at `at`.
pub fn right_parens(doc: &Document, at: usize) -> (r: Option<Token>)
    ensures
        r == spec_tag1(doc@, at as int, ')'),
{
    tag1(doc, at, ')')
}

/// Recognizes a literal `[` at `at`.
pub fn left_bracket(doc: &Document, at: usize) -> (r: Option<Token>)
    ensures
        r == spec_tag1(doc@, at as int, '['),
{
    tag1(doc, at, '[')
}

/// Recognizes a literal `]` at `at`.
pub fn right_bracket(doc: &Document, at: usize) -> (r: Option<Token>)
    ensures
        r == spec_tag1(doc@, at as int, ']'),
{
    tag1(doc, at, ']')
}

/// Recognizes the two-character image opener `![` at `at`.
pub fn left_markdown_image_bracket(doc: &Document, at: usize) -> (r: Option<Token>)
    ensures
        r == spec_image_open(doc@, at as int),
{
    if at < doc.len() && doc.char_at(at) == '!' && at + 1 < doc.len() && doc.char_at(at + 1)
        == '[' {
        Some(Token { span: Span { offset: at, len: 2 }, next: at + 2 })
    } else {
        None
    }
}

fn empty_pair(doc: &Document, at: usize, c_open: char, c_close: char) -> (r: Option<Token>)
    ensures
        r == spec_empty_pair(doc@, at as int, c_open, c_close),
{
    if at < doc.len() && doc.char_at(at) == c_open && at + 1 < doc.len() && doc.char_at(at + 1)
        == c_close {
        Some(Token { span: Span { offset: at, len: 1 }, next: at + 2 })
    } else {
        None
    }
}

fn non_empty_pair(doc: &Document, at: usize, c_open: char, c_close: char) -> (r: Option<Token>)
    ensures
        r == spec_non_empty_pair(doc@, at as int, c_open, c_close),
{
    if at < doc.len() && doc.char_at(at) == c_open {
        match find_char_from(doc, at + 1, c_close) {
            Some(m) => {
                proof {
                    lemma_find_char(doc@, at + 1, c_close);
                }
                if m > at + 1 {
                    Some(Token { span: Span { offset: at + 1, len: m - at - 1 }, next: m + 1 })
                } else {
                    None
                }
            },
            None => None,
        }
    } else {
        None
    }
}

/// Recognizes the empty pair `()`; the token covers the `(`.
pub fn empty_parens_pair(doc: &Document, at: usize) -> (r: Option<Token>)
    ensures
        r == spec_empty_pair(doc@, at as int, '(', ')'),
{
    empty_pair(doc, at, '(', ')')
}

/// Recognizes `(`, content without `)`, then `)`; the token covers the
/// content.
pub fn non_empty_parens(doc: &Document, at: usize) -> (r: Option<Token>)
    ensures
        r == spec_non_empty_pair(doc@, at as int, '(', ')'),
{
    non_empty_pair(doc, at, '(', ')')
}

/// Recognizes the empty pair `[]`; the token covers the `[`.
pub fn empty_brackets_pair(doc: &Document, at: usize) -> (r: Option<Token>)
    ensures
        r == spec_empty_pair(doc@, at as int, '[', ']'),
{
    empty_pair(doc, at, '[', ']')
}

/// Recognizes `[`, content without `]`, then `]`; the token covers the
/// content.
pub fn non_empty_brackets(doc: &Document, at: usize) -> (r: Option<Token>)
    ensures
        r == spec_non_empty_pair(doc@, at as int, '[', ']'),
{
    non_empty_pair(doc, at, '[', ']')
}

/// Recognizes `![` immediately followed by `]`; the token covers the
/// `![`.
pub fn empty_markdown_image_bracket_pair(doc: &Document, at: usize) -> (r: Option<Token>)
    ensures
        r == (match spec_image_group(doc@, at as int) {
            Some(g) => if g.empty {
                Some(Token { span: g.span, next: g.next })
            } else {
                None
            },
            None => None,
        }),
{
    match left_markdown_image_bracket(doc, at) {
        Some(open) => {
            match right_bracket(doc, open.next) {
                Some(close) => {
                    proof {
                        assert(find_char(doc@, at + 2, ']') == Some(at + 2));
                    }
                    Some(Token { span: open.span, next: close.next })
                },
                None => {
                    proof {
                        lemma_find_char(doc@, at + 2, ']');
                    }
                    None
                },
            }
        },
        None => None,
    }
}

/// Recognizes `![`, content without `]`, then `]`; the token covers the
/// content.
pub fn non_empty_markdown_image_bracket_pair(doc: &Document, at: usize) -> (r: Option<Token>)
    ensures
        r == (match spec_image_group(doc@, at as int) {
            Some(g) => if !g.empty {
                Some(Token { span: g.span, next: g.next })
            } else {
                None
            },
            None => None,
        }),
{
    match left_markdown_image_bracket(doc, at) {
        Some(open) => {
            match find_char_from(doc, open.next, ']') {
                Some(m) => {
                    proof {
                        lemma_find_char(doc@, at + 2, ']');
                    }
                    if m > open.next {
                        Some(Token { span: Span { offset: at + 2, len: m - at - 2 }, next: m + 1 })
                    } else {
                        None
                    }
                },
                None => None,
            }
        },
        None => None,
    }
}

/// The image bracket group at `at`: the empty pair `![]`, or `![` with
/// content up to the first `]`.
pub fn markdown_image_brackets(doc: &Document, at: usize) -> (r: Option<GroupMatch>)
    ensures
        r == spec_image_group(doc@, at as int),
{
    if let Some(tok) = empty_markdown_image_bracket_pair(doc, at) {
        return Some(GroupMatch { span: tok.span, empty: true, next: tok.next });
    }
    if let Some(tok) = non_empty_markdown_image_bracket_pair(doc, at) {
        return Some(GroupMatch { span: tok.span, empty: false, next: tok.next });
    }
    None
}

fn group(doc: &Document, at: usize, c_open: char, c_close: char) -> (r: Option<GroupMatch>)
    ensures
        r == spec_group(doc@, at as int, c_open, c_close),
{
    if let Some(tok) = empty_pair(doc, at, c_open, c_close) {
        proof {
            assert(find_char(doc@, at + 1, c_close) == Some(at + 1));
        }
        return Some(GroupMatch { span: tok.span, empty: true, next: tok.next });
    }
    if let Some(tok) = non_empty_pair(doc, at, c_open, c_close) {
        proof {
            lemma_find_char(doc@, at + 1, c_close);
        }
        return Some(GroupMatch { span: tok.span, empty: false, next: tok.next });
    }
    proof {
        lemma_find_char(doc@, at + 1, c_close);
    }
    None
}

/// The bracket group at `at`: the empty pair `[]`, or `[` with content
/// up to the first `]`.
pub fn brackets(doc: &Document, at: usize) -> (r: Option<GroupMatch>)
    ensures
        r == spec_group(doc@, at as int, '[', ']'),
{
    group(doc, at, '[', ']')
}

/// The paren group at `at`: the empty pair `()`, or `(` with content up
/// to the first `)`.
pub fn parens(doc: &Document, at: usize) -> (r: Option<GroupMatch>)
    ensures
        r == spec_group(doc@, at as int, '(', ')'),
{
    group(doc, at, '(', ')')
}

/// The link construct at `at`: a bracket group immediately followed by a
/// paren group.
pub fn markdown_url(doc: &Document, at: usize) -> (r: Option<ConstructMatch>)
    ensures
        r == spec_markdown_url(doc@, at as int),
{
    match brackets(doc, at) {
        Some(b) => match parens(doc, b.next) {
            Some(p) => Some(ConstructMatch { label: b, target: p, next: p.next }),
            None => None,
        },
        None => None,
    }
}

/// The image construct at `at`: an image bracket group immediately
/// followed by a paren group.
pub fn markdown_image(doc: &Document, at: usize) -> (r: Option<ConstructMatch>)
    ensures
        r == spec_markdown_image(doc@, at as int),
{
    match markdown_image_brackets(doc, at) {
        Some(b) => match parens(doc, b.next) {
            Some(p) => Some(ConstructMatch { label: b, target: p, next: p.next }),
            None => None,
        },
        None => None,
    }
}

/// Everything a group match guarantees about its positions: the span lies
/// within the text, before `next`, and `next` does not pass the end.
pub proof fn lemma_group_bounds(t: Seq<char>, at: int, c_open: char, c_close: char)
    requires
        t.len() <= usize::MAX,
        spec_group(t, at, c_open, c_close) is Some,
    ensures
        ({
            let g = spec_group(t, at, c_open, c_close).unwrap();
            &&& 0 <= at
            &&& at <= g.span.offset <= at + 1
            &&& g.span.offset + g.span.len < g.next
            &&& at + 2 <= g.next <= t.len()
        }),
{
    lemma_find_char(t, at + 1, c_close);
}

/// The positions guaranteed by an image bracket group match.
pub proof fn lemma_image_group_bounds(t: Seq<char>, at: int)
    requires
        t.len() <= usize::MAX,
        spec_image_group(t, at) is Some,
    ensures
        ({
            let g = spec_image_group(t, at).unwrap();
            &&& 0 <= at
            &&& at <= g.span.offset <= at + 2
            &&& g.span.offset + g.span.len < g.next
            &&& at + 3 <= g.next <= t.len()
        }),
{
    lemma_find_char(t, at + 2, ']');
}

/// The positions guaranteed by a link construct match: both spans lie
/// within the text and before `next`, and the whole construct spans at
/// least `[]()`.
pub proof fn lemma_url_bounds(t: Seq<char>, at: int)
    requires
        t.len() <= usize::MAX,
        spec_markdown_url(t, at) is Some,
    ensures
        ({
            let c = spec_markdown_url(t, at).unwrap();
            &&& 0 <= at
            &&& at <= c.label.span.offset <= at + 1
            &&& c.label.span.offset + c.label.span.len < c.next
            &&& c.target.span.offset + c.target.span.len < c.next
            &&& at + 4 <= c.next <= t.len()
        }),
{
    let b = spec_group(t, at, '[', ']').unwrap();
    lemma_group_bounds(t, at, '[', ']');
    lemma_group_bounds(t, b.next as int, '(', ')');
}

/// The positions guaranteed by an image construct match.
pub proof fn lemma_image_bounds(t: Seq<char>, at: int)
    requires
        t.len() <= usize::MAX,
        spec_markdown_image(t, at) is Some,
    ensures
        ({
            let c = spec_markdown_image(t, at).unwrap();
            &&& 0 <= at
            &&& at <= c.label.span.offset <= at + 2
            &&& c.label.span.offset + c.label.span.len < c.next
            &&& c.target.span.offset + c.target.span.len < c.next
            &&& at + 5 <= c.next <= t.len()
        }),
{
    let b = spec_image_group(t, at).unwrap();
    lemma_image_group_bounds(t, at);
    lemma_group_bounds(t, b.next as int, '(', ')');
}

} // verus!
