use crate::document::{Document, Span};
use crate::tokens::{
    lemma_image_bounds, lemma_url_bounds, markdown_image, markdown_url, spec_markdown_image,
    spec_markdown_url, ConstructMatch,
};
use vstd::prelude::*;

verus! {

broadcast use crate::document::lemma_document_len_fits;

/// The word-count threshold under which alt text is judged too short to
/// be descriptive. Detectors that take no explicit threshold use this
/// value.
pub const DEFAULT_LOW_ALT_TEXT_WORDS: usize = 5;

/// Which class of issue a finding reports, carrying the span where the
/// issue was detected: the anchor-text span, the alt-text span, or, for
/// an empty pair, the span of its opening token.
#[derive(Clone, Copy, Debug, PartialEq, Eq, Structural)]
pub enum MarkdownUrlIssueType {
    FoundImage(Span),
    FoundUrl(Span),
    EmptyAnchorText(Span),
    EmptyAnchorHref(Span),
    EmptyImageAltText(Span),
    LowImageAltText(Span),
}

/// One reported issue: its classification with the span it points at,
/// and the href of the construct it was found in. The href is the
/// zero-length sentinel span when the href itself is the missing thing.
#[derive(Clone, Copy, Debug, PartialEq, Eq, Structural)]
pub struct MarkdownUrl {
    pub issue_type: MarkdownUrlIssueType,
    pub href: Span,
}

/// The detectors: each one scans for a single class of issue.
#[derive(Clone, Copy, Debug, PartialEq, Eq, Structural)]
pub enum DetectorKind {
    AllImages,
    AllUrls,
    EmptyAltImages,
    EmptyAnchorUrls,
    EmptyHrefUrls,
    EmptyHrefImages,
    LowAltImages,
}

/// Whether the detector looks for image constructs (`![alt](url)`)
/// rather than plain link constructs (`[text](url)`).
pub open spec fn is_image_kind(kind: DetectorKind) -> bool {
    match kind {
        DetectorKind::AllImages => true,
        DetectorKind::AllUrls => false,
        DetectorKind::EmptyAltImages => true,
        DetectorKind::EmptyAnchorUrls => false,
        DetectorKind::EmptyHrefUrls => false,
        DetectorKind::EmptyHrefImages => true,
        DetectorKind::LowAltImages => true,
    }
}

/// Whether the trigger marker of `kind` stands at position `q`: `[` for
/// the link detectors, `![` for the image detectors, and the empty pairs
/// `[]` and `![]` for the empty-anchor-text and empty-alt-text
/// detectors.
pub open spec fn trigger_at(t: Seq<char>, q: int, kind: DetectorKind) -> bool {
    match kind {
        DetectorKind::AllUrls => 0 <= q && q + 1 <= t.len() && t[q] == '[',
        DetectorKind::EmptyHrefUrls => 0 <= q && q + 1 <= t.len() && t[q] == '[',
        DetectorKind::AllImages => 0 <= q && q + 2 <= t.len() && t[q] == '!' && t[q + 1] == '[',
        DetectorKind::EmptyHrefImages => 0 <= q && q + 2 <= t.len() && t[q] == '!' && t[q + 1]
            == '[',
        DetectorKind::LowAltImages => 0 <= q && q + 2 <= t.len() && t[q] == '!' && t[q + 1] == '[',
        DetectorKind::EmptyAnchorUrls => 0 <= q && q + 2 <= t.len() && t[q] == '[' && t[q + 1]
            == ']',
        DetectorKind::EmptyAltImages => 0 <= q && q + 3 <= t.len() && t[q] == '!' && t[q + 1]
            == '[' && t[q + 2] == ']',
    }
}

/// The least position at or after `from` where the trigger marker of
/// `kind` stands, if any.
pub open spec fn find_trigger(t: Seq<char>, from: int, kind: DetectorKind) -> Option<int>
    decreases t.len() - from,
{
    if from < 0 || from >= t.len() {
        None
    } else if trigger_at(t, from, kind) {
        Some(from)
    } else {
        find_trigger(t, from + 1, kind)
    }
}

/// What `find_trigger` returns is the first trigger occurrence at or
/// after `from`, and `None` only when there is none.
pub proof fn lemma_find_trigger(t: Seq<char>, from: int, kind: DetectorKind)
    requires
        0 <= from,
    ensures
        match find_trigger(t, from, kind) {
            Some(q) => from <= q < t.len() && trigger_at(t, q, kind) && forall|k: int|
                from <= k < q ==> !trigger_at(t, k, kind),
            None => forall|k: int| from <= k < t.len() ==> !trigger_at(t, k, kind),
        },
    decreases t.len() - from,
{
    if from < 0 || from >= t.len() {
    } else if trigger_at(t, from, kind) {
    } else {
        lemma_find_trigger(t, from + 1, kind);
    }
}

/// The construct a detector tries to match at a trigger position.
pub open spec fn construct_at(t: Seq<char>, q: int, kind: DetectorKind) -> Option<ConstructMatch> {
    if is_image_kind(kind) {
        spec_markdown_image(t, q)
    } else {
        spec_markdown_url(t, q)
    }
}

/// Whitespace for the purpose of splitting alt text into words: the
/// Unicode white-space characters.
pub open spec fn is_space(c: char) -> bool {
    c == ' ' || c == '\t' || c == '\n' || c == '\r' || c == '\u{b}' || c == '\u{c}'
        || c == '\u{85}' || c == '\u{a0}' || c == '\u{1680}' || c == '\u{2000}'
        || c == '\u{2001}' || c == '\u{2002}' || c == '\u{2003}' || c == '\u{2004}'
        || c == '\u{2005}' || c == '\u{2006}' || c == '\u{2007}' || c == '\u{2008}'
        || c == '\u{2009}' || c == '\u{200a}' || c == '\u{2028}' || c == '\u{2029}'
        || c == '\u{202f}' || c == '\u{205f}' || c == '\u{3000}'
}

/// The number of whitespace-separated words in `t[i..end]`: the number
/// of positions in that range where a word starts. `after_gap` says
/// whether position `i` follows whitespace or the start of the text.
pub open spec fn words_in_range(t: Seq<char>, i: int, end: int, after_gap: bool) -> nat
    decreases end - i,
{
    if i < 0 || i >= end || end > t.len() {
        0
    } else {
        (if after_gap && !is_space(t[i]) {
            1nat
        } else {
            0nat
        }) + words_in_range(t, i + 1, end, is_space(t[i]))
    }
}

/// The word count of a construct's bracket content: zero for the empty
/// pair, else the word count of the content span.
pub open spec fn label_words(t: Seq<char>, c: ConstructMatch) -> nat {
    if c.label.empty {
        0
    } else {
        words_in_range(
            t,
            c.label.span.offset as int,
            c.label.span.offset + c.label.span.len,
            true,
        )
    }
}

/// The disambiguation rule for the link detectors: a bracket at `q`
/// opens a plain link only when the character immediately before it is
/// not `!`, which would mark the construct as an image.
pub open spec fn no_bang_before(t: Seq<char>, q: int) -> bool {
    q <= 0 || t[q - 1] != '!'
}

/// The inclusion predicate of each detector, applied to a construct
/// matched at trigger position `q`.
pub open spec fn included(
    t: Seq<char>,
    q: int,
    c: ConstructMatch,
    kind: DetectorKind,
    threshold: usize,
) -> bool {
    match kind {
        DetectorKind::AllImages => true,
        DetectorKind::AllUrls => no_bang_before(t, q),
        DetectorKind::EmptyAltImages => true,
        DetectorKind::EmptyAnchorUrls => no_bang_before(t, q),
        DetectorKind::EmptyHrefUrls => no_bang_before(t, q) && c.target.empty,
        DetectorKind::EmptyHrefImages => c.target.empty,
        DetectorKind::LowAltImages => label_words(t, c) < threshold,
    }
}

/// The href text a finding carries: the target group's content span,
/// or the zero-length sentinel when the target is the empty pair `()`
/// and there is no href text to resolve.
pub open spec fn href_span(c: ConstructMatch) -> Span {
    if c.target.empty {
        Span { offset: 0usize, len: 0usize }
    } else {
        c.target.span
    }
}

/// The finding each detector reports for an included construct: which
/// issue variant, pointing at the construct's bracket span, and which
/// href it carries — always the sentinel where the href is the missing
/// thing.
pub open spec fn finding_for(c: ConstructMatch, kind: DetectorKind) -> MarkdownUrl {
    match kind {
        DetectorKind::AllImages => MarkdownUrl {
            issue_type: MarkdownUrlIssueType::FoundImage(c.label.span),
            href: href_span(c),
        },
        DetectorKind::AllUrls => MarkdownUrl {
            issue_type: MarkdownUrlIssueType::FoundUrl(c.label.span),
            href: href_span(c),
        },
        DetectorKind::EmptyAltImages => MarkdownUrl {
            issue_type: MarkdownUrlIssueType::EmptyImageAltText(c.label.span),
            href: href_span(c),
        },
        DetectorKind::EmptyAnchorUrls => MarkdownUrl {
            issue_type: MarkdownUrlIssueType::EmptyAnchorText(c.label.span),
            href: href_span(c),
        },
        DetectorKind::EmptyHrefUrls => MarkdownUrl {
            issue_type: MarkdownUrlIssueType::EmptyAnchorHref(c.label.span),
            href: Span { offset: 0usize, len: 0usize },
        },
        DetectorKind::EmptyHrefImages => MarkdownUrl {
            issue_type: MarkdownUrlIssueType::FoundImage(c.label.span),
            href: Span { offset: 0usize, len: 0usize },
        },
        DetectorKind::LowAltImages => MarkdownUrl {
            issue_type: MarkdownUrlIssueType::LowImageAltText(c.label.span),
            href: href_span(c),
        },
    }
}

/// One left-to-right scan of detector `kind` over `t`, starting at
/// `pos`: skip to the next occurrence of the trigger marker; where the
/// construct match fails there, retry just past the trigger; where it
/// succeeds, report a finding when the detector's predicate admits it,
/// and continue past the construct's closing paren.
pub open spec fn scan(t: Seq<char>, pos: int, kind: DetectorKind, threshold: usize) -> Seq<
    MarkdownUrl,
>
    decreases t.len() - pos,
        when 0 <= pos && t.len() <= usize::MAX
{
    match find_trigger(t, pos, kind) {
        None => Seq::empty(),
        Some(q) => {
            proof {
                lemma_find_trigger(t, pos, kind);
            }
            match construct_at(t, q, kind) {
                None => scan(t, q + 1, kind, threshold),
                Some(c) => {
                    proof {
                        if is_image_kind(kind) {
                            lemma_image_bounds(t, q);
                        } else {
                            lemma_url_bounds(t, q);
                        }
                    }
                    if included(t, q, c, kind, threshold) {
                        seq![finding_for(c, kind)] + scan(t, c.next as int, kind, threshold)
                    } else {
                        scan(t, c.next as int, kind, threshold)
                    }
                },
            }
        },
    }
}

fn is_space_char(c: char) -> (b: bool)
    ensures
        b == is_space(c),
{
    c == ' ' || c == '\t' || c == '\n' || c == '\r' || c == '\u{b}' || c == '\u{c}'
        || c == '\u{85}' || c == '\u{a0}' || c == '\u{1680}' || c == '\u{2000}'
        || c == '\u{2001}' || c == '\u{2002}' || c == '\u{2003}' || c == '\u{2004}'
        || c == '\u{2005}' || c == '\u{2006}' || c == '\u{2007}' || c == '\u{2008}'
        || c == '\u{2009}' || c == '\u{200a}' || c == '\u{2028}' || c == '\u{2029}'
        || c == '\u{202f}' || c == '\u{205f}' || c == '\u{3000}'
}

/// Counts the whitespace-separated words in `doc[start..end]`.
fn words_between(doc: &Document, start: usize, end: usize) -> (n: usize)
    requires
        start <= end <= doc@.len(),
    ensures
        n == words_in_range(doc@, start as int, end as int, true),
{
    let mut count: usize = 0;
    let mut gap: bool = true;
    let mut i: usize = start;
    while i < end
        invariant
            start <= i <= end <= doc@.len(),
            count <= i - start,
            count + words_in_range(doc@, i as int, end as int, gap) == words_in_range(
                doc@,
                start as int,
                end as int,
                true,
            ),
        decreases end - i,
    {
        let c = doc.char_at(i);
        if gap && !is_space_char(c) {
            count = count + 1;
        }
        gap = is_space_char(c);
        i = i + 1;
    }
    count
}

fn no_bang_exec(doc: &Document, q: usize) -> (b: bool)
    requires
        q <= doc@.len(),
    ensures
        b == no_bang_before(doc@, q as int),
{
    q == 0 || doc.char_at(q - 1) != '!'
}

/// Whether the trigger marker of `kind` stands at position `q`.
fn trigger_here(doc: &Document, q: usize, kind: DetectorKind) -> (b: bool)
    ensures
        b == trigger_at(doc@, q as int, kind),
{
    let n = doc.len();
    match kind {
        DetectorKind::AllUrls => q < n && doc.char_at(q) == '[',
        DetectorKind::EmptyHrefUrls => q < n && doc.char_at(q) == '[',
        DetectorKind::AllImages => q < n && doc.char_at(q) == '!' && q + 1 < n && doc.char_at(
            q + 1,
        ) == '[',
        DetectorKind::EmptyHrefImages => q < n && doc.char_at(q) == '!' && q + 1 < n
            && doc.char_at(q + 1) == '[',
        DetectorKind::LowAltImages => q < n && doc.char_at(q) == '!' && q + 1 < n && doc.char_at(
            q + 1,
        ) == '[',
        DetectorKind::EmptyAnchorUrls => q < n && doc.char_at(q) == '[' && q + 1 < n
            && doc.char_at(q + 1) == ']',
        DetectorKind::EmptyAltImages => q < n && doc.char_at(q) == '!' && q + 1 < n
            && doc.char_at(q + 1) == '[' && q + 2 < n && doc.char_at(q + 2) == ']',
    }
}

/// Finds the next trigger occurrence of `kind` at or after `from`.
fn next_trigger(doc: &Document, from: usize, kind: DetectorKind) -> (r: Option<usize>)
    ensures
        match r {
            Some(q) => find_trigger(doc@, from as int, kind) == Some(q as int) && from <= q && q
                < doc@.len(),
            None => find_trigger(doc@, from as int, kind) is None,
        },
{
    let n = doc.len();
    let mut j: usize = from;
    while j < n
        invariant
            from <= j,
            n == doc@.len(),
            find_trigger(doc@, from as int, kind) == find_trigger(doc@, j as int, kind),
        decreases n - j,
    {
        if trigger_here(doc, j, kind) {
            return Some(j);
        }
        j = j + 1;
    }
    None
}

/// Tries the construct match of `kind` at position `q`.
fn match_construct(doc: &Document, q: usize, kind: DetectorKind) -> (r: Option<ConstructMatch>)
    ensures
        r == construct_at(doc@, q as int, kind),
{
    match kind {
        DetectorKind::AllImages => markdown_image(doc, q),
        DetectorKind::EmptyAltImages => markdown_image(doc, q),
        DetectorKind::EmptyHrefImages => markdown_image(doc, q),
        DetectorKind::LowAltImages => markdown_image(doc, q),
        DetectorKind::AllUrls => markdown_url(doc, q),
        DetectorKind::EmptyAnchorUrls => markdown_url(doc, q),
        DetectorKind::EmptyHrefUrls => markdown_url(doc, q),
    }
}

/// Applies the inclusion predicate of `kind` to a construct matched at
/// trigger position `q`.
fn included_exec(
    doc: &Document,
    q: usize,
    c: &ConstructMatch,
    kind: DetectorKind,
    threshold: usize,
) -> (b: bool)
    requires
        q < doc@.len(),
        construct_at(doc@, q as int, kind) == Some(*c),
    ensures
        b == included(doc@, q as int, *c, kind, threshold),
{
    match kind {
        DetectorKind::AllImages => true,
        DetectorKind::EmptyAltImages => true,
        DetectorKind::AllUrls => no_bang_exec(doc, q),
        DetectorKind::EmptyAnchorUrls => no_bang_exec(doc, q),
        DetectorKind::EmptyHrefUrls => no_bang_exec(doc, q) && c.target.empty,
        DetectorKind::EmptyHrefImages => c.target.empty,
        DetectorKind::LowAltImages => {
            if c.label.empty {
                threshold > 0
            } else {
                proof {
                    lemma_image_bounds(doc@, q as int);
                }
                let w = words_between(
                    doc,
                    c.label.span.offset,
                    c.label.span.offset + c.label.span.len,
                );
                w < threshold
            }
        },
    }
}

/// The href a finding carries for construct `c`.
fn href_of(c: &ConstructMatch) -> (r: Span)
    ensures
        r == href_span(*c),
{
    if c.target.empty {
        Span::sentinel()
    } else {
        c.target.span
    }
}

/// Builds the finding that `kind` reports for construct `c`.
fn make_finding(c: &ConstructMatch, kind: DetectorKind) -> (r: MarkdownUrl)
    ensures
        r == finding_for(*c, kind),
{
    match kind {
        DetectorKind::AllImages => MarkdownUrl {
            issue_type: MarkdownUrlIssueType::FoundImage(c.label.span),
            href: href_of(c),
        },
        DetectorKind::AllUrls => MarkdownUrl {
            issue_type: MarkdownUrlIssueType::FoundUrl(c.label.span),
            href: href_of(c),
        },
        DetectorKind::EmptyAltImages => MarkdownUrl {
            issue_type: MarkdownUrlIssueType::EmptyImageAltText(c.label.span),
            href: href_of(c),
        },
        DetectorKind::EmptyAnchorUrls => MarkdownUrl {
            issue_type: MarkdownUrlIssueType::EmptyAnchorText(c.label.span),
            href: href_of(c),
        },
        DetectorKind::EmptyHrefUrls => MarkdownUrl {
            issue_type: MarkdownUrlIssueType::EmptyAnchorHref(c.label.span),
            href: Span::sentinel(),
        },
        DetectorKind::EmptyHrefImages => MarkdownUrl {
            issue_type: MarkdownUrlIssueType::FoundImage(c.label.span),
            href: Span::sentinel(),
        },
        DetectorKind::LowAltImages => MarkdownUrl {
            issue_type: MarkdownUrlIssueType::LowImageAltText(c.label.span),
            href: href_of(c),
        },
    }
}

/// Runs one detector over the whole document and returns exactly the
/// findings of its scan, in document order.
pub fn run_detector(doc: &Document, kind: DetectorKind, threshold: usize) -> (r: Vec<MarkdownUrl>)
    ensures
        r@ == scan(doc@, 0, kind, threshold),
{
    let ghost t = doc@;
    let mut findings: Vec<MarkdownUrl> = Vec::new();
    let mut pos: usize = 0;
    loop
        invariant
            pos <= t.len(),
            t == doc@,
            scan(t, 0, kind, threshold) == findings@ + scan(t, pos as int, kind, threshold),
        ensures
            findings@ == scan(t, 0, kind, threshold),
        decreases t.len() - pos,
    {
        match next_trigger(doc, pos, kind) {
            None => {
                proof {
                    assert(scan(t, pos as int, kind, threshold) =~= Seq::<MarkdownUrl>::empty());
                    assert(findings@ + Seq::<MarkdownUrl>::empty() =~= findings@);
                }
                break ;
            },
            Some(q) => {
                proof {
                    lemma_find_trigger(t, pos as int, kind);
                }
                match match_construct(doc, q, kind) {
                    None => {
                        proof {
                            assert(scan(t, pos as int, kind, threshold) == scan(
                                t,
                                q + 1,
                                kind,
                                threshold,
                            ));
                        }
                        pos = q + 1;
                    },
                    Some(c) => {
                        proof {
                            if is_image_kind(kind) {
                                lemma_image_bounds(t, q as int);
                            } else {
                                lemma_url_bounds(t, q as int);
                            }
                        }
                        if included_exec(doc, q, &c, kind, threshold) {
                            let f = make_finding(&c, kind);
                            proof {
                                assert(scan(t, pos as int, kind, threshold) == seq![
                                    finding_for(c, kind),
                                ] + scan(t, c.next as int, kind, threshold));
                                assert(findings@.push(f) =~= findings@ + seq![f]);
                                assert((findings@ + seq![f]) + scan(t, c.next as int, kind, threshold)
                                    =~= findings@ + (seq![f] + scan(t, c.next as int, kind, threshold)));
                            }
                            findings.push(f);
                        } else {
                            proof {
                                assert(scan(t, pos as int, kind, threshold) == scan(
                                    t,
                                    c.next as int,
                                    kind,
                                    threshold,
                                ));
                            }
                        }
                        pos = c.next;
                    },
                }
            },
        }
    }
    findings
}

/// Every image construct occurrence reachable by the scan, reported as
/// a `FoundImage` finding at its alt-text span, with its href.
pub fn all_markdown_images(doc: &Document) -> (r: Vec<MarkdownUrl>)
    ensures
        r@ == scan(doc@, 0, DetectorKind::AllImages, 0),
{
    run_detector(doc, DetectorKind::AllImages, 0)
}

/// Every plain link construct not marked as an image by a preceding
/// `!`, reported as a `FoundUrl` finding at its anchor-text span; the
/// href is the sentinel where the paren pair is empty.
pub fn all_markdown_urls(doc: &Document) -> (r: Vec<MarkdownUrl>)
    ensures
        r@ == scan(doc@, 0, DetectorKind::AllUrls, 0),
{
    run_detector(doc, DetectorKind::AllUrls, 0)
}

/// Every image construct whose alt text is the empty pair `![]`,
/// reported as an `EmptyImageAltText` finding.
pub fn all_empty_alt_text_markdown_images(doc: &Document) -> (r: Vec<MarkdownUrl>)
    ensures
        r@ == scan(doc@, 0, DetectorKind::EmptyAltImages, 0),
{
    run_detector(doc, DetectorKind::EmptyAltImages, 0)
}

/// Every plain link construct whose anchor text is the empty pair `[]`,
/// reported as an `EmptyAnchorText` finding.
pub fn all_empty_anchor_text_markdown_urls(doc: &Document) -> (r: Vec<MarkdownUrl>)
    ensures
        r@ == scan(doc@, 0, DetectorKind::EmptyAnchorUrls, 0),
{
    run_detector(doc, DetectorKind::EmptyAnchorUrls, 0)
}

/// Every plain link construct whose href is the empty pair `()`,
/// reported as an `EmptyAnchorHref` finding with the sentinel href.
pub fn all_empty_href_markdown_urls(doc: &Document) -> (r: Vec<MarkdownUrl>)
    ensures
        r@ == scan(doc@, 0, DetectorKind::EmptyHrefUrls, 0),
{
    run_detector(doc, DetectorKind::EmptyHrefUrls, 0)
}

/// Every image construct whose href is the empty pair `()`, reported as
/// a `FoundImage` finding with the sentinel href.
pub fn all_empty_href_markdown_images(doc: &Document) -> (r: Vec<MarkdownUrl>)
    ensures
        r@ == scan(doc@, 0, DetectorKind::EmptyHrefImages, 0),
{
    run_detector(doc, DetectorKind::EmptyHrefImages, 0)
}

/// Every image construct whose alt text has fewer than `threshold`
/// whitespace-separated words, reported as a `LowImageAltText` finding.
pub fn low_alt_text_markdown_images(doc: &Document, threshold: usize) -> (r: Vec<MarkdownUrl>)
    ensures
        r@ == scan(doc@, 0, DetectorKind::LowAltImages, threshold),
{
    run_detector(doc, DetectorKind::LowAltImages, threshold)
}

/// `low_alt_text_markdown_images` at the default threshold.
pub fn all_low_alt_text_markdown_images(doc: &Document) -> (r: Vec<MarkdownUrl>)
    ensures
        r@ == scan(doc@, 0, DetectorKind::LowAltImages, DEFAULT_LOW_ALT_TEXT_WORDS),
{
    low_alt_text_markdown_images(doc, DEFAULT_LOW_ALT_TEXT_WORDS)
}

} // verus!
