use crate::detect::{
    construct_at, find_trigger, finding_for, included, is_image_kind, lemma_find_trigger,
    no_bang_before, scan, trigger_at, DetectorKind, MarkdownUrl, MarkdownUrlIssueType,
};
use crate::document::Span;
use crate::tokens::{
    lemma_image_bounds, lemma_url_bounds, spec_markdown_image, spec_markdown_url,
};
use vstd::prelude::*;

verus! {

/// The span a finding points at, whichever issue variant it carries.
pub open spec fn issue_span(f: MarkdownUrl) -> Span {
    match f.issue_type {
        MarkdownUrlIssueType::FoundImage(s) => s,
        MarkdownUrlIssueType::FoundUrl(s) => s,
        MarkdownUrlIssueType::EmptyAnchorText(s) => s,
        MarkdownUrlIssueType::EmptyAnchorHref(s) => s,
        MarkdownUrlIssueType::EmptyImageAltText(s) => s,
        MarkdownUrlIssueType::LowImageAltText(s) => s,
    }
}

/// Finding `f` is exactly what detector `kind` reports for the construct
/// matched at trigger position `q`.
pub open spec fn finding_at(
    t: Seq<char>,
    kind: DetectorKind,
    threshold: usize,
    q: int,
    f: MarkdownUrl,
) -> bool {
    &&& trigger_at(t, q, kind)
    &&& construct_at(t, q, kind) is Some
    &&& included(t, q, construct_at(t, q, kind).unwrap(), kind, threshold)
    &&& f == finding_for(construct_at(t, q, kind).unwrap(), kind)
}

proof fn lemma_no_bracket_no_trigger(t: Seq<char>, from: int, kind: DetectorKind)
    requires
        0 <= from,
        forall|i: int| 0 <= i < t.len() ==> t[i] != '[',
    ensures
        find_trigger(t, from, kind) is None,
    decreases t.len() - from,
{
    if from >= t.len() {
    } else {
        assert(!trigger_at(t, from, kind));
        lemma_no_bracket_no_trigger(t, from + 1, kind);
    }
}

/// Over a document with no occurrence of `[` (and so none of `![`),
/// every detector returns the empty sequence of findings.
pub proof fn lemma_no_brackets_no_findings(t: Seq<char>, kind: DetectorKind, threshold: usize)
    requires
        t.len() <= usize::MAX,
        forall|i: int| 0 <= i < t.len() ==> t[i] != '[',
    ensures
        scan(t, 0, kind, threshold) == Seq::<MarkdownUrl>::empty(),
{
    lemma_no_bracket_no_trigger(t, 0, kind);
}

/// Every finding of a scan lies within the document that produced it:
/// both the issue span and the href span end at or before the end of the
/// text, and the issue span starts no earlier than the scan position.
pub proof fn lemma_scan_in_document(t: Seq<char>, pos: int, kind: DetectorKind, threshold: usize)
    requires
        0 <= pos,
        t.len() <= usize::MAX,
    ensures
        forall|i: int| 0 <= i < scan(t, pos, kind, threshold).len() ==> {
            let f = #[trigger] scan(t, pos, kind, threshold)[i];
            &&& pos <= issue_span(f).offset
            &&& issue_span(f).offset + issue_span(f).len <= t.len()
            &&& f.href.offset + f.href.len <= t.len()
        },
    decreases t.len() - pos,
{
    match find_trigger(t, pos, kind) {
        None => {
        },
        Some(q) => {
            lemma_find_trigger(t, pos, kind);
            match construct_at(t, q, kind) {
                None => {
                    lemma_scan_in_document(t, q + 1, kind, threshold);
                    assert(scan(t, pos, kind, threshold) == scan(t, q + 1, kind, threshold));
                },
                Some(c) => {
                    if is_image_kind(kind) {
                        lemma_image_bounds(t, q);
                    } else {
                        lemma_url_bounds(t, q);
                    }
                    lemma_scan_in_document(t, c.next as int, kind, threshold);
                    if included(t, q, c, kind, threshold) {
                        let f0 = finding_for(c, kind);
                        let tail = scan(t, c.next as int, kind, threshold);
                        assert(scan(t, pos, kind, threshold) == seq![f0] + tail);
                        assert forall|i: int|
                            0 <= i < scan(t, pos, kind, threshold).len() implies {
                            let f = #[trigger] scan(t, pos, kind, threshold)[i];
                            &&& pos <= issue_span(f).offset
                            &&& issue_span(f).offset + issue_span(f).len <= t.len()
                            &&& f.href.offset + f.href.len <= t.len()
                        } by {
                            if i == 0 {
                                assert(scan(t, pos, kind, threshold)[0] == f0);
                            } else {
                                assert(scan(t, pos, kind, threshold)[i] == tail[i - 1]);
                            }
                        }
                    } else {
                        assert(scan(t, pos, kind, threshold) == scan(
                            t,
                            c.next as int,
                            kind,
                            threshold,
                        ));
                    }
                },
            }
        },
    }
}

/// Findings come in left-to-right document order: within one scan's
/// result, issue spans start at strictly increasing offsets.
pub proof fn lemma_scan_ordered(t: Seq<char>, pos: int, kind: DetectorKind, threshold: usize)
    requires
        0 <= pos,
        t.len() <= usize::MAX,
    ensures
        forall|i: int, j: int|
            0 <= i < j < scan(t, pos, kind, threshold).len() ==> issue_span(
                #[trigger] scan(t, pos, kind, threshold)[i],
            ).offset < issue_span(#[trigger] scan(t, pos, kind, threshold)[j]).offset,
    decreases t.len() - pos,
{
    match find_trigger(t, pos, kind) {
        None => {
        },
        Some(q) => {
            lemma_find_trigger(t, pos, kind);
            match construct_at(t, q, kind) {
                None => {
                    lemma_scan_ordered(t, q + 1, kind, threshold);
                    assert(scan(t, pos, kind, threshold) == scan(t, q + 1, kind, threshold));
                },
                Some(c) => {
                    if is_image_kind(kind) {
                        lemma_image_bounds(t, q);
                    } else {
                        lemma_url_bounds(t, q);
                    }
                    lemma_scan_ordered(t, c.next as int, kind, threshold);
                    lemma_scan_in_document(t, c.next as int, kind, threshold);
                    if included(t, q, c, kind, threshold) {
                        let f0 = finding_for(c, kind);
                        let tail = scan(t, c.next as int, kind, threshold);
                        assert(scan(t, pos, kind, threshold) == seq![f0] + tail);
                        assert forall|i: int, j: int|
                            0 <= i < j < scan(t, pos, kind, threshold).len() implies issue_span(
                            #[trigger] scan(t, pos, kind, threshold)[i],
                        ).offset < issue_span(
                            #[trigger] scan(t, pos, kind, threshold)[j],
                        ).offset by {
                            assert(scan(t, pos, kind, threshold)[j] == tail[j - 1]);
                            if i == 0 {
                                assert(scan(t, pos, kind, threshold)[0] == f0);
                                assert(issue_span(f0).offset < c.next);
                                assert(c.next <= issue_span(tail[j - 1]).offset);
                            } else {
                                assert(scan(t, pos, kind, threshold)[i] == tail[i - 1]);
                            }
                        }
                    } else {
                        assert(scan(t, pos, kind, threshold) == scan(
                            t,
                            c.next as int,
                            kind,
                            threshold,
                        ));
                    }
                },
            }
        },
    }
}

/// Finding `f` is what the detector reports for a construct matched at
/// some trigger occurrence at or after position `lo`.
pub open spec fn from_some_construct(
    t: Seq<char>,
    kind: DetectorKind,
    threshold: usize,
    lo: int,
    f: MarkdownUrl,
) -> bool {
    exists|q: int| lo <= q && #[trigger] finding_at(t, kind, threshold, q, f)
}

proof fn lemma_from_construct_weaken(
    t: Seq<char>,
    kind: DetectorKind,
    threshold: usize,
    lo1: int,
    lo2: int,
    f: MarkdownUrl,
)
    requires
        lo1 <= lo2,
        from_some_construct(t, kind, threshold, lo2, f),
    ensures
        from_some_construct(t, kind, threshold, lo1, f),
{
    let q = choose|q: int| lo2 <= q && #[trigger] finding_at(t, kind, threshold, q, f);
    assert(lo1 <= q && finding_at(t, kind, threshold, q, f));
}

/// Every finding of a scan is the finding its detector reports for some
/// construct matched at a trigger occurrence at or after the scan
/// position: detectors report nothing that does not come from a matched
/// construct admitted by their predicate.
pub proof fn lemma_scan_findings_from_constructs(
    t: Seq<char>,
    pos: int,
    kind: DetectorKind,
    threshold: usize,
)
    requires
        0 <= pos,
        t.len() <= usize::MAX,
    ensures
        forall|i: int|
            0 <= i < scan(t, pos, kind, threshold).len() ==> from_some_construct(
                t,
                kind,
                threshold,
                pos,
                #[trigger] scan(t, pos, kind, threshold)[i],
            ),
    decreases t.len() - pos,
{
    match find_trigger(t, pos, kind) {
        None => {
        },
        Some(q) => {
            lemma_find_trigger(t, pos, kind);
            match construct_at(t, q, kind) {
                None => {
                    lemma_scan_findings_from_constructs(t, q + 1, kind, threshold);
                    assert(scan(t, pos, kind, threshold) == scan(t, q + 1, kind, threshold));
                    assert forall|i: int|
                        0 <= i < scan(t, pos, kind, threshold).len() implies from_some_construct(
                        t,
                        kind,
                        threshold,
                        pos,
                        #[trigger] scan(t, pos, kind, threshold)[i],
                    ) by {
                        assert(scan(t, pos, kind, threshold)[i] == scan(
                            t,
                            q + 1,
                            kind,
                            threshold,
                        )[i]);
                        lemma_from_construct_weaken(
                            t,
                            kind,
                            threshold,
                            pos,
                            q + 1,
                            scan(t, pos, kind, threshold)[i],
                        );
                    }
                },
                Some(c) => {
                    if is_image_kind(kind) {
                        lemma_image_bounds(t, q);
                    } else {
                        lemma_url_bounds(t, q);
                    }
                    lemma_scan_findings_from_constructs(t, c.next as int, kind, threshold);
                    let tail = scan(t, c.next as int, kind, threshold);
                    if included(t, q, c, kind, threshold) {
                        let f0 = finding_for(c, kind);
                        assert(scan(t, pos, kind, threshold) == seq![f0] + tail);
                        assert forall|i: int|
                            0 <= i < scan(t, pos, kind, threshold).len() implies from_some_construct(
                            t,
                            kind,
                            threshold,
                            pos,
                            #[trigger] scan(t, pos, kind, threshold)[i],
                        ) by {
                            if i == 0 {
                                assert(scan(t, pos, kind, threshold)[0] == f0);
                                assert(finding_at(
                                    t,
                                    kind,
                                    threshold,
                                    q,
                                    scan(t, pos, kind, threshold)[0],
                                ));
                            } else {
                                assert(scan(t, pos, kind, threshold)[i] == scan(
                                    t,
                                    c.next as int,
                                    kind,
                                    threshold,
                                )[i - 1]);
                                lemma_from_construct_weaken(
                                    t,
                                    kind,
                                    threshold,
                                    pos,
                                    c.next as int,
                                    scan(t, pos, kind, threshold)[i],
                                );
                            }
                        }
                    } else {
                        assert(scan(t, pos, kind, threshold) == tail);
                        assert forall|i: int|
                            0 <= i < scan(t, pos, kind, threshold).len() implies from_some_construct(
                            t,
                            kind,
                            threshold,
                            pos,
                            #[trigger] scan(t, pos, kind, threshold)[i],
                        ) by {
                            assert(scan(t, pos, kind, threshold)[i] == scan(
                                t,
                                c.next as int,
                                kind,
                                threshold,
                            )[i]);
                            lemma_from_construct_weaken(
                                t,
                                kind,
                                threshold,
                                pos,
                                c.next as int,
                                scan(t, pos, kind, threshold)[i],
                            );
                        }
                    }
                },
            }
        },
    }
}

/// Where an image construct starts exactly at the scan position, the
/// image detector reports that occurrence first and continues just past
/// it. Applied end to end over text that is nothing but image
/// constructs, each occurrence yields exactly one finding, in
/// left-to-right document order.
pub proof fn lemma_image_scan_steps_over_construct(t: Seq<char>, pos: int, threshold: usize)
    requires
        0 <= pos,
        t.len() <= usize::MAX,
        spec_markdown_image(t, pos) is Some,
    ensures
        ({
            let c = spec_markdown_image(t, pos).unwrap();
            scan(t, pos, DetectorKind::AllImages, threshold) == seq![
                finding_for(c, DetectorKind::AllImages),
            ] + scan(t, c.next as int, DetectorKind::AllImages, threshold)
        }),
{
    let c = spec_markdown_image(t, pos).unwrap();
    lemma_image_bounds(t, pos);
    assert(trigger_at(t, pos, DetectorKind::AllImages));
    assert(find_trigger(t, pos, DetectorKind::AllImages) == Some(pos));
    assert(construct_at(t, pos, DetectorKind::AllImages) == Some(c));
    assert(included(t, pos, c, DetectorKind::AllImages, threshold));
}

/// The disambiguation rule, at the level of one finding: what a
/// link-class detector reports always comes from a bracket whose
/// immediately preceding character is not `!`.
pub proof fn lemma_link_finding_no_bang(
    t: Seq<char>,
    kind: DetectorKind,
    threshold: usize,
    q: int,
    f: MarkdownUrl,
)
    requires
        kind == DetectorKind::AllUrls || kind == DetectorKind::EmptyAnchorUrls || kind
            == DetectorKind::EmptyHrefUrls,
        finding_at(t, kind, threshold, q, f),
    ensures
        no_bang_before(t, q),
{
}

/// A link construct whose opening bracket is immediately preceded by `!`
/// is the tail of an image construct starting at that `!`: the image
/// match exists, shares the href group and the end position, and its alt
/// content is the link's anchor content.
pub proof fn lemma_bang_link_is_image(t: Seq<char>, q: int)
    requires
        t.len() <= usize::MAX,
        1 <= q,
        t[q - 1] == '!',
        spec_markdown_url(t, q) is Some,
    ensures
        spec_markdown_image(t, q - 1) is Some,
        ({
            let l = spec_markdown_url(t, q).unwrap();
            let m = spec_markdown_image(t, q - 1).unwrap();
            &&& m.target == l.target
            &&& m.next == l.next
            &&& m.label.empty == l.label.empty
            &&& !l.label.empty ==> m.label.span == l.label.span
        }),
{
    lemma_url_bounds(t, q);
}

/// Running the same detector twice over the same unmodified document
/// yields two identical finding sequences: each run returns exactly the
/// scan of the document's text, which depends on nothing else.
pub proof fn lemma_detector_deterministic(
    t: Seq<char>,
    kind: DetectorKind,
    threshold: usize,
    r1: Seq<MarkdownUrl>,
    r2: Seq<MarkdownUrl>,
)
    requires
        r1 == scan(t, 0, kind, threshold),
        r2 == scan(t, 0, kind, threshold),
    ensures
        r1 == r2,
{
}

} // verus!
