use doyoumarkdown::{
    all_empty_alt_text_markdown_images, all_empty_anchor_text_markdown_urls,
    all_empty_href_markdown_images, all_empty_href_markdown_urls,
    all_low_alt_text_markdown_images, all_markdown_images, all_markdown_urls, brackets,
    low_alt_text_markdown_images, markdown_image, markdown_url, parens, Document, MarkdownUrl,
    MarkdownUrlIssueType, Span,
};

#[test]
fn no_brackets_means_no_findings() {
    let doc = Document::new("# A heading\n\nPlain prose! With (parens) and text, but no constructs.\n");

    assert!(all_markdown_images(&doc).is_empty());
    assert!(all_markdown_urls(&doc).is_empty());
    assert!(all_empty_alt_text_markdown_images(&doc).is_empty());
    assert!(all_empty_anchor_text_markdown_urls(&doc).is_empty());
    assert!(all_empty_href_markdown_urls(&doc).is_empty());
    assert!(all_empty_href_markdown_images(&doc).is_empty());
    assert!(all_low_alt_text_markdown_images(&doc).is_empty());
}

#[test]
fn images_found_one_per_occurrence_in_order() {
    let doc = Document::new("![a](1)![b](2) ![c](3)\n![d](4)");

    let results = all_markdown_images(&doc);

    assert_eq!(results.len(), 4);
    let mut last_offset = None;
    for (i, expected_alt) in ["a", "b", "c", "d"].iter().enumerate() {
        match results[i].issue_type {
            MarkdownUrlIssueType::FoundImage(span) => {
                assert_eq!(doc.fragment(span), expected_alt.chars().collect::<Vec<char>>());
                if let Some(prev) = last_offset {
                    assert!(prev < span.offset);
                }
                last_offset = Some(span.offset);
            }
            _ => panic!("expected a FoundImage finding"),
        }
    }
}

#[test]
fn bang_marks_a_construct_as_image_not_link() {
    let doc = Document::new("text ![only an image](target)");

    assert!(all_markdown_urls(&doc).is_empty());
    assert!(all_empty_anchor_text_markdown_urls(&doc).is_empty());
    assert!(all_empty_href_markdown_urls(&doc).is_empty());
    assert_eq!(all_markdown_images(&doc).len(), 1);

    let empty_image = Document::new("note ![]()");
    assert!(all_empty_anchor_text_markdown_urls(&empty_image).is_empty());
    assert!(all_empty_href_markdown_urls(&empty_image).is_empty());
    assert_eq!(all_empty_alt_text_markdown_images(&empty_image).len(), 1);
    assert_eq!(all_empty_href_markdown_images(&empty_image).len(), 1);
}

#[test]
fn detectors_are_idempotent() {
    let doc = Document::new("![a](1) [b](2) []() ![](3)\n[c]() plain!");

    let first: Vec<MarkdownUrl> = all_markdown_urls(&doc);
    let second: Vec<MarkdownUrl> = all_markdown_urls(&doc);
    assert_eq!(first, second);

    let first_images = all_markdown_images(&doc);
    let second_images = all_markdown_images(&doc);
    assert_eq!(first_images, second_images);

    let first_low = all_low_alt_text_markdown_images(&doc);
    let second_low = all_low_alt_text_markdown_images(&doc);
    assert_eq!(first_low, second_low);
}

#[test]
fn empty_pair_link_reported_by_both_link_detectors() {
    let doc = Document::new("[]()");

    let anchors = all_empty_anchor_text_markdown_urls(&doc);
    assert_eq!(anchors.len(), 1);
    assert!(matches!(anchors[0].issue_type, MarkdownUrlIssueType::EmptyAnchorText(_)));

    let hrefs = all_empty_href_markdown_urls(&doc);
    assert_eq!(hrefs.len(), 1);
    assert!(matches!(hrefs[0].issue_type, MarkdownUrlIssueType::EmptyAnchorHref(_)));
    assert_eq!(hrefs[0].href, Span { offset: 0, len: 0 });
}

#[test]
fn empty_pair_image_reported_by_both_image_detectors() {
    let doc = Document::new("![]()");

    let alts = all_empty_alt_text_markdown_images(&doc);
    assert_eq!(alts.len(), 1);
    assert!(matches!(alts[0].issue_type, MarkdownUrlIssueType::EmptyImageAltText(_)));

    let hrefs = all_empty_href_markdown_images(&doc);
    assert_eq!(hrefs.len(), 1);
    assert!(matches!(hrefs[0].issue_type, MarkdownUrlIssueType::FoundImage(_)));
    assert_eq!(hrefs[0].href, Span { offset: 0, len: 0 });
}

#[test]
fn four_words_are_low_five_are_not() {
    let four = Document::new("![one two three four](url)");
    let five = Document::new("![one two three four five](url)");

    assert_eq!(all_low_alt_text_markdown_images(&four).len(), 1);
    assert_eq!(all_low_alt_text_markdown_images(&five).len(), 0);
}

#[test]
fn low_alt_threshold_is_a_parameter() {
    let doc = Document::new("![one two](url)");

    assert_eq!(low_alt_text_markdown_images(&doc, 2).len(), 0);
    assert_eq!(low_alt_text_markdown_images(&doc, 3).len(), 1);

    let empty_alt = Document::new("![]()");
    assert_eq!(low_alt_text_markdown_images(&empty_alt, 0).len(), 0);
    assert_eq!(low_alt_text_markdown_images(&empty_alt, 1).len(), 1);
}

#[test]
fn scenario_counts_from_mixed_document() {
    let doc = Document::new(
        "![an image](some img url)\n[a regular url](find me)\n![](some img url)\n[](no href here)\n",
    );

    assert_eq!(all_markdown_images(&doc).len(), 2);
    assert_eq!(all_markdown_urls(&doc).len(), 2);
    assert_eq!(all_empty_alt_text_markdown_images(&doc).len(), 1);
    assert_eq!(all_empty_anchor_text_markdown_urls(&doc).len(), 1);
    assert_eq!(all_low_alt_text_markdown_images(&doc).len(), 2);
}

#[test]
fn found_url_href_is_sentinel_only_for_empty_parens() {
    let with_href = Document::new("[a](b)");
    let urls = all_markdown_urls(&with_href);
    assert_eq!(urls.len(), 1);
    assert!(matches!(urls[0].issue_type, MarkdownUrlIssueType::FoundUrl(_)));
    assert_eq!(with_href.fragment(urls[0].href), "b".chars().collect::<Vec<char>>());

    let without_href = Document::new("[a]()");
    let urls = all_markdown_urls(&without_href);
    assert_eq!(urls.len(), 1);
    assert_eq!(urls[0].href, Span { offset: 0, len: 0 });
}

#[test]
fn dangling_construct_is_skipped_and_scanning_continues() {
    let doc = Document::new("[a] b [c](d)");

    let urls = all_markdown_urls(&doc);
    assert_eq!(urls.len(), 1);
    match urls[0].issue_type {
        MarkdownUrlIssueType::FoundUrl(span) => {
            assert_eq!(doc.fragment(span), "c".chars().collect::<Vec<char>>());
        }
        _ => panic!("expected a FoundUrl finding"),
    }
}

#[test]
fn construct_matchers_report_spans_and_ends() {
    let doc = Document::new("[text](url) rest");

    let link = markdown_url(&doc, 0).unwrap();
    assert_eq!(doc.fragment(link.label.span), "text".chars().collect::<Vec<char>>());
    assert!(!link.label.empty);
    assert_eq!(doc.fragment(link.target.span), "url".chars().collect::<Vec<char>>());
    assert!(!link.target.empty);
    assert_eq!(link.next, 11);

    let image_doc = Document::new("![alt](img)");
    let image = markdown_image(&image_doc, 0).unwrap();
    assert_eq!(image_doc.fragment(image.label.span), "alt".chars().collect::<Vec<char>>());
    assert_eq!(image_doc.fragment(image.target.span), "img".chars().collect::<Vec<char>>());
    assert_eq!(image.next, 11);

    assert!(markdown_url(&doc, 1).is_none());
    assert!(markdown_image(&doc, 0).is_none());
}

#[test]
fn group_matchers_handle_empty_and_missing_closers() {
    let doc = Document::new("[]{}(x");

    let group = brackets(&doc, 0).unwrap();
    assert!(group.empty);
    assert_eq!(group.next, 2);

    assert!(parens(&doc, 4).is_none());
    assert!(brackets(&doc, 1).is_none());
}

#[test]
fn empty_pair_href_is_the_sentinel_for_every_detector() {
    let image = Document::new("![x]()");
    let images = all_markdown_images(&image);
    assert_eq!(images.len(), 1);
    assert_eq!(images[0].href, Span { offset: 0, len: 0 });
    let low = all_low_alt_text_markdown_images(&image);
    assert_eq!(low.len(), 1);
    assert_eq!(low[0].href, Span { offset: 0, len: 0 });

    let empty_alt = Document::new("![]()");
    let alts = all_empty_alt_text_markdown_images(&empty_alt);
    assert_eq!(alts.len(), 1);
    assert_eq!(alts[0].href, Span { offset: 0, len: 0 });

    let anchor = Document::new("[]()");
    let anchors = all_empty_anchor_text_markdown_urls(&anchor);
    assert_eq!(anchors.len(), 1);
    assert_eq!(anchors[0].href, Span { offset: 0, len: 0 });
}

#[test]
fn present_href_resolves_to_its_content() {
    let doc = Document::new("![](img) and [](url)");

    let alts = all_empty_alt_text_markdown_images(&doc);
    assert_eq!(alts.len(), 1);
    assert_eq!(doc.fragment(alts[0].href), "img".chars().collect::<Vec<char>>());

    let anchors = all_empty_anchor_text_markdown_urls(&doc);
    assert_eq!(anchors.len(), 1);
    assert_eq!(doc.fragment(anchors[0].href), "url".chars().collect::<Vec<char>>());
}

#[test]
fn words_split_on_unicode_whitespace() {
    let nbsp_five = Document::new("![one two three four\u{a0}five](u)");
    assert_eq!(all_low_alt_text_markdown_images(&nbsp_five).len(), 0);

    let ideographic_four = Document::new("![one two three\u{3000}four](u)");
    assert_eq!(all_low_alt_text_markdown_images(&ideographic_four).len(), 1);
}

#[test]
fn empty_document_yields_nothing() {
    let doc = Document::new("");

    assert!(all_markdown_images(&doc).is_empty());
    assert!(all_markdown_urls(&doc).is_empty());
    assert!(all_empty_alt_text_markdown_images(&doc).is_empty());
    assert!(all_empty_anchor_text_markdown_urls(&doc).is_empty());
    assert!(all_empty_href_markdown_urls(&doc).is_empty());
    assert!(all_empty_href_markdown_images(&doc).is_empty());
    assert!(all_low_alt_text_markdown_images(&doc).is_empty());
}

#[test]
fn offsets_count_characters_not_bytes() {
    let doc = Document::new("héllo ![ä](ü)");

    let images = all_markdown_images(&doc);
    assert_eq!(images.len(), 1);
    match images[0].issue_type {
        MarkdownUrlIssueType::FoundImage(span) => {
            assert_eq!(span.offset, 8);
            assert_eq!(span.len, 1);
            assert_eq!(doc.fragment(span), "ä".chars().collect::<Vec<char>>());
        }
        _ => panic!("expected a FoundImage finding"),
    }
    assert_eq!(doc.fragment(images[0].href), "ü".chars().collect::<Vec<char>>());
}

#[test]
fn positions_resolve_to_lines_and_columns() {
    let doc = Document::new("ab\ncde\nf");

    assert_eq!(doc.line_of(0), 1);
    assert_eq!(doc.col_of(0), 1);
    assert_eq!(doc.line_of(1), 1);
    assert_eq!(doc.col_of(1), 2);
    assert_eq!(doc.line_of(3), 2);
    assert_eq!(doc.col_of(3), 1);
    assert_eq!(doc.line_of(5), 2);
    assert_eq!(doc.col_of(5), 3);
    assert_eq!(doc.line_of(7), 3);
    assert_eq!(doc.col_of(7), 1);
}

#[test]
fn finding_spans_locate_issues_in_the_document() {
    let doc = Document::new("intro\n![pic](one)\n[link](two)\n");

    let images = all_markdown_images(&doc);
    assert_eq!(images.len(), 1);
    match images[0].issue_type {
        MarkdownUrlIssueType::FoundImage(span) => {
            assert_eq!(doc.line_of(span.offset), 2);
            assert_eq!(doc.col_of(span.offset), 3);
        }
        _ => panic!("expected a FoundImage finding"),
    }

    let urls = all_markdown_urls(&doc);
    assert_eq!(urls.len(), 1);
    match urls[0].issue_type {
        MarkdownUrlIssueType::FoundUrl(span) => {
            assert_eq!(doc.line_of(span.offset), 3);
            assert_eq!(doc.col_of(span.offset), 2);
        }
        _ => panic!("expected a FoundUrl finding"),
    }
}
