//! A small linting engine for Markdown text. It recognizes the two
//! constructs `[text](url)` and `![alt](url)` and reports structural
//! issues in them: missing anchor text, missing alt text, missing href
//! targets, and alt text judged too short to be descriptive.
//!
//! Callers build a [`Document`] from the full input text and run any of
//! the detectors over it; each detector returns its findings in document
//! order as a `Vec<MarkdownUrl>`.

mod detect;
mod document;
mod laws;
mod tokens;

pub use detect::{
    all_empty_alt_text_markdown_images, all_empty_anchor_text_markdown_urls,
    all_empty_href_markdown_images, all_empty_href_markdown_urls,
    all_low_alt_text_markdown_images, all_markdown_images, all_markdown_urls,
    href_span, low_alt_text_markdown_images, run_detector, DetectorKind, MarkdownUrl,
    MarkdownUrlIssueType,
    DEFAULT_LOW_ALT_TEXT_WORDS,
};
pub use document::{Document, Span};
pub use laws::{
    finding_at, from_some_construct, issue_span, lemma_bang_link_is_image,
    lemma_detector_deterministic, lemma_image_scan_steps_over_construct, lemma_link_finding_no_bang,
    lemma_no_brackets_no_findings,
    lemma_scan_findings_from_constructs, lemma_scan_in_document, lemma_scan_ordered,
};
pub use tokens::{
    brackets, empty_brackets_pair, empty_markdown_image_bracket_pair, empty_parens_pair,
    left_bracket, left_markdown_image_bracket, left_parens, markdown_image,
    markdown_image_brackets, markdown_url, non_empty_brackets,
    non_empty_markdown_image_bracket_pair, non_empty_parens, parens, right_bracket,
    right_parens, ConstructMatch, GroupMatch, Token,
};
