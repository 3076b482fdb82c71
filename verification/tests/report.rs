use doyoumarkdown::{
    all_empty_alt_text_markdown_images, all_empty_anchor_text_markdown_urls,
    all_empty_href_markdown_images, all_empty_href_markdown_urls,
    all_low_alt_text_markdown_images, all_markdown_images, all_markdown_urls, Document,
    MarkdownUrl,
};

#[test]
fn test_full_report() {
    let doc = Document::new(
        r#"# Example

Some prose without constructs.

![a very descriptive alt text here](i1)
![short alt](i2)
![](i3)
![image one with lots of descriptive words]()
![another image with plenty of words given]()

[a link](u1)
[](u2)
[another link]()
"#,
    );

    let results: Vec<MarkdownUrl> = vec![];
    let report_urls = all_markdown_urls(&doc);
    assert_eq!(report_urls.len(), 3);
    let report_images = all_markdown_images(&doc);
    assert_eq!(report_images.len(), 5);
    let report_empty_anchors = all_empty_anchor_text_markdown_urls(&doc);
    assert_eq!(report_empty_anchors.len(), 1);
    let report_empty_alt_text = all_empty_alt_text_markdown_images(&doc);
    assert_eq!(report_empty_alt_text.len(), 1);
    let report_low_alt_text = all_low_alt_text_markdown_images(&doc);
    assert_eq!(report_low_alt_text.len(), 2);
    let report_empty_href_anchors = all_empty_href_markdown_urls(&doc);
    assert_eq!(report_empty_href_anchors.len(), 1);
    let report_empty_href_images = all_empty_href_markdown_images(&doc);
    assert_eq!(report_empty_href_images.len(), 2, "report_empty_href_images");

    let results = results
        .into_iter()
        .chain(report_urls.into_iter())
        .chain(report_images.into_iter())
        .chain(report_empty_anchors.into_iter())
        .chain(report_empty_alt_text.into_iter())
        .chain(report_low_alt_text.into_iter())
        .collect::<Vec<MarkdownUrl>>();

    assert_eq!(results.len(), 12);
}
