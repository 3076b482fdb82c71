use doyoumarkdown::{
    all_empty_alt_text_markdown_images, all_empty_anchor_text_markdown_urls,
    all_empty_href_markdown_urls, all_low_alt_text_markdown_images, all_markdown_images,
    all_markdown_urls, Document, MarkdownUrlIssueType,
};

#[test]
fn test_find_all_images() {
    let doc = Document::new(
        r#"# Hi there
              ## A heading

              ![an image](some img url)
              ![an image](some img url)
              ![an image](some img url)

              [a regular url](please don't find me)"#,
    );

    let results = all_markdown_images(&doc);
    let count = results.len();

    assert_eq!(count, 3);
}

#[test]
fn test_find_all_links_empty_alt_text() {
    let doc = Document::new(
        r#"# Hi there\n\r
              ## A heading\n

              ![an image](please don't find me!)
                       [](please find me!)
              [](please find me!)

              [a regular url](find me)
    [another regular url](don't find me)
              "#,
    );

    let results = all_empty_anchor_text_markdown_urls(&doc);
    let count = results.len();
    for url in results {
        if let MarkdownUrlIssueType::EmptyAnchorText(v) = url.issue_type {
            assert_eq!(doc.fragment(v), "[".chars().collect::<Vec<char>>());
        }
    }

    assert_eq!(count, 2);
}

#[test]
fn test_find_all_images_empty_alt_text() {
    let doc = Document::new(
        r#"# Hi there
              ## A heading

              ![](some img url)
              ![an image](some img url)
              ![](some img url)
              ![an image with a decent alt text](some img url)
              ![](some img url)

              [a regular url](please don't find me)
              [a regular url](please don't find me)
              [a regular url](please don't find me)

              [a regular url but with enough alt text](def shouldn't find this one)
              [a regular url with enough](def shouldn't find this one)
              "#,
    );

    let results = all_empty_alt_text_markdown_images(&doc);

    for url in &results {
        if let MarkdownUrlIssueType::LowImageAltText(v) = url.issue_type {
            assert_eq!(doc.fragment(v), "an image".chars().collect::<Vec<char>>());
        }
    }

    let count = results.len();

    assert_eq!(count, 3);
}

#[test]
fn test_find_all_links_low_alt_text() {
    let doc = Document::new(
        r#"# Hi there
              ## A heading

              ![an image](some img url)
              ![an image](some img url)
              ![an image](some img url)
              ![an image with a decent alt text](some img url)
              ![another with just enough alt](some img url)

              [a regular url](please don't find me)
              [a regular url](please don't find me)
              [a regular url](please don't find me)

              [a regular url but with enough alt text](def shouldn't find this one)
              [a regular url with enough](def shouldn't find this one)
              "#,
    );

    let results = all_low_alt_text_markdown_images(&doc);

    for url in &results {
        if let MarkdownUrlIssueType::LowImageAltText(v) = url.issue_type {
            assert_eq!(doc.fragment(v), "an image".chars().collect::<Vec<char>>());
        }
    }

    let count = results.len();

    assert_eq!(count, 3);
}

#[test]
fn test_find_all_links() {
    let doc = Document::new(
        r#"# Hi there
              ## A heading

              ![an image](please don't find me!)

              [a regular url](find me)
    [another regular url](find me)
              "#,
    );

    let results = all_markdown_urls(&doc);
    let count = results.len();

    assert_eq!(count, 2);
}

#[test]
fn test_find_all_links_with_empty_hrefs() {
    let doc = Document::new(
        r#"# Hi there
              ## A heading

              ![an image](please don't find me!)

              [find me]()
    [another regular url](don't find me)
              "#,
    );

    let results = all_empty_href_markdown_urls(&doc);
    let count = results.len();

    assert_eq!(count, 1);
}
