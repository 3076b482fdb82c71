use doyoumarkdown::{
    empty_parens_pair, left_bracket, left_markdown_image_bracket, left_parens, non_empty_parens,
    right_bracket, right_parens, Document,
};

#[test]
fn test_left_markdown_image_bracket() {
    let doc = Document::new("![]()");

    let token = left_markdown_image_bracket(&doc, 0).unwrap();

    assert_eq!(doc.fragment(token.span), "![".chars().collect::<Vec<char>>());
}

#[test]
fn test_empty_parens_pair() {
    let doc = Document::new("()");

    let token = empty_parens_pair(&doc, 0).unwrap();

    assert_eq!(doc.fragment(token.span), "(".chars().collect::<Vec<char>>());
}

#[test]
fn test_non_empty_parens() {
    let doc = Document::new("(abc)");

    let token = non_empty_parens(&doc, 0).unwrap();

    assert_eq!(doc.fragment(token.span), "abc".chars().collect::<Vec<char>>());
}

#[test]
fn test_right_parens() {
    let doc = Document::new(")abc)");

    let token = right_parens(&doc, 0).unwrap();

    assert_eq!(doc.fragment(token.span), ")".chars().collect::<Vec<char>>());
}

#[test]
fn test_left_parens() {
    let doc = Document::new("(abc)");

    let token = left_parens(&doc, 0).unwrap();

    assert_eq!(doc.fragment(token.span), "(".chars().collect::<Vec<char>>());
}

#[test]
fn test_right_bracket() {
    let doc = Document::new("]abc]");

    let token = right_bracket(&doc, 0).unwrap();

    assert_eq!(doc.fragment(token.span), "]".chars().collect::<Vec<char>>());
}

#[test]
fn test_left_bracket() {
    let doc = Document::new("[abc]");

    let token = left_bracket(&doc, 0).unwrap();

    assert_eq!(doc.fragment(token.span), "[".chars().collect::<Vec<char>>());
}
