use desklab::extract::{extract_text_from_xml, extract_title};

#[test]
fn test_extract_title() {
    assert_eq!(extract_title("# 我的笔记\n\n这是内容"), Some("我的笔记".to_string()));
    assert_eq!(extract_title("## 二级标题\n# 一级标题"), Some("一级标题".to_string()));
    assert_eq!(extract_title("没有标题的内容"), None);
    assert_eq!(extract_title(""), None);
}

#[test]
fn title_line_endings_and_repeated_markers() {
    assert_eq!(extract_title("intro\r\n# Title\r\nbody"), Some("Title".to_string()));
    assert_eq!(extract_title("# # Nested"), Some("Nested".to_string()));
    assert_eq!(extract_title("#NoSpace\n"), None);
}

#[test]
fn test_extract_text_from_xml() {
    let xml = "<w:t>Hello</w:t><w:t>World</w:t>";
    let text = extract_text_from_xml(xml);
    assert_eq!(text, "Hello World");
}

#[test]
fn test_extract_text_from_xml_complex() {
    let xml = r#"<w:p><w:r><w:t>第一段</w:t></w:r></w:p><w:p><w:r><w:t>第二段</w:t></w:r></w:p>"#;
    let text = extract_text_from_xml(xml);
    assert!(text.contains("第一段"));
    assert!(text.contains("第二段"));
}

#[test]
fn xml_text_collapses_whitespace() {
    assert_eq!(extract_text_from_xml("  <a> x \n\t y </a>  z "), "x y z");
    assert_eq!(extract_text_from_xml("<a></a>"), "");
}
