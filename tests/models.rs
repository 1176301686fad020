use desklab::export::{export_formats, ExportFormat};
use desklab::models::{get_mime_type, MessageRole, OutputType, ProjectIcon, PptTheme, SlideLayout, SourceType};

#[test]
fn test_source_type_from_extension() {
    assert_eq!(SourceType::from_extension("pdf"), Some(SourceType::Pdf));
    assert_eq!(SourceType::from_extension("jpg"), Some(SourceType::Image));
    assert_eq!(SourceType::from_extension("PNG"), Some(SourceType::Image));
    assert_eq!(SourceType::from_extension("md"), Some(SourceType::Markdown));
    assert_eq!(SourceType::from_extension("txt"), None);
}

#[test]
fn test_source_type_as_str() {
    assert_eq!(SourceType::Image.as_str(), "image");
    assert_eq!(SourceType::Markdown.as_str(), "markdown");
}

#[test]
fn test_source_type_detection() {
    assert_eq!(SourceType::from_extension("jpg"), Some(SourceType::Image));
    assert_eq!(SourceType::from_extension("md"), Some(SourceType::Markdown));
    assert_eq!(SourceType::from_extension("pdf"), Some(SourceType::Pdf));
    assert_eq!(SourceType::from_extension("txt"), None);
}

#[test]
fn test_get_mime_type() {
    assert_eq!(get_mime_type(&SourceType::Image, "jpg"), "image/jpeg");
    assert_eq!(get_mime_type(&SourceType::Image, "png"), "image/png");
    assert_eq!(get_mime_type(&SourceType::Markdown, "md"), "text/markdown");
}

#[test]
fn mime_type_ignores_case_and_defaults_to_jpeg() {
    assert_eq!(get_mime_type(&SourceType::Image, "WEBP"), "image/webp");
    assert_eq!(get_mime_type(&SourceType::Image, "bmp"), "image/jpeg");
    assert_eq!(get_mime_type(&SourceType::Pdf, "pdf"), "application/pdf");
}

#[test]
fn source_type_from_str_round_trips() {
    for t in [SourceType::Pdf, SourceType::Docx, SourceType::Image, SourceType::Markdown] {
        assert_eq!(SourceType::from_str(t.as_str()), Some(t));
    }
    assert_eq!(SourceType::from_str("Image"), None);
    assert_eq!(SourceType::from_extension("JPEG"), Some(SourceType::Image));
    assert_eq!(SourceType::from_extension("docx"), Some(SourceType::Docx));
}

#[test]
fn test_default_icon() {
    let icon = ProjectIcon::default();
    assert_eq!(icon.id, "doc");
    assert_eq!(icon.emoji, "📄");
}

#[test]
fn default_theme_colours() {
    let theme = PptTheme::default();
    assert_eq!(theme.theme_color, "#5AA7A0");
    assert_eq!(theme.background_color, "#ffffff");
}

#[test]
fn message_role_names() {
    assert_eq!(MessageRole::Assistant.as_str(), "assistant");
    assert_eq!(MessageRole::from_str("system"), Some(MessageRole::System));
    assert_eq!(MessageRole::from_str("bot"), None);
}

#[test]
fn output_type_names() {
    assert_eq!(OutputType::Mindmap.as_str(), "mindmap");
    assert_eq!(OutputType::from_str("report"), OutputType::Report);
    assert_eq!(OutputType::from_str("other"), OutputType::Note);
    assert_eq!(OutputType::default(), OutputType::Note);
}

#[test]
fn slide_layout_names() {
    assert_eq!(SlideLayout::TwoColumn.as_str(), "two-column");
    assert_eq!(SlideLayout::from_str("image-text"), SlideLayout::ImageText);
    assert_eq!(SlideLayout::from_str("unknown"), SlideLayout::Content);
    assert_eq!(SlideLayout::default(), SlideLayout::Title);
}

#[test]
fn test_export_format_from_str() {
    assert_eq!(ExportFormat::from_str("md"), Some(ExportFormat::Markdown));
    assert_eq!(ExportFormat::from_str("markdown"), Some(ExportFormat::Markdown));
    assert_eq!(ExportFormat::from_str("pdf"), Some(ExportFormat::Pdf));
    assert_eq!(ExportFormat::from_str("PDF"), Some(ExportFormat::Pdf));
    assert_eq!(ExportFormat::from_str("docx"), Some(ExportFormat::Docx));
    assert_eq!(ExportFormat::from_str("word"), Some(ExportFormat::Docx));
    assert_eq!(ExportFormat::from_str("unknown"), None);
}

#[test]
fn export_format_extensions() {
    assert_eq!(ExportFormat::Markdown.extension(), "md");
    assert_eq!(ExportFormat::Docx.extension(), "docx");
    assert_eq!(ExportFormat::from_str("Word"), Some(ExportFormat::Docx));
}

#[test]
fn test_export_formats() {
    let formats = export_formats();
    assert_eq!(formats.len(), 3);
    assert_eq!(formats[0].id, "markdown");
    assert_eq!(formats[1].id, "pdf");
    assert_eq!(formats[2].id, "docx");
}
