//! Export formats of notes.

use vstd::prelude::*;
use crate::text::{lower_of, lowercase, text_eq};

verus! {

/// Format a note can be exported to.
#[derive(Clone, Copy, Debug, PartialEq, Eq, Structural)]
pub enum ExportFormat {
    Markdown,
    Pdf,
    Docx,
}

/// Format named by the lower-case name `s`.
pub open spec fn export_format_of(s: Seq<char>) -> Option<ExportFormat> {
    if s == "markdown"@ || s == "md"@ {
        Some(ExportFormat::Markdown)
    } else if s == "pdf"@ {
        Some(ExportFormat::Pdf)
    } else if s == "docx"@ || s == "word"@ {
        Some(ExportFormat::Docx)
    } else {
        None
    }
}

pub open spec fn extension_of(f: ExportFormat) -> Seq<char> {
    match f {
        ExportFormat::Markdown => "md"@,
        ExportFormat::Pdf => "pdf"@,
        ExportFormat::Docx => "docx"@,
    }
}

impl ExportFormat {
    /// Format named `s`, compared without regard to case.
    pub fn from_str(s: &str) -> (r: Option<ExportFormat>)
        ensures
            r == export_format_of(lower_of(s@)),
    {
        let lower = lowercase(s);
        ExportFormat::from_lowercase(lower.as_str())
    }

    /// Format named by the lower-case name `s`.
    pub fn from_lowercase(s: &str) -> (r: Option<ExportFormat>)
        ensures
            r == export_format_of(s@),
    {
        if text_eq(s, "markdown") || text_eq(s, "md") {
            Some(ExportFormat::Markdown)
        } else if text_eq(s, "pdf") {
            Some(ExportFormat::Pdf)
        } else if text_eq(s, "docx") || text_eq(s, "word") {
            Some(ExportFormat::Docx)
        } else {
            None
        }
    }

    /// File extension of the format.
    pub fn extension(&self) -> (r: &'static str)
        ensures
            r@ == extension_of(*self),
    {
        match self {
            ExportFormat::Markdown => "md",
            ExportFormat::Pdf => "pdf",
            ExportFormat::Docx => "docx",
        }
    }
}

/// Description of an export format offered to the user.
#[derive(Clone, Debug)]
pub struct ExportFormatInfo {
    pub id: String,
    pub name: String,
    pub extension: String,
    pub description: String,
}

fn format_info(id: &str, name: &str, extension: &str, description: &str) -> (r: ExportFormatInfo)
    ensures
        r.id@ == id@,
        r.name@ == name@,
        r.extension@ == extension@,
        r.description@ == description@,
{
    ExportFormatInfo {
        id: String::from_str(id),
        name: String::from_str(name),
        extension: String::from_str(extension),
        description: String::from_str(description),
    }
}

/// The export formats offered, in order: Markdown, PDF, Word.
pub fn export_formats() -> (r: Vec<ExportFormatInfo>)
    ensures
        r.len() == 3,
        r@[0].id@ == "markdown"@ && r@[0].name@ == "Markdown"@ && r@[0].extension@ == extension_of(
            ExportFormat::Markdown,
        ),
        r@[1].id@ == "pdf"@ && r@[1].name@ == "PDF"@ && r@[1].extension@ == extension_of(
            ExportFormat::Pdf,
        ),
        r@[2].id@ == "docx"@ && r@[2].name@ == "Word"@ && r@[2].extension@ == extension_of(
            ExportFormat::Docx,
        ),
{
    let mut v: Vec<ExportFormatInfo> = Vec::new();
    v.push(format_info("markdown", "Markdown", ExportFormat::Markdown.extension(), "纯文本 Markdown 格式"));
    v.push(format_info("pdf", "PDF", ExportFormat::Pdf.extension(), "便携式文档格式，适合打印和分享"));
    v.push(format_info("docx", "Word", ExportFormat::Docx.extension(), "Microsoft Word 文档格式"));
    v
}

/// Exporter of notes to the formats above.
pub struct ExportService;

} // verus!
