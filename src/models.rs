//! The workspace's data model: kinds of sources, notes, messages and slides
//! with their wire names, and the plain records exchanged with callers.

use vstd::prelude::*;
use crate::text::{lower_of, lowercase, text_eq};

verus! {

/// Kind of an imported document.
#[derive(Clone, Copy, Debug, PartialEq, Eq, Structural)]
pub enum SourceType {
    Pdf,
    Docx,
    Image,
    Markdown,
}

/// Source kind of a lower-case file extension.
pub open spec fn source_type_of_ext(ext: Seq<char>) -> Option<SourceType> {
    if ext == "pdf"@ {
        Some(SourceType::Pdf)
    } else if ext == "docx"@ {
        Some(SourceType::Docx)
    } else if ext == "jpg"@ || ext == "jpeg"@ || ext == "png"@ || ext == "gif"@ || ext == "webp"@ {
        Some(SourceType::Image)
    } else if ext == "md"@ || ext == "markdown"@ {
        Some(SourceType::Markdown)
    } else {
        None
    }
}

pub open spec fn source_type_name(t: SourceType) -> Seq<char> {
    match t {
        SourceType::Pdf => "pdf"@,
        SourceType::Docx => "docx"@,
        SourceType::Image => "image"@,
        SourceType::Markdown => "markdown"@,
    }
}

pub open spec fn source_type_of_name(s: Seq<char>) -> Option<SourceType> {
    if s == "pdf"@ {
        Some(SourceType::Pdf)
    } else if s == "docx"@ {
        Some(SourceType::Docx)
    } else if s == "image"@ {
        Some(SourceType::Image)
    } else if s == "markdown"@ {
        Some(SourceType::Markdown)
    } else {
        None
    }
}

impl SourceType {
    /// Kind of a file with extension `ext`, compared without regard to case.
    pub fn from_extension(ext: &str) -> (r: Option<SourceType>)
        ensures
            r == source_type_of_ext(lower_of(ext@)),
    {
        let lower = lowercase(ext);
        SourceType::from_lowercase_extension(lower.as_str())
    }

    /// Kind of a file with the lower-case extension `ext`.
    pub fn from_lowercase_extension(ext: &str) -> (r: Option<SourceType>)
        ensures
            r == source_type_of_ext(ext@),
    {
        if text_eq(ext, "pdf") {
            Some(SourceType::Pdf)
        } else if text_eq(ext, "docx") {
            Some(SourceType::Docx)
        } else if text_eq(ext, "jpg") || text_eq(ext, "jpeg") || text_eq(ext, "png") || text_eq(
            ext,
            "gif",
        ) || text_eq(ext, "webp") {
            Some(SourceType::Image)
        } else if text_eq(ext, "md") || text_eq(ext, "markdown") {
            Some(SourceType::Markdown)
        } else {
            None
        }
    }

    /// Stored name of the kind.
    pub fn as_str(&self) -> (r: &'static str)
        ensures
            r@ == source_type_name(*self),
    {
        match self {
            SourceType::Pdf => "pdf",
            SourceType::Docx => "docx",
            SourceType::Image => "image",
            SourceType::Markdown => "markdown",
        }
    }

    /// Kind with stored name `s`.
    pub fn from_str(s: &str) -> (r: Option<SourceType>)
        ensures
            r == source_type_of_name(s@),
    {
        if text_eq(s, "pdf") {
            Some(SourceType::Pdf)
        } else if text_eq(s, "docx") {
            Some(SourceType::Docx)
        } else if text_eq(s, "image") {
            Some(SourceType::Image)
        } else if text_eq(s, "markdown") {
            Some(SourceType::Markdown)
        } else {
            None
        }
    }
}

/// MIME type of a source of kind `t` whose lower-case extension is `ext`.
pub open spec fn mime_of(t: SourceType, ext: Seq<char>) -> Seq<char> {
    match t {
        SourceType::Image => if ext == "png"@ {
            "image/png"@
        } else if ext == "gif"@ {
            "image/gif"@
        } else if ext == "webp"@ {
            "image/webp"@
        } else {
            "image/jpeg"@
        },
        SourceType::Pdf => "application/pdf"@,
        SourceType::Docx => "application/vnd.openxmlformats-officedocument.wordprocessingml.document"@,
        SourceType::Markdown => "text/markdown"@,
    }
}

/// MIME type of a source of kind `source_type` with extension `ext`; the
/// extension is compared without regard to case, and an unknown image
/// extension counts as JPEG.
pub fn get_mime_type(source_type: &SourceType, ext: &str) -> (r: String)
    ensures
        r@ == mime_of(*source_type, lower_of(ext@)),
{
    let lower = lowercase(ext);
    mime_type_for_lowercase(source_type, lower.as_str())
}

/// MIME type of a source of kind `source_type` with lower-case extension
/// `ext`.
pub fn mime_type_for_lowercase(source_type: &SourceType, ext: &str) -> (r: String)
    ensures
        r@ == mime_of(*source_type, ext@),
{
    let m = match source_type {
        SourceType::Image => if text_eq(ext, "png") {
            "image/png"
        } else if text_eq(ext, "gif") {
            "image/gif"
        } else if text_eq(ext, "webp") {
            "image/webp"
        } else {
            "image/jpeg"
        },
        SourceType::Pdf => "application/pdf",
        SourceType::Docx => "application/vnd.openxmlformats-officedocument.wordprocessingml.document",
        SourceType::Markdown => "text/markdown",
    };
    String::from_str(m)
}

/// Author of a chat message.
#[derive(Clone, Copy, Debug, PartialEq, Eq, Structural)]
pub enum MessageRole {
    User,
    Assistant,
    System,
}

pub open spec fn role_name(r: MessageRole) -> Seq<char> {
    match r {
        MessageRole::User => "user"@,
        MessageRole::Assistant => "assistant"@,
        MessageRole::System => "system"@,
    }
}

pub open spec fn role_of_name(s: Seq<char>) -> Option<MessageRole> {
    if s == "user"@ {
        Some(MessageRole::User)
    } else if s == "assistant"@ {
        Some(MessageRole::Assistant)
    } else if s == "system"@ {
        Some(MessageRole::System)
    } else {
        None
    }
}

impl MessageRole {
    /// Stored name of the role.
    pub fn as_str(&self) -> (r: &'static str)
        ensures
            r@ == role_name(*self),
    {
        match self {
            MessageRole::User => "user",
            MessageRole::Assistant => "assistant",
            MessageRole::System => "system",
        }
    }

    /// Role with stored name `s`.
    pub fn from_str(s: &str) -> (r: Option<MessageRole>)
        ensures
            r == role_of_name(s@),
    {
        if text_eq(s, "user") {
            Some(MessageRole::User)
        } else if text_eq(s, "assistant") {
            Some(MessageRole::Assistant)
        } else if text_eq(s, "system") {
            Some(MessageRole::System)
        } else {
            None
        }
    }
}

/// What a note holds.
#[derive(Clone, Copy, Debug, PartialEq, Eq, Structural)]
pub enum OutputType {
    Note,
    Summary,
    Ppt,
    Report,
    Mindmap,
}

pub open spec fn output_type_name(t: OutputType) -> Seq<char> {
    match t {
        OutputType::Note => "note"@,
        OutputType::Summary => "summary"@,
        OutputType::Ppt => "ppt"@,
        OutputType::Report => "report"@,
        OutputType::Mindmap => "mindmap"@,
    }
}

/// Output type with stored name `s`; an unknown name is a plain note.
pub open spec fn output_type_of_name(s: Seq<char>) -> OutputType {
    if s == "summary"@ {
        OutputType::Summary
    } else if s == "ppt"@ {
        OutputType::Ppt
    } else if s == "report"@ {
        OutputType::Report
    } else if s == "mindmap"@ {
        OutputType::Mindmap
    } else {
        OutputType::Note
    }
}

impl OutputType {
    /// Stored name of the output type.
    pub fn as_str(&self) -> (r: &'static str)
        ensures
            r@ == output_type_name(*self),
    {
        match self {
            OutputType::Note => "note",
            OutputType::Summary => "summary",
            OutputType::Ppt => "ppt",
            OutputType::Report => "report",
            OutputType::Mindmap => "mindmap",
        }
    }

    /// Output type with stored name `s` (a plain note when unknown).
    pub fn from_str(s: &str) -> (r: OutputType)
        ensures
            r == output_type_of_name(s@),
    {
        if text_eq(s, "summary") {
            OutputType::Summary
        } else if text_eq(s, "ppt") {
            OutputType::Ppt
        } else if text_eq(s, "report") {
            OutputType::Report
        } else if text_eq(s, "mindmap") {
            OutputType::Mindmap
        } else {
            OutputType::Note
        }
    }
}

impl Default for OutputType {
    fn default() -> (r: OutputType)
        ensures
            r == OutputType::Note,
    {
        OutputType::Note
    }
}

/// Layout of a slide.
#[derive(Clone, Copy, Debug, PartialEq, Eq, Structural)]
pub enum SlideLayout {
    Title,
    Content,
    TwoColumn,
    ImageText,
    Conclusion,
}

pub open spec fn layout_name(l: SlideLayout) -> Seq<char> {
    match l {
        SlideLayout::Title => "title"@,
        SlideLayout::Content => "content"@,
        SlideLayout::TwoColumn => "two-column"@,
        SlideLayout::ImageText => "image-text"@,
        SlideLayout::Conclusion => "conclusion"@,
    }
}

/// Layout with name `s`; an unknown name is a content slide.
pub open spec fn layout_of_name(s: Seq<char>) -> SlideLayout {
    if s == "title"@ {
        SlideLayout::Title
    } else if s == "two-column"@ {
        SlideLayout::TwoColumn
    } else if s == "image-text"@ {
        SlideLayout::ImageText
    } else if s == "conclusion"@ {
        SlideLayout::Conclusion
    } else {
        SlideLayout::Content
    }
}

impl SlideLayout {
    /// Name of the layout.
    pub fn as_str(&self) -> (r: &'static str)
        ensures
            r@ == layout_name(*self),
    {
        match self {
            SlideLayout::Title => "title",
            SlideLayout::Content => "content",
            SlideLayout::TwoColumn => "two-column",
            SlideLayout::ImageText => "image-text",
            SlideLayout::Conclusion => "conclusion",
        }
    }

    /// Layout with name `s` (a content slide when unknown).
    pub fn from_str(s: &str) -> (r: SlideLayout)
        ensures
            r == layout_of_name(s@),
    {
        if text_eq(s, "title") {
            SlideLayout::Title
        } else if text_eq(s, "two-column") {
            SlideLayout::TwoColumn
        } else if text_eq(s, "image-text") {
            SlideLayout::ImageText
        } else if text_eq(s, "conclusion") {
            SlideLayout::Conclusion
        } else {
            SlideLayout::Content
        }
    }
}

impl Default for SlideLayout {
    fn default() -> (r: SlideLayout)
        ensures
            r == SlideLayout::Title,
    {
        SlideLayout::Title
    }
}

/// Icon shown for a project.
#[derive(Clone, Debug)]
pub struct ProjectIcon {
    pub id: String,
    pub name: String,
    pub emoji: String,
    pub color: String,
}

impl Default for ProjectIcon {
    /// The document icon.
    fn default() -> (r: ProjectIcon)
        ensures
            r.id@ == "doc"@,
            r.name@ == "文档"@,
            r.emoji@ == "📄"@,
            r.color@ == "#5aa7a0"@,
    {
        ProjectIcon {
            id: String::from_str("doc"),
            name: String::from_str("文档"),
            emoji: String::from_str("📄"),
            color: String::from_str("#5aa7a0"),
        }
    }
}

/// What a caller gives to create a project.
#[derive(Clone, Debug)]
pub struct CreateProjectData {
    pub name: String,
    pub icon: ProjectIcon,
    pub workspace: String,
}

/// A category that projects are filed under.
#[derive(Clone, Debug)]
pub struct Workspace {
    pub id: String,
    pub name: String,
    pub is_system: bool,
    pub order: i32,
}

/// What a caller gives to create a note.
#[derive(Clone, Debug)]
pub struct CreateNoteData {
    pub project_id: String,
    pub title: Option<String>,
    pub output_type: Option<OutputType>,
}

/// A source cited by a chat answer.
#[derive(Clone, Debug)]
pub struct Citation {
    pub index: u32,
    pub source_id: String,
    pub source_name: String,
}

/// A file that could not be imported, and why.
#[derive(Clone, Debug)]
pub struct FailedImport {
    pub name: String,
    pub reason: String,
}

/// Drawing-canvas view settings.
#[derive(Clone, Debug)]
pub struct CanvasAppState {
    pub view_background_color: Option<String>,
    pub grid_size: Option<i32>,
}

/// Outline of a slide deck.
#[derive(Clone, Debug)]
pub struct PptOutline {
    pub title: String,
    pub subtitle: Option<String>,
    pub slides: Vec<SlideOutline>,
}

/// Outline of one slide.
#[derive(Clone, Debug)]
pub struct SlideOutline {
    pub title: String,
    pub layout: SlideLayout,
    pub points: Vec<String>,
    pub notes: Option<String>,
}

/// Background of a slide.
#[derive(Clone, Debug)]
pub struct SlideBackground {
    pub bg_type: String,
    pub color: Option<String>,
    pub image: Option<String>,
}

/// Colours and font of a slide deck.
#[derive(Clone, Debug)]
pub struct PptTheme {
    pub theme_color: String,
    pub font_color: String,
    pub font_name: String,
    pub background_color: String,
}

impl Default for PptTheme {
    fn default() -> (r: PptTheme)
        ensures
            r.theme_color@ == "#5AA7A0"@,
            r.font_color@ == "#333333"@,
            r.font_name@ == "Microsoft YaHei"@,
            r.background_color@ == "#ffffff"@,
    {
        PptTheme {
            theme_color: String::from_str("#5AA7A0"),
            font_color: String::from_str("#333333"),
            font_name: String::from_str("Microsoft YaHei"),
            background_color: String::from_str("#ffffff"),
        }
    }
}

/// What a caller gives to create a slide deck.
#[derive(Clone, Debug)]
pub struct CreatePptData {
    pub project_id: String,
    pub title: String,
    pub outline: Option<PptOutline>,
}

/// Whether an API key is stored for a provider.
#[derive(Clone, Debug)]
pub struct ApiKeyStatus {
    pub provider: String,
    pub key_name: String,
    pub has_key: bool,
}

} // verus!
