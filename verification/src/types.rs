//! The vocabulary of the document store: document types, render kinds and the
//! errors of reading either from text.

use vstd::prelude::*;
use vstd::string::StringExecFns;
use crate::settings::{clone_strings, texts_of, Settings};
use crate::store::DocumentId;
use crate::text::str_eq;

verus! {

/// Why a piece of text names neither a document type nor a render kind.
#[derive(Debug, Clone, PartialEq, Eq)]
pub enum TypeError {
    /// The text is none of the accepted spellings of a document type.
    InvalidDocType,
    /// The text is none of `plain`, `html` and `pdf`; it is carried along.
    UnknownRenderType(String),
}

/// The format of a cached artifact, whatever the source document was.
#[derive(Debug, Clone, Copy, PartialEq, Eq, Structural)]
pub enum RenderType {
    Plain,
    Html,
    Pdf,
}

/// The kind of source a document is written in.
#[derive(Debug, Clone, Copy, PartialEq, Eq, Structural)]
pub enum DocType {
    Plain,
    Markdown,
    XournalPP,
    LaTeX,
}

/// A change to the metadata of a document.
#[derive(Debug, Clone, PartialEq, Eq)]
pub enum MetaPatch {
    ChangeTitle(String),
    AddTag(String),
    RemoveTag(String),
}

/// By what a search orders its results.
#[derive(Debug, Clone, Copy, PartialEq, Eq, Structural)]
pub enum SearchSortCriterium {
    CreationTime,
    AccessTime,
    Title,
}

/// The order of the results of a search: by what, and whether ascending
/// (`true`) or descending.
pub type SearchSorting = (SearchSortCriterium, bool);

/// The metadata of a document. The two times are in milliseconds since the
/// epoch.
#[derive(Debug, Clone, PartialEq, Eq)]
pub struct Meta {
    pub title: String,
    pub doc_type: DocType,
    pub tags: Vec<String>,
    pub created: i64,
    pub accessed: i64,
    pub id: DocumentId,
    pub extension: Option<String>,
}

/// Where the bytes of a rendered document are.
#[derive(Debug, Clone, PartialEq, Eq)]
pub enum RenderSource {
    /// In the file at this path.
    File(String),
    /// Here.
    Buffer(Vec<u8>),
}

/// A rendered document: its bytes and their kind.
#[derive(Debug, Clone, PartialEq, Eq)]
pub struct Render {
    pub source: RenderSource,
    pub render_type: RenderType,
}

/// The render kind that `text` spells, if it spells one.
pub open spec fn render_type_of(text: Seq<char>) -> Option<RenderType> {
    if text == "plain"@ {
        Some(RenderType::Plain)
    } else if text == "html"@ {
        Some(RenderType::Html)
    } else if text == "pdf"@ {
        Some(RenderType::Pdf)
    } else {
        None
    }
}

/// The document type that `text` spells, if it spells one. Markdown, the
/// notebook format and LaTeX each have more than one accepted spelling.
pub open spec fn doc_type_of(text: Seq<char>) -> Option<DocType> {
    if text == "plain"@ {
        Some(DocType::Plain)
    } else if text == "markdown"@ || text == "md"@ {
        Some(DocType::Markdown)
    } else if text == "xournalpp"@ || text == "xournal"@ || text == "xopp"@ {
        Some(DocType::XournalPP)
    } else if text == "latex"@ || text == "tex"@ {
        Some(DocType::LaTeX)
    } else {
        None
    }
}

impl RenderType {
    /// The spelling under which this kind is stored.
    pub open spec fn name(self) -> Seq<char> {
        match self {
            RenderType::Plain => "plain"@,
            RenderType::Html => "html"@,
            RenderType::Pdf => "pdf"@,
        }
    }

    /// Reads a render kind from its stored spelling. Any other text is
    /// rejected, and the error carries that text.
    pub fn from_str(s: &str) -> (parsed: Result<RenderType, TypeError>)
        ensures
            match render_type_of(s@) {
                Some(kind) => parsed == Ok::<RenderType, TypeError>(kind),
                None => parsed matches Err(TypeError::UnknownRenderType(text)) && text@ == s@,
            },
    {
        if str_eq(s, "plain") {
            Ok(RenderType::Plain)
        } else if str_eq(s, "html") {
            Ok(RenderType::Html)
        } else if str_eq(s, "pdf") {
            Ok(RenderType::Pdf)
        } else {
            Err(TypeError::UnknownRenderType(String::from_str(s)))
        }
    }

    /// The stored spelling of this kind, as a borrowed literal.
    pub fn to_str(&self) -> (text: &'static str)
        ensures
            text@ == self.name(),
    {
        match self {
            RenderType::Plain => "plain",
            RenderType::Html => "html",
            RenderType::Pdf => "pdf",
        }
    }

    /// The stored spelling of this kind, as an owned string.
    pub fn to_string(&self) -> (text: String)
        ensures
            text@ == self.name(),
    {
        String::from_str(self.to_str())
    }
}

impl DocType {
    /// The canonical spelling of this document type.
    pub open spec fn name(self) -> Seq<char> {
        match self {
            DocType::Plain => "plain"@,
            DocType::Markdown => "md"@,
            DocType::XournalPP => "xopp"@,
            DocType::LaTeX => "tex"@,
        }
    }

    /// Reads a document type from any of its accepted spellings.
    pub fn from_str(s: &str) -> (parsed: Result<DocType, TypeError>)
        ensures
            match doc_type_of(s@) {
                Some(doc_type) => parsed == Ok::<DocType, TypeError>(doc_type),
                None => parsed == Err::<DocType, TypeError>(TypeError::InvalidDocType),
            },
    {
        if str_eq(s, "plain") {
            Ok(DocType::Plain)
        } else if str_eq(s, "markdown") || str_eq(s, "md") {
            Ok(DocType::Markdown)
        } else if str_eq(s, "xournalpp") || str_eq(s, "xournal") || str_eq(s, "xopp") {
            Ok(DocType::XournalPP)
        } else if str_eq(s, "latex") || str_eq(s, "tex") {
            Ok(DocType::LaTeX)
        } else {
            Err(TypeError::InvalidDocType)
        }
    }

    /// Reads a document type from an owned string; see [`DocType::from_str`].
    pub fn from_string(s: String) -> (parsed: Result<DocType, TypeError>)
        ensures
            match doc_type_of(s@) {
                Some(doc_type) => parsed == Ok::<DocType, TypeError>(doc_type),
                None => parsed == Err::<DocType, TypeError>(TypeError::InvalidDocType),
            },
    {
        DocType::from_str(s.as_str())
    }

    /// The canonical spelling of this document type, as a borrowed literal.
    pub fn to_str(&self) -> (text: &'static str)
        ensures
            text@ == self.name(),
    {
        match self {
            DocType::Plain => "plain",
            DocType::Markdown => "md",
            DocType::XournalPP => "xopp",
            DocType::LaTeX => "tex",
        }
    }

    /// The canonical spelling of this document type, as an owned string.
    pub fn to_string(&self) -> (text: String)
        ensures
            text@ == self.name(),
    {
        String::from_str(self.to_str())
    }

    /// Whether documents of this type are opened with the text editor of the
    /// settings. Notebooks have an editor of their own.
    pub open spec fn uses_text_editor(self) -> bool {
        !(self is XournalPP)
    }

    /// The editor for documents of this type: its command and its arguments.
    pub fn get_editor(&self, settings: &Settings) -> (editor: (String, Vec<String>))
        ensures
            self.uses_text_editor() ==> editor.0@ == settings.text_editor.0@ && texts_of(
                editor.1@,
            ) == texts_of(settings.text_editor.1@),
            !self.uses_text_editor() ==> editor.0@ == "xournalpp"@ && editor.1@.len() == 0,
    {
        match self {
            DocType::XournalPP => (String::from_str("xournalpp"), Vec::new()),
            _ => (settings.text_editor.0.clone(), clone_strings(&settings.text_editor.1)),
        }
    }
}

/// Every render kind is read back from its own spelling: what the store
/// holds as text comes out as the kind that went in.
pub proof fn lemma_render_type_round_trip(render_type: RenderType)
    ensures
        render_type_of(render_type.name()) == Some(render_type),
{
    reveal_strlit("plain");
    reveal_strlit("html");
    reveal_strlit("pdf");
    assert("plain"@.len() == 5 && "html"@.len() == 4 && "pdf"@.len() == 3);
}

/// Every document type is read back from its canonical spelling.
pub proof fn lemma_doc_type_round_trip(doc_type: DocType)
    ensures
        doc_type_of(doc_type.name()) == Some(doc_type),
{
    reveal_strlit("plain");
    reveal_strlit("markdown");
    reveal_strlit("md");
    reveal_strlit("xournalpp");
    reveal_strlit("xournal");
    reveal_strlit("xopp");
    reveal_strlit("latex");
    reveal_strlit("tex");
    assert("plain"@.len() == 5 && "md"@.len() == 2 && "xopp"@.len() == 4 && "tex"@.len() == 3);
    assert("markdown"@.len() == 8 && "xournalpp"@.len() == 9 && "xournal"@.len() == 7);
    assert("latex"@.len() == 5);
    assert("plain"@[0] == 'p' && "latex"@[0] == 'l');
}

} // verus!
