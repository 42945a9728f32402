//! The settings of the application: with which editor text documents are
//! opened, and the presets from which new documents are made.

use vstd::prelude::*;
use vstd::slice::slice_to_vec;
use vstd::string::StringExecFns;
use crate::directories::Platform;
use crate::types::DocType;

verus! {

/// What a new document starts from.
#[derive(Debug, Clone)]
pub enum File {
    /// An empty file.
    Empty,
    /// A copy of the file at this path.
    Path(String),
    /// These bytes.
    Blob(Vec<u8>),
}

/// A template for new documents.
#[derive(Debug, Clone)]
pub struct DocumentPreset {
    pub name: String,
    pub tags: Vec<String>,
    pub extension: Option<String>,
    pub doc_type: Option<DocType>,
    pub file: File,
}

/// The settings.
#[derive(Debug)]
pub struct Settings {
    /// The editor for text documents: the command and its arguments, among
    /// which `%FILE%` stands for the document's primary file.
    pub text_editor: (String, Vec<String>),
    /// The presets on offer.
    pub presets: Vec<DocumentPreset>,
    /// Whether document folders are watched for changes.
    pub file_watcher: bool,
}

/// No default editor is known: `kate` is not installed, and the platform has
/// no opener of its own that is known here.
#[derive(Debug, Clone, Copy, PartialEq, Eq, Structural)]
pub struct NoDefaultEditor;

/// The texts of `list` as sequences of characters.
pub open spec fn texts_of(list: Seq<String>) -> Seq<Seq<char>> {
    list.map_values(|text: String| text@)
}

/// The texts of `list` as sequences of characters.
pub open spec fn slices_of(list: Seq<&str>) -> Seq<Seq<char>> {
    list.map_values(|text: &str| text@)
}

/// The command and the arguments of the default editor: `kate` where it is
/// installed, else what the platform opens files with, if that is known.
pub open spec fn default_editor(kate: bool, platform: Option<Platform>) -> Option<
    (Seq<char>, Seq<Seq<char>>),
> {
    if kate {
        Some(("kate"@, seq!["-b"@, "%FILE%"@]))
    } else {
        match platform {
            Some(Platform::Linux) => Some(("xdg-open"@, seq!["%FILE%"@])),
            Some(Platform::Windows) => Some(("start"@, seq!["%FILE%"@])),
            None => None,
        }
    }
}

/// Owned copies of `list`, text by text.
pub fn to_strings(list: &Vec<&str>) -> (owned: Vec<String>)
    ensures
        texts_of(owned@) == slices_of(list@),
{
    let mut owned: Vec<String> = Vec::new();
    let mut i: usize = 0;
    while i < list.len()
        invariant
            i <= list@.len(),
            owned@.len() == i,
            forall|k: int| 0 <= k < i ==> (#[trigger] owned@[k])@ == list@[k]@,
        decreases list@.len() - i,
    {
        owned.push(String::from_str(list[i]));
        i = i + 1;
    }
    assert(texts_of(owned@) =~= slices_of(list@));
    owned
}

/// A copy of `list`, text by text.
pub fn clone_strings(list: &Vec<String>) -> (copy: Vec<String>)
    ensures
        texts_of(copy@) == texts_of(list@),
{
    let mut copy: Vec<String> = Vec::new();
    let mut i: usize = 0;
    while i < list.len()
        invariant
            i <= list@.len(),
            copy@.len() == i,
            forall|k: int| 0 <= k < i ==> (#[trigger] copy@[k])@ == list@[k]@,
        decreases list@.len() - i,
    {
        copy.push(list[i].clone());
        i = i + 1;
    }
    assert(texts_of(copy@) =~= texts_of(list@));
    copy
}

impl DocumentPreset {
    /// A preset from borrowed parts. With a blob the preset starts new
    /// documents from those bytes, without one from an empty file.
    pub fn from_strs(
        name: &str,
        tags: Vec<&str>,
        extension: Option<&str>,
        doc_type: Option<DocType>,
        blob: Option<&[u8]>,
    ) -> (preset: DocumentPreset)
        ensures
            preset.name@ == name@,
            texts_of(preset.tags@) == slices_of(tags@),
            match extension {
                Some(ext) => preset.extension is Some && preset.extension->Some_0@ == ext@,
                None => preset.extension is None,
            },
            preset.doc_type == doc_type,
            match blob {
                Some(bytes) => preset.file matches File::Blob(held) && held@ == bytes@,
                None => preset.file is Empty,
            },
    {
        DocumentPreset {
            name: String::from_str(name),
            tags: to_strings(&tags),
            extension: match extension {
                Some(ext) => Some(String::from_str(ext)),
                None => None,
            },
            doc_type,
            file: match blob {
                Some(bytes) => File::Blob(slice_to_vec(bytes)),
                None => File::Empty,
            },
        }
    }
}

impl Settings {
    /// The settings that a fresh installation starts with: the default
    /// editor, no watching of folders, and two presets, one for LaTeX and one
    /// for notebooks, made from the two templates. Fails where no default
    /// editor is known.
    pub fn default(
        kate: bool,
        platform: Option<Platform>,
        latex_template: &[u8],
        xopp_template: &[u8],
    ) -> (settings: Result<Settings, NoDefaultEditor>)
        ensures
            match default_editor(kate, platform) {
                None => settings == Err::<Settings, NoDefaultEditor>(NoDefaultEditor),
                Some(editor) => {
                    &&& settings matches Ok(made)
                    &&& made.text_editor.0@ == editor.0
                    &&& texts_of(made.text_editor.1@) == editor.1
                    &&& !made.file_watcher
                    &&& made.presets@.len() == 2
                    &&& made.presets@[0].name@ == "LaTeX"@
                    &&& made.presets@[0].tags@.len() == 0
                    &&& made.presets@[0].extension is Some
                    &&& made.presets@[0].extension->Some_0@ == "tex"@
                    &&& made.presets@[0].doc_type == Some(DocType::LaTeX)
                    &&& made.presets@[0].file matches File::Blob(held) && held@ == latex_template@
                    &&& made.presets@[1].name@ == "XOPP"@
                    &&& made.presets@[1].tags@.len() == 0
                    &&& made.presets@[1].extension is Some
                    &&& made.presets@[1].extension->Some_0@ == "xopp"@
                    &&& made.presets@[1].doc_type == Some(DocType::XournalPP)
                    &&& made.presets@[1].file matches File::Blob(held) && held@ == xopp_template@
                },
            },
    {
        let (command, args) = if kate {
            let args = to_strings(&vec!["-b", "%FILE%"]);
            assert(texts_of(args@) =~= seq!["-b"@, "%FILE%"@]);
            ("kate", args)
        } else {
            let args = to_strings(&vec!["%FILE%"]);
            assert(texts_of(args@) =~= seq!["%FILE%"@]);
            match platform {
                Some(Platform::Linux) => ("xdg-open", args),
                Some(Platform::Windows) => ("start", args),
                None => {
                    return Err(NoDefaultEditor);
                },
            }
        };
        let latex = DocumentPreset::from_strs(
            "LaTeX",
            Vec::new(),
            Some("tex"),
            Some(DocType::LaTeX),
            Some(latex_template),
        );
        let xopp = DocumentPreset::from_strs(
            "XOPP",
            Vec::new(),
            Some("xopp"),
            Some(DocType::XournalPP),
            Some(xopp_template),
        );
        assert(texts_of(latex.tags@).len() == 0 && texts_of(xopp.tags@).len() == 0);
        let mut presets: Vec<DocumentPreset> = Vec::new();
        presets.push(latex);
        presets.push(xopp);
        Ok(Settings { text_editor: (String::from_str(command), args), presets, file_watcher: false })
    }
}

} // verus!
