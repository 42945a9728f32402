//! What the document store around the render engine decides: the text of a
//! search, what the number of changed rows says about a change, and with
//! which command a document is opened. The statements themselves are run by
//! the caller.

use vstd::prelude::*;
use vstd::string::StringExecFns;
use crate::settings::{texts_of, Settings};
use crate::types::{DocType, MetaPatch, SearchSortCriterium};

verus! {

/// Why a change to a document did not take place.
#[derive(Debug, Clone, Copy, PartialEq, Eq, Structural)]
pub enum DocumentError {
    /// A title was changed in no row, or in more than one.
    WrongRowCount,
    /// The document has the tag already.
    AlreadyTagged,
    /// The document does not have the tag.
    TagMissing,
    /// Nothing was deleted.
    NoRowsAffected,
    /// The first row of the requested page has a number that is too large.
    PageOutOfRange,
}

impl DocumentError {
    /// The human-readable text of this error.
    pub open spec fn text(self) -> Seq<char> {
        match self {
            DocumentError::WrongRowCount => "Wrong number of rows affected"@,
            DocumentError::AlreadyTagged => "document already has tag"@,
            DocumentError::TagMissing => "failed to delete tag"@,
            DocumentError::NoRowsAffected => "no rows affected"@,
            DocumentError::PageOutOfRange => "page out of range"@,
        }
    }

    /// The human-readable text of this error.
    pub fn message(&self) -> (text: &'static str)
        ensures
            text@ == self.text(),
    {
        match self {
            DocumentError::WrongRowCount => "Wrong number of rows affected",
            DocumentError::AlreadyTagged => "document already has tag",
            DocumentError::TagMissing => "failed to delete tag",
            DocumentError::NoRowsAffected => "no rows affected",
            DocumentError::PageOutOfRange => "page out of range",
        }
    }
}

/// `text`, `times` times in a row.
pub open spec fn repeated(text: Seq<char>, times: nat) -> Seq<char>
    decreases times,
{
    if times == 0 {
        Seq::<char>::empty()
    } else {
        repeated(text, (times - 1) as nat) + text
    }
}

/// A list of `count` placeholders in round brackets.
pub open spec fn placeholders(count: nat) -> Seq<char> {
    if count == 0 {
        "()"@
    } else {
        "(?"@ + repeated(", ?"@, (count - 1) as nat) + ")"@
    }
}

/// The column that a search orders by.
pub open spec fn sort_column(criterium: SearchSortCriterium) -> Seq<char> {
    match criterium {
        SearchSortCriterium::CreationTime => "Document.added"@,
        SearchSortCriterium::AccessTime => "Document.accessed"@,
        SearchSortCriterium::Title => "Document.title"@,
    }
}

/// The statement that finds one page of the documents which carry all of
/// `wanted` tags and none of `unwanted` tags and whose title holds a given
/// text, in the order `sort`. Its placeholders stand, in this order, for the
/// wanted tags, the unwanted tags, the number of wanted tags, the pattern for
/// the title, the number of the first row and the length of the page.
pub open spec fn search_text(wanted: nat, unwanted: nat, sort: (SearchSortCriterium, bool)) -> Seq<
    char,
> {
    "select id from Document left join (select document, count(tag) as tagCount from Tag where tag in "@
        + placeholders(wanted)
        + " group by document) as posTags on posTags.document = Document.id left join (select document, count(tag) as tagCount from Tag where tag in "@
        + placeholders(unwanted)
        + " group by document) as negTags on negTags.document = document.id where "@ + (if wanted
        == 0 {
        "(posTags.tagCount = ? or posTags.tagCount is null)"@
    } else {
        "posTags.tagCount = ?"@
    })
        + " and (negTags.tagCount = 0 or negTags.tagCount is null) and Document.title like ?  order by "@
        + sort_column(sort.0) + " "@ + (if sort.1 {
        "asc"@
    } else {
        "desc"@
    }) + " limit ?, ?"@
}

/// Writes a list of `count` placeholders.
fn placeholder_list(count: usize) -> (text: String)
    ensures
        text@ == placeholders(count as nat),
{
    if count == 0 {
        return String::from_str("()");
    }
    let mut text = String::from_str("(?");
    let mut done: usize = 0;
    while done < count - 1
        invariant
            count > 0,
            done <= count - 1,
            text@ == "(?"@ + repeated(", ?"@, done as nat),
        decreases count - 1 - done,
    {
        text.append(", ?");
        done = done + 1;
        assert("(?"@ + repeated(", ?"@, (done - 1) as nat) + ", ?"@ == "(?"@ + repeated(
            ", ?"@,
            done as nat,
        ));
    }
    text.concat(")")
}

/// Writes the statement of a search for `wanted` wanted and `unwanted`
/// unwanted tags; see [`search_text`].
pub fn search_query(wanted: usize, unwanted: usize, sort: (SearchSortCriterium, bool)) -> (query:
    String)
    ensures
        query@ == search_text(wanted as nat, unwanted as nat, sort),
{
    let column = match sort.0 {
        SearchSortCriterium::CreationTime => "Document.added",
        SearchSortCriterium::AccessTime => "Document.accessed",
        SearchSortCriterium::Title => "Document.title",
    };
    let direction = if sort.1 {
        "asc"
    } else {
        "desc"
    };
    let count_test = if wanted == 0 {
        "(posTags.tagCount = ? or posTags.tagCount is null)"
    } else {
        "posTags.tagCount = ?"
    };
    let wanted_list = placeholder_list(wanted);
    let unwanted_list = placeholder_list(unwanted);
    String::from_str(
        "select id from Document left join (select document, count(tag) as tagCount from Tag where tag in ",
    ).concat(wanted_list.as_str()).concat(
        " group by document) as posTags on posTags.document = Document.id left join (select document, count(tag) as tagCount from Tag where tag in ",
    ).concat(unwanted_list.as_str()).concat(
        " group by document) as negTags on negTags.document = document.id where ",
    ).concat(count_test).concat(
        " and (negTags.tagCount = 0 or negTags.tagCount is null) and Document.title like ?  order by ",
    ).concat(column).concat(" ").concat(direction).concat(" limit ?, ?")
}

/// The pattern that matches the titles which hold `crib`.
pub fn title_pattern(crib: &str) -> (pattern: String)
    ensures
        pattern@ == "%"@ + crib@ + "%"@,
{
    String::from_str("%").concat(crib).concat("%")
}

/// The number of the first row of page `page`, pages counted from zero, or
/// `PageOutOfRange` where that number does not fit.
pub fn first_row(page: u32, page_length: u32) -> (row: Result<u32, DocumentError>)
    ensures
        page * page_length <= u32::MAX ==> row == Ok::<u32, DocumentError>(
            (page * page_length) as u32,
        ),
        page * page_length > u32::MAX ==> row == Err::<u32, DocumentError>(
            DocumentError::PageOutOfRange,
        ),
{
    match page.checked_mul(page_length) {
        Some(row) => Ok(row),
        None => Err(DocumentError::PageOutOfRange),
    }
}

/// The statement that carries out `patch` on one document. Its two
/// placeholders stand for the new title and the document, for the document
/// and the tag, and for the tag and the document.
pub open spec fn patch_text(patch: MetaPatch) -> Seq<char> {
    match patch {
        MetaPatch::ChangeTitle(_) => "update Document set title = ? where id = ?"@,
        MetaPatch::AddTag(_) => "insert into Tag (document, tag) values (?, ?)"@,
        MetaPatch::RemoveTag(_) => "delete from Tag where tag = ? and document = ?"@,
    }
}

/// The statement that carries out `patch`; see [`patch_text`].
pub fn patch_statement(patch: &MetaPatch) -> (statement: &'static str)
    ensures
        statement@ == patch_text(*patch),
{
    match patch {
        MetaPatch::ChangeTitle(_) => "update Document set title = ? where id = ?",
        MetaPatch::AddTag(_) => "insert into Tag (document, tag) values (?, ?)",
        MetaPatch::RemoveTag(_) => "delete from Tag where tag = ? and document = ?",
    }
}

/// What `rows` changed rows say about `patch`: one row is success. A title
/// that was changed in another number of rows, a tag that was added or
/// removed in none, is a failure.
pub open spec fn patch_outcome(patch: MetaPatch, rows: u64) -> Result<(), DocumentError> {
    if rows == 1 {
        Ok(())
    } else {
        match patch {
            MetaPatch::ChangeTitle(_) => Err(DocumentError::WrongRowCount),
            MetaPatch::AddTag(_) => Err(DocumentError::AlreadyTagged),
            MetaPatch::RemoveTag(_) => Err(DocumentError::TagMissing),
        }
    }
}

/// Reads the number of changed rows after `patch`. A tag is added or removed
/// in at most one row.
pub fn patch_meta(patch: &MetaPatch, rows_affected: u64) -> (result: Result<(), DocumentError>)
    requires
        !(*patch is ChangeTitle) ==> rows_affected <= 1,
    ensures
        result == patch_outcome(*patch, rows_affected),
{
    if rows_affected == 1 {
        Ok(())
    } else {
        match patch {
            MetaPatch::ChangeTitle(_) => Err(DocumentError::WrongRowCount),
            MetaPatch::AddTag(_) => Err(DocumentError::AlreadyTagged),
            MetaPatch::RemoveTag(_) => Err(DocumentError::TagMissing),
        }
    }
}

/// Reads the number of deleted rows after the deletion of a document:
/// deleting nothing is a failure.
pub fn delete(rows_affected: u64) -> (result: Result<(), DocumentError>)
    ensures
        rows_affected == 0 ==> result == Err::<(), DocumentError>(DocumentError::NoRowsAffected),
        rows_affected != 0 ==> result == Ok::<(), DocumentError>(()),
{
    if rows_affected == 0 {
        Err(DocumentError::NoRowsAffected)
    } else {
        Ok(())
    }
}

/// What is known of the editor of a document.
#[derive(Debug, Clone, Copy, PartialEq, Eq, Structural)]
pub enum EditorState {
    /// None was started.
    Absent,
    /// One was started and has ended.
    Exited,
    /// One was started and has not ended, as far as can be told.
    Running,
}

/// Whether an editor is to be started for a document: not while one is
/// running.
pub fn open_editor(state: EditorState) -> (start: bool)
    ensures
        start == !(state is Running),
{
    match state {
        EditorState::Running => false,
        _ => true,
    }
}

/// `text` with every occurrence of `pattern` replaced by `with`, as
/// `str::replace` of the standard library does it.
pub uninterp spec fn replaced(text: Seq<char>, pattern: Seq<char>, with: Seq<char>) -> Seq<char>;

/// Replaces every occurrence of `pattern` in `text` by `with`, by
/// `str::replace`; the contract only names the result.
#[verifier::external_body]
fn replace_all(text: &str, pattern: &str, with: &str) -> (result: String)
    ensures
        result@ == replaced(text@, pattern@, with@),
{
    text.replace(pattern, with)
}

/// The arguments `args` with the file `file` in the place of `%FILE%`.
pub open spec fn with_file(args: Seq<Seq<char>>, file: Seq<char>) -> Seq<Seq<char>> {
    args.map_values(|arg: Seq<char>| replaced(arg, "%FILE%"@, file))
}

/// The command line that opens `file`, a document of type `doc_type`: the
/// editor of that type, with the file in the place of `%FILE%` in each of its
/// arguments.
pub fn editor_command(doc_type: &DocType, settings: &Settings, file: &str) -> (line: (
    String,
    Vec<String>,
))
    ensures
        doc_type.uses_text_editor() ==> line.0@ == settings.text_editor.0@ && texts_of(line.1@)
            == with_file(texts_of(settings.text_editor.1@), file@),
        !doc_type.uses_text_editor() ==> line.0@ == "xournalpp"@ && line.1@.len() == 0,
{
    let (command, args) = doc_type.get_editor(settings);
    let ghost plain = texts_of(args@);
    let mut filled: Vec<String> = Vec::new();
    let mut i: usize = 0;
    while i < args.len()
        invariant
            i <= args@.len(),
            filled@.len() == i,
            forall|k: int|
                0 <= k < i ==> (#[trigger] filled@[k])@ == replaced(args@[k]@, "%FILE%"@, file@),
        decreases args@.len() - i,
    {
        filled.push(replace_all(args[i].as_str(), "%FILE%", file));
        i = i + 1;
    }
    assert(texts_of(filled@) =~= with_file(texts_of(args@), file@));
    (command, filled)
}

/// The address under which a file manager shows the file at `path`.
pub fn file_url(path: &str) -> (url: String)
    ensures
        url@ == "file://"@ + path@,
{
    String::from_str("file://").concat(path)
}

} // verus!
