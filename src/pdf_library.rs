use vstd::prelude::*;
use vstd::string::StringExecFns;

use crate::text::push_char;

verus! {

/// Document metadata read from a PDF file.
#[derive(Debug, Clone, PartialEq)]
pub struct PDFMetadata {
    pub title: Option<String>,
    pub author: Option<String>,
    pub subject: Option<String>,
    pub keywords: Option<String>,
    pub creator: Option<String>,
    pub producer: Option<String>,
    pub creation_date: Option<String>,
    pub modification_date: Option<String>,
    pub page_count: i32,
}

/// What identifies a file on disk apart from its path.
#[derive(Debug, Clone, PartialEq)]
pub struct FileIdentity {
    pub volume_id: u64,
    pub file_index: u64,
    pub file_size: u64,
}

/// A tag that books can carry.
#[derive(Debug, Clone, PartialEq)]
pub struct Tag {
    pub id: i32,
    pub name: String,
    pub color: Option<String>,
    pub parent_id: Option<i32>,
    pub aliases: Option<String>,
    pub book_count: Option<i32>,
}

/// A book of the library.
#[derive(Debug, Clone, PartialEq)]
pub struct Book {
    pub id: i32,
    pub title: String,
    pub filename: String,
    pub filepath: String,
    pub directory_id: i32,
    pub is_managed: bool,
    pub is_missing: bool,
    pub volume_id: u64,
    pub file_index: u64,
    pub file_size: u64,
    pub author: Option<String>,
    pub page_count: i32,
    pub cover_image: Option<String>,
    pub import_date: String,
    pub modified_date: String,
    pub category_id: Option<i32>,
    pub tags: Option<Vec<Tag>>,
}

/// A directory that books come from: the workspace, or an external one.
#[derive(Debug, Clone, PartialEq)]
pub struct Directory {
    pub id: i32,
    pub path: String,
    pub dir_type: String,
    pub name: String,
    pub is_monitoring: bool,
}

/// A category of books.
#[derive(Debug, Clone, PartialEq)]
pub struct Category {
    pub id: i32,
    pub name: String,
    pub icon: Option<String>,
    pub color: Option<String>,
    pub display_order: i32,
}

/// The outcome of renaming a book's file.
#[derive(Debug, Clone, PartialEq)]
pub struct RenameResult {
    pub success: bool,
    pub new_path: String,
    pub error: Option<String>,
}

/// The outcome of looking for a book's file.
#[derive(Debug, Clone, PartialEq)]
pub struct FileLocateResult {
    pub found: bool,
    pub path: Option<String>,
    pub needs_update: bool,
}

/// The outcome of linking a book to a file again.
#[derive(Debug, Clone, PartialEq)]
pub struct RelinkResult {
    pub updated: bool,
    pub confidence: String,
    pub needs_confirmation: bool,
    pub suggest_move: bool,
    pub new_path: Option<String>,
}

/// A character that file names may not hold.
pub open spec fn forbidden_in_name(c: char) -> bool {
    c == '<' || c == '>' || c == ':' || c == '"' || c == '/' || c == '\\' || c == '|' || c == '?'
        || c == '*'
}

/// `s` with each character that file names may not hold replaced by `_`.
pub open spec fn sanitized(s: Seq<char>) -> Seq<char> {
    Seq::new(s.len(), |i: int| if forbidden_in_name(s[i]) { '_' } else { s[i] })
}

/// Turns a title into a file name: each of `< > : " / \ | ? *` becomes `_`.
pub fn sanitize_filename(name: &str) -> (r: String)
    ensures
        r@ == sanitized(name@),
{
    let mut out = String::new();
    for c in it: name.chars()
        invariant
            it.seq() == name@,
            out@ == sanitized(it.seq().take(it.index() as int)),
    {
        let d = if c == '<' || c == '>' || c == ':' || c == '"' || c == '/' || c == '\\' || c
            == '|' || c == '?' || c == '*' {
            '_'
        } else {
            c
        };
        let ghost before = out@;
        push_char(&mut out, d);
        assert(sanitized(it.seq().take(it.index() + 1)) =~= before.push(d));
    }
    out
}

/// Copying a file to the clipboard: this platform does not support it, so
/// the call always fails with the same message.
pub fn copy_file_to_clipboard(path: &str) -> (r: Result<(), String>)
    ensures
        (r matches Err(m) && m@ == "此功能仅支持 Windows"@),
{
    Err(String::from_str("此功能仅支持 Windows"))
}

} // verus!
