//! The command line's rules: where the files go by default and which
//! documents are downloaded.

use vstd::prelude::*;
use crate::text::{decimal, push_decimal, same_text};

verus! {

/// The subdirectory of the destination that holds the PNG downloads.
pub const PNG_DIRECTORY: &'static str = "png";

/// The subdirectory of the destination that holds the WebP copies.
pub const WEBP_DIRECTORY: &'static str = "webp";

/// The destination used when none is given: `facsimiles/{max_width}px`.
pub open spec fn default_destination_of(max_width: u32) -> Seq<char> {
    "facsimiles/"@ + decimal(max_width as nat) + "px"@
}

/// The destination used when none is given.
pub fn default_destination(max_width: u32) -> (dest: String)
    ensures
        dest@ == default_destination_of(max_width),
{
    let mut dest = String::from_str("facsimiles/");
    push_decimal(&mut dest, max_width);
    dest.append("px");
    dest
}

/// The file name of the PDF of document `doc_name`.
pub open spec fn pdf_file_name_of(doc_name: Seq<char>) -> Seq<char> {
    doc_name + ".pdf"@
}

/// The file name of the PDF of document `doc_name`.
pub fn pdf_file_name(doc_name: &str) -> (name: String)
    ensures
        name@ == pdf_file_name_of(doc_name@),
{
    let mut name = String::from_str(doc_name);
    name.append(".pdf");
    name
}

/// Whether a document is downloaded, given the `--skip` and `--only` lists.
#[derive(Debug, PartialEq, Eq, Structural, Clone, Copy)]
pub enum DocumentSelection {
    /// The document is downloaded.
    Download,
    /// The document is named in `--skip`.
    Skipped,
    /// `--only` names documents, and not this one.
    NotListed,
}

/// The selection of document `doc_name`: skipped when `skip` names it, not
/// listed when `only` is not empty and does not name it, else downloaded.
pub open spec fn selection_of(doc_name: Seq<char>, skip: Seq<Seq<char>>, only: Seq<Seq<char>>) -> DocumentSelection {
    if skip.contains(doc_name) {
        DocumentSelection::Skipped
    } else if only.len() > 0 && !only.contains(doc_name) {
        DocumentSelection::NotListed
    } else {
        DocumentSelection::Download
    }
}

/// Whether `names` holds `name`.
pub fn names_contain(names: &Vec<String>, name: &str) -> (r: bool)
    ensures
        r == names.deep_view().contains(name@),
{
    let ghost all = names.deep_view();
    let mut i: usize = 0;
    while i < names.len()
        invariant
            i <= names.len(),
            all == names.deep_view(),
            forall|j: int| 0 <= j < i ==> all[j] != name@,
        decreases names.len() - i,
    {
        if same_text(names[i].as_str(), name) {
            assert(all[i as int] == name@);
            return true;
        }
        i = i + 1;
    }
    false
}

/// The selection of document `doc_name` by the `--skip` and `--only` lists.
pub fn document_selection(doc_name: &str, skip: &Vec<String>, only: &Vec<String>) -> (sel:
    DocumentSelection)
    ensures
        sel == selection_of(doc_name@, skip.deep_view(), only.deep_view()),
{
    if skip.len() > 0 && names_contain(skip, doc_name) {
        DocumentSelection::Skipped
    } else if only.len() > 0 && !names_contain(only, doc_name) {
        DocumentSelection::NotListed
    } else {
        DocumentSelection::Download
    }
}

/// Without `--skip` and `--only` every document is downloaded; a document
/// named in `--skip` never is; a document named in `--only` and not in
/// `--skip` is.
pub proof fn lemma_selection(doc_name: Seq<char>, skip: Seq<Seq<char>>, only: Seq<Seq<char>>)
    ensures
        skip.len() == 0 && only.len() == 0 ==> selection_of(doc_name, skip, only)
            == DocumentSelection::Download,
        skip.contains(doc_name) ==> selection_of(doc_name, skip, only)
            != DocumentSelection::Download,
        only.contains(doc_name) && !skip.contains(doc_name) ==> selection_of(doc_name, skip, only)
            == DocumentSelection::Download,
{
}

} // verus!
