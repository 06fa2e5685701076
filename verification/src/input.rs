//! Checks on the two documents before anything is loaded.

use crate::error::{Document, ErrorKind, PdfError};
use vstd::prelude::*;
use vstd::string::StringExecFns;

verus! {

/// `e` reports that `document` was not found at `path`.
pub open spec fn is_missing_input(e: PdfError, document: Document, path: Seq<char>) -> bool {
    &&& e.kind == ErrorKind::Input
    &&& e.document == Some(document)
    &&& e.page.is_none()
    &&& e.detail@ == "file does not exist: "@ + path
}

/// Accepts the two documents when both are regular files that exist. The
/// old document is looked at first: where both are missing, the error names
/// the old one.
pub fn check_input_files(old_path: &str, old_is_file: bool, new_path: &str, new_is_file: bool) -> (res:
    Result<(), PdfError>)
    ensures
        old_is_file && new_is_file ==> res is Ok,
        !old_is_file ==> res is Err && is_missing_input(res->Err_0, Document::Old, old_path@),
        old_is_file && !new_is_file ==> res is Err && is_missing_input(
            res->Err_0,
            Document::New,
            new_path@,
        ),
{
    if !old_is_file {
        let mut detail = String::from_str("file does not exist: ");
        detail.append(old_path);
        Err(PdfError::input(Document::Old, detail))
    } else if !new_is_file {
        let mut detail = String::from_str("file does not exist: ");
        detail.append(new_path);
        Err(PdfError::input(Document::New, detail))
    } else {
        Ok(())
    }
}

} // verus!
