//! The error type shared by every stage of the pipeline.

use crate::text::{decimal, decimal_digits};
use vstd::prelude::*;
use vstd::string::StringExecFns;

verus! {

/// The stage at which a run failed.
#[derive(Clone, Copy, Debug, PartialEq, Eq, Structural)]
pub enum ErrorKind {
    /// A document is missing or cannot be read as a document.
    Input,
    /// A page that exists could not be rendered.
    Render,
    /// The difference image of a page pair could not be made.
    Diff,
    /// A result could not be written.
    Io,
}

/// One of the two revisions being compared.
#[derive(Clone, Copy, Debug, PartialEq, Eq, Structural)]
pub enum Document {
    Old,
    New,
}

/// A failure, with the stage, the document and page it concerns where there
/// is one, and what the collaborator that failed had to say.
#[derive(Debug)]
pub struct PdfError {
    pub kind: ErrorKind,
    pub document: Option<Document>,
    pub page: Option<usize>,
    pub detail: String,
}

/// The words that name a stage.
pub open spec fn kind_words(kind: ErrorKind) -> Seq<char> {
    match kind {
        ErrorKind::Input => "input error"@,
        ErrorKind::Render => "render error"@,
        ErrorKind::Diff => "diff error"@,
        ErrorKind::Io => "output error"@,
    }
}

/// The words that name a document, or nothing.
pub open spec fn document_words(document: Option<Document>) -> Seq<char> {
    match document {
        Some(Document::Old) => ", old document"@,
        Some(Document::New) => ", new document"@,
        None => Seq::empty(),
    }
}

/// The words that name a page by its index, or nothing.
pub open spec fn page_words(page: Option<usize>) -> Seq<char> {
    match page {
        Some(index) => ", page "@ + decimal_digits(index as nat),
        None => Seq::empty(),
    }
}

impl PdfError {
    /// The message of the error: stage, document, page, then the detail.
    pub open spec fn message_text(self) -> Seq<char> {
        kind_words(self.kind) + document_words(self.document) + page_words(self.page) + ": "@
            + self.detail@
    }

    /// A document that is missing or unreadable.
    pub fn input(document: Document, detail: String) -> (e: PdfError)
        ensures
            e.kind == ErrorKind::Input,
            e.document == Some(document),
            e.page.is_none(),
            e.detail@ == detail@,
    {
        PdfError { kind: ErrorKind::Input, document: Some(document), page: None, detail }
    }

    /// A page of a document that could not be rendered.
    pub fn render(document: Document, page: usize, detail: String) -> (e: PdfError)
        ensures
            e.kind == ErrorKind::Render,
            e.document == Some(document),
            e.page == Some(page),
            e.detail@ == detail@,
    {
        PdfError { kind: ErrorKind::Render, document: Some(document), page: Some(page), detail }
    }

    /// A page pair whose difference image could not be made.
    pub fn diff(page: usize, detail: String) -> (e: PdfError)
        ensures
            e.kind == ErrorKind::Diff,
            e.document.is_none(),
            e.page == Some(page),
            e.detail@ == detail@,
    {
        PdfError { kind: ErrorKind::Diff, document: None, page: Some(page), detail }
    }

    /// A result that could not be written.
    pub fn io(detail: String) -> (e: PdfError)
        ensures
            e.kind == ErrorKind::Io,
            e.document.is_none(),
            e.page.is_none(),
            e.detail@ == detail@,
    {
        PdfError { kind: ErrorKind::Io, document: None, page: None, detail }
    }

    /// The message of the error, for a person to read.
    pub fn message(&self) -> (text: String)
        ensures
            text@ == self.message_text(),
    {
        let mut text = String::from_str(
            match self.kind {
                ErrorKind::Input => "input error",
                ErrorKind::Render => "render error",
                ErrorKind::Diff => "diff error",
                ErrorKind::Io => "output error",
            },
        );
        match self.document {
            Some(Document::Old) => text.append(", old document"),
            Some(Document::New) => text.append(", new document"),
            None => {},
        }
        match self.page {
            Some(index) => {
                text.append(", page ");
                let numeral = decimal(index as u64);
                text.append(numeral.as_str());
            },
            None => {},
        }
        text.append(": ");
        text.append(self.detail.as_str());
        text
    }
}

} // verus!
