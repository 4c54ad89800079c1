//! Document records: embedded metadata, outline entries, and document errors.
use crate::sidecar::io_error_text;
use crate::text::{append_chars, append_str, decimal, decimal_chars, string_of};
use vstd::prelude::*;

verus! {

/// Metadata embedded in the PDF by `Polylux`/touying/pdfpc LaTeX package.
#[derive(Debug, Clone)]
pub struct EmbeddedMetadata {
    /// Raw pdfpc metadata string from the PDF info dictionary.
    pub pdfpc_data: Option<String>,
}

/// A bookmark/outline entry in the document.
#[derive(Debug, Clone)]
pub struct OutlineEntry {
    /// Bookmark title as displayed by the document.
    pub title: String,
    /// Destination page index, 0-based.
    pub page_index: usize,
    /// Nesting depth in the outline tree, starting at 0.
    pub level: usize,
}

/// Errors from document operations.
#[derive(Debug)]
pub enum DocumentError {
    /// The document could not be opened or parsed.
    Open(String),
    /// A page render failed after the document was opened successfully.
    Render { page_index: usize, message: String },
    /// The requested page index is outside the document.
    PageOutOfRange(usize),
    /// An underlying filesystem operation failed.
    Io(std::io::Error),
}

/// Whether `s` begins with `p`.
pub open spec fn starts_with_text(s: Seq<char>, p: Seq<char>) -> bool {
    s.len() >= p.len() && s.take(p.len() as int) == p
}

impl DocumentError {
    /// The human-readable message of the error.
    pub fn to_string(&self) -> (r: String)
        ensures
            match self {
                DocumentError::Open(m) => r@ == "Failed to open document: "@ + m@,
                DocumentError::Render { page_index, message } => r@ == "Failed to render page "@
                    + decimal(*page_index as nat) + ": "@ + message@,
                DocumentError::PageOutOfRange(i) => r@ == "Page index "@ + decimal(*i as nat)
                    + " out of range"@,
                DocumentError::Io(_) => starts_with_text(r@, "I/O error: "@),
            },
    {
        let mut out: Vec<char> = Vec::new();
        match self {
            DocumentError::Open(m) => {
                append_str(&mut out, "Failed to open document: ");
                append_str(&mut out, m.as_str());
            },
            DocumentError::Render { page_index, message } => {
                append_str(&mut out, "Failed to render page ");
                let digits = decimal_chars(*page_index as u64);
                append_chars(&mut out, &digits);
                append_str(&mut out, ": ");
                append_str(&mut out, message.as_str());
                assert(out@ =~= "Failed to render page "@ + decimal(*page_index as nat) + ": "@
                    + message@);
            },
            DocumentError::PageOutOfRange(i) => {
                append_str(&mut out, "Page index ");
                let digits = decimal_chars(*i as u64);
                append_chars(&mut out, &digits);
                append_str(&mut out, " out of range");
            },
            DocumentError::Io(e) => {
                append_str(&mut out, "I/O error: ");
                let ghost head = out@;
                let text = io_error_text(e);
                append_str(&mut out, text.as_str());
                assert(out@.take("I/O error: "@.len() as int) =~= head);
            },
        }
        string_of(&out)
    }
}

impl From<std::io::Error> for DocumentError {
    fn from(e: std::io::Error) -> (r: Self) {
        DocumentError::Io(e)
    }
}

impl vstd::std_specs::convert::FromSpecImpl<std::io::Error> for DocumentError {
    open spec fn obeys_from_spec() -> bool {
        true
    }

    open spec fn from_spec(v: std::io::Error) -> Self {
        DocumentError::Io(v)
    }
}

} // verus!
