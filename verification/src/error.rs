//! Errors that the library reports.

use vstd::prelude::*;

verus! {

/// Why an operation of the library failed.
#[derive(Clone, Debug, PartialEq, Eq)]
pub enum DocumentError {
    /// The identifier text holds no `-` to split it at.
    SeparatorNotFound,
    /// The URL holds no `/` before a file name; carries the URL.
    FileNameNotInUrl(String),
    /// The storage directory path names a file.
    StorageIsNotDirectory,
}

/// The text that `{:?}` writes for a string: the string in double quotes, with escapes.
pub uninterp spec fn debug_text_of(s: Seq<char>) -> Seq<char>;

/// `format!("{:?}", s)` for a string, from the standard library.
///
/// The escaping rules of the `Debug` impl of `str` are not restated: the result is named
/// `debug_text_of` of the text.
#[verifier::external_body]
fn debug_text(s: &str) -> (text: String)
    ensures
        text@ == debug_text_of(s@),
{
    format!("{:?}", s)
}

impl DocumentError {
    /// The message of the error, as shown to an operator.
    pub fn message(&self) -> (m: String)
        ensures
            m@ == match self {
                DocumentError::SeparatorNotFound => "Error find separator in uuid"@,
                DocumentError::FileNameNotInUrl(url) => "Error not match filename in url: "@ + debug_text_of(
                    url@,
                ) + " "@,
                DocumentError::StorageIsNotDirectory => "Error oath for files services isn´t directory"@,
            },
    {
        match self {
            DocumentError::SeparatorNotFound => String::from_str("Error find separator in uuid"),
            DocumentError::FileNameNotInUrl(url) => {
                let mut m = String::from_str("Error not match filename in url: ");
                m.append(debug_text(url.as_str()).as_str());
                m.append(" ");
                m
            },
            DocumentError::StorageIsNotDirectory => String::from_str(
                "Error oath for files services isn´t directory",
            ),
        }
    }
}

} // verus!
