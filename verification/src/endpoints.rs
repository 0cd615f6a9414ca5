//! The values that the service receives and answers.

use vstd::prelude::*;
use vstd::std_specs::convert::FromSpec;

use crate::ids::DocumentId;
use crate::operations::{DocumentContent, FoundContent, FoundDocument};

verus! {

/// A request to store the file found at a URL.
#[derive(Clone, Debug, PartialEq, Eq)]
pub struct SaveDocumentByUrlRequest {
    pub url_file: String,
    pub application: String,
    pub is_private_document: bool,
    pub username: String,
}

/// A request to delete a document.
#[derive(Clone, Debug, PartialEq, Eq)]
pub struct DeleteDocumentRequest {
    /// Document Identify
    pub id_document: DocumentId,
    /// Audit Fields
    pub username: String,
}

/// Which documents to find: those of an application, optionally of one user, whose extension
/// is one of `extensions` (any, when empty) and also one of `content_type` (any, when empty):
/// the `content_type` list, too, is held against the extension.
#[derive(Clone, Debug, PartialEq, Eq)]
pub struct DocumentFilterRequest {
    pub username: Option<String>,
    pub application: String,
    pub extensions: Vec<String>,
    pub content_type: Vec<String>,
}

/// A found document, as answered.
#[derive(Debug, PartialEq, Eq)]
pub struct FoundDocumentResponse {
    pub id_document: DocumentId,
    pub name: String,
    pub extension: String,
    pub application: String,
    pub content: FoundContentResponse,
}

/// The content of a found document, as answered.
#[derive(Debug, PartialEq, Eq)]
pub struct FoundContentResponse {
    pub content: DocumentContentResponse,
}

/// Where the content of a found document is: inline Base64 data, or a URL.
#[derive(Debug, PartialEq, Eq)]
pub enum DocumentContentResponse {
    Data(String),
    Url(String),
    NoContent,
}

impl From<DocumentContent> for DocumentContentResponse {
    fn from(value: DocumentContent) -> (r: Self) {
        match value {
            DocumentContent::Data(v) => DocumentContentResponse::Data(v),
            DocumentContent::Url(v) => DocumentContentResponse::Url(v),
            DocumentContent::NoContent => DocumentContentResponse::NoContent,
        }
    }
}

impl vstd::std_specs::convert::FromSpecImpl<DocumentContent> for DocumentContentResponse {
    open spec fn obeys_from_spec() -> bool {
        true
    }

    open spec fn from_spec(v: DocumentContent) -> Self {
        match v {
            DocumentContent::Data(d) => DocumentContentResponse::Data(d),
            DocumentContent::Url(u) => DocumentContentResponse::Url(u),
            DocumentContent::NoContent => DocumentContentResponse::NoContent,
        }
    }
}

impl From<FoundContent> for FoundContentResponse {
    fn from(value: FoundContent) -> (r: Self) {
        Self { content: DocumentContentResponse::from(value.content) }
    }
}

impl vstd::std_specs::convert::FromSpecImpl<FoundContent> for FoundContentResponse {
    open spec fn obeys_from_spec() -> bool {
        true
    }

    open spec fn from_spec(v: FoundContent) -> Self {
        FoundContentResponse {
            content: <DocumentContentResponse as FromSpec<DocumentContent>>::from_spec(v.content),
        }
    }
}

impl From<FoundDocument> for FoundDocumentResponse {
    fn from(value: FoundDocument) -> (r: Self) {
        Self {
            id_document: value.id_document,
            name: value.name,
            extension: value.extension,
            application: value.application,
            content: FoundContentResponse::from(value.content),
        }
    }
}

impl vstd::std_specs::convert::FromSpecImpl<FoundDocument> for FoundDocumentResponse {
    open spec fn obeys_from_spec() -> bool {
        true
    }

    open spec fn from_spec(v: FoundDocument) -> Self {
        FoundDocumentResponse {
            id_document: v.id_document,
            name: v.name,
            extension: v.extension,
            application: v.application,
            content: <FoundContentResponse as FromSpec<FoundContent>>::from_spec(v.content),
        }
    }
}

/// The answer to a search: each found document as answered, in order.
pub fn found_documents_response(found: Vec<FoundDocument>) -> (result: Vec<FoundDocumentResponse>)
    ensures
        result@.len() == found@.len(),
        forall|i: int|
            0 <= i < found@.len() ==> #[trigger] result@[i] == <FoundDocumentResponse as FromSpec<FoundDocument>>::from_spec(
                found@[i],
            ),
        forall|i: int|
            0 <= i < found@.len() ==> {
                &&& (#[trigger] result@[i]).id_document == found@[i].id_document
                &&& result@[i].name == found@[i].name
                &&& result@[i].extension == found@[i].extension
                &&& result@[i].application == found@[i].application
                &&& match found@[i].content.content {
                    DocumentContent::Data(d) => result@[i].content.content
                        == DocumentContentResponse::Data(d),
                    DocumentContent::Url(u) => result@[i].content.content
                        == DocumentContentResponse::Url(u),
                    DocumentContent::NoContent => result@[i].content.content
                        == DocumentContentResponse::NoContent,
                }
            },
{
    let mut result: Vec<FoundDocumentResponse> = Vec::new();
    let ghost original = found@;
    for f in it: found
        invariant
            it.seq() == original,
            result@.len() == it.index(),
            forall|i: int|
                0 <= i < result@.len() ==> #[trigger] result@[i] == <FoundDocumentResponse as FromSpec<
                    FoundDocument,
                >>::from_spec(original[i]),
    {
        result.push(FoundDocumentResponse::from(f));
    }
    result
}

} // verus!
