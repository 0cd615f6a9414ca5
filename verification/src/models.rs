//! Rows of the `document` and `content` tables, and the values written to them.
//!
//! Timestamps are microseconds since the Unix epoch.

use vstd::prelude::*;

use crate::ids::DocumentId;

verus! {

/// A row of the `document` table.
#[derive(Clone, Debug, PartialEq, Eq)]
pub struct Document {
    pub id_document: DocumentId,
    pub name: String,
    pub application: String,
    pub extension: Option<String>,
    pub content_type: Option<String>,
    pub create_datetime: i64,
    pub create_username: String,
    pub update_datetime: Option<i64>,
    pub update_username: Option<String>,
    pub delete_datetime: Option<i64>,
    pub delete_username: Option<String>,
}

/// The values of a new row of the `document` table.
#[derive(Clone, Debug, PartialEq, Eq)]
pub struct NewDocument {
    pub id_document: DocumentId,
    pub name: String,
    pub extension: Option<String>,
    pub content_type: Option<String>,
    pub application: String,
    pub create_username: String,
}

/// The values that mark a row of the `document` table as deleted.
#[derive(Clone, Debug, PartialEq, Eq)]
pub struct DeleteDocument {
    pub delete_datetime: i64,
    pub delete_username: String,
}

/// A row of the `content` table: the Base64 data of a private document.
#[derive(Clone, Debug, PartialEq, Eq)]
pub struct Content {
    pub id: u128,
    pub id_document: DocumentId,
    pub data: String,
    pub create_datetime: i64,
    pub create_username: String,
    pub delete_datetime: Option<i64>,
    pub delete_username: Option<String>,
}

/// The values of a new row of the `content` table.
#[derive(Clone, Debug, PartialEq, Eq)]
pub struct NewContent {
    pub id_document: DocumentId,
    pub data: String,
    pub create_username: String,
}

/// The values that mark a row of the `content` table as deleted.
#[derive(Clone, Debug, PartialEq, Eq)]
pub struct DeleteContent {
    pub delete_datetime: i64,
    pub delete_username: String,
}

} // verus!
