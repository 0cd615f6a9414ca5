//! Saving, deleting and finding documents.

use std::collections::HashMap;

use itertools::Itertools;
use vstd::prelude::*;

use crate::config::EnvironmentState;
use crate::encoding::{base64_encode, base64_len, read_content_bytes_to_base64};
use crate::endpoints::{DeleteDocumentRequest, DocumentFilterRequest, SaveDocumentByUrlRequest};
use crate::error::DocumentError;
use crate::ids::{is_random_version, new_document_id, DocumentId};
use crate::models::{Content, DeleteContent, DeleteDocument, Document, NewContent, NewDocument};
use crate::names::{get_extension_and_file_name, get_file_name_in_url, last_index_of};
use crate::storage::{generate_path_by_uuid, generate_url_by_uuid, joined_path, relative_path_of};

verus! {

broadcast use vstd::std_specs::hash::group_hash_axioms;

/// A found document: its identity, names and where its content is.
#[derive(Debug, PartialEq, Eq)]
pub struct FoundDocument {
    pub id_document: DocumentId,
    pub name: String,
    pub extension: String,
    pub application: String,
    pub content: FoundContent,
}

/// The content of a found document.
#[derive(Debug, PartialEq, Eq)]
pub struct FoundContent {
    pub content: DocumentContent,
}

/// Where the content of a found document is: inline Base64 data, or a URL.
#[derive(Debug, PartialEq, Eq)]
pub enum DocumentContent {
    Data(String),
    Url(String),
    NoContent,
}

/// Where the content of a new document goes.
#[derive(Debug, PartialEq, Eq)]
pub enum StorageTarget {
    /// Into a row of the `content` table, as Base64 text (private documents).
    Database,
    /// Into the file at this path (public documents).
    Disk(String),
}

/// What saving a document writes: its row, and where its content goes.
#[derive(Debug, PartialEq, Eq)]
pub struct SavePlan {
    pub document: NewDocument,
    pub target: StorageTarget,
}

/// The text of an optional string.
pub open spec fn text_of(o: Option<String>) -> Option<Seq<char>> {
    match o {
        Some(s) => Some(s@),
        None => None,
    }
}

/// A file name without its extension: everything before its last `.`.
pub open spec fn name_part(file_name: Seq<char>) -> Seq<char> {
    match last_index_of(file_name, '.') {
        Some(k) => file_name.subrange(0, k),
        None => file_name,
    }
}

/// The extension of a file name: its last `.` and what follows, if it has a `.`.
pub open spec fn extension_part(file_name: Seq<char>) -> Option<Seq<char>> {
    match last_index_of(file_name, '.') {
        Some(k) => Some(file_name.subrange(k, file_name.len() as int)),
        None => None,
    }
}

/// An optional extension, or the empty text.
pub open spec fn extension_or_empty(extension: Option<Seq<char>>) -> Seq<char> {
    match extension {
        Some(e) => e,
        None => seq![],
    }
}

/// Where a document's content goes: the database for a private document, else the file at its
/// relative path and extension, joined onto the storage directory.
pub open spec fn stored_as(
    target: StorageTarget,
    is_private: bool,
    storage_dir: Seq<char>,
    id: DocumentId,
    extension: Seq<char>,
) -> bool {
    if is_private {
        target is Database
    } else {
        &&& target is Disk
        &&& (target->Disk_0)@ == joined_path(storage_dir, relative_path_of(id) + extension)
    }
}

/// The row of a new document named `file_name`: its name without extension, and its extension.
pub open spec fn document_row_for(
    row: NewDocument,
    id: DocumentId,
    file_name: Seq<char>,
    content_type: Option<Seq<char>>,
    application: Seq<char>,
    username: Seq<char>,
) -> bool {
    &&& row.id_document == id
    &&& row.name@ == name_part(file_name)
    &&& text_of(row.extension) == extension_part(file_name)
    &&& text_of(row.content_type) == content_type
    &&& row.application@ == application
    &&& row.create_username@ == username
}

/// Where the content of a document goes.
fn storage_target(
    is_private: bool,
    env_state: &EnvironmentState,
    extension: Option<&str>,
    id: DocumentId,
) -> (r: Result<StorageTarget, DocumentError>)
    ensures
        r is Ok,
        stored_as(
            r.unwrap(),
            is_private,
            env_state.disk_storage_directory_path@,
            id,
            extension_or_empty(
                match extension {
                    Some(e) => Some(e@),
                    None => None,
                },
            ),
        ),
{
    if is_private {
        Ok(StorageTarget::Database)
    } else {
        proof {
            reveal_strlit("");
        }
        let ext = match extension {
            Some(e) => e,
            None => "",
        };
        let path = generate_path_by_uuid(env_state.disk_storage_directory_path.clone(), ext, id)?;
        Ok(StorageTarget::Disk(path))
    }
}

/// Plans saving an uploaded file as document `id`: the document row is named after the
/// uploaded file name (empty when the upload has none), split at its last `.` into name and
/// extension, and carries the upload's content type; a private document's content goes to the
/// database, a public one's to its file under the storage directory.
pub fn plan_document_save(
    id: DocumentId,
    file_name: Option<String>,
    content_type: Option<String>,
    application: &str,
    username: &str,
    is_private: bool,
    env_state: &EnvironmentState,
) -> (r: Result<SavePlan, DocumentError>)
    ensures
        r is Ok,
        ({
            let f = match file_name {
                Some(f) => f@,
                None => Seq::<char>::empty(),
            };
            &&& document_row_for(
                r.unwrap().document,
                id,
                f,
                text_of(content_type),
                application@,
                username@,
            )
            &&& stored_as(
                r.unwrap().target,
                is_private,
                env_state.disk_storage_directory_path@,
                id,
                extension_or_empty(extension_part(f)),
            )
        }),
{
    proof {
        reveal_strlit("");
    }
    let default_filename_to_scan = match file_name {
        Some(f) => f,
        None => String::new(),
    };
    let (filename, extension) = get_extension_and_file_name(default_filename_to_scan.as_str());
    let document = NewDocument {
        id_document: id,
        name: String::from_str(filename),
        extension: match extension {
            Some(e) => Some(String::from_str(e)),
            None => None,
        },
        content_type,
        application: String::from_str(application),
        create_username: String::from_str(username),
    };
    let target = storage_target(is_private, env_state, extension, id)?;
    Ok(SavePlan { document, target })
}

/// The extension of a file name, when it has one, starts with its `.`.
pub proof fn lemma_extension_starts_with_dot(file_name: Seq<char>)
    ensures
        extension_part(file_name) matches Some(e) ==> e.len() > 0 && e[0] == '.',
{
    crate::names::lemma_last_index_of(file_name, '.');
}

/// The media type that `mime_guess` assigns to a file extension.
pub uninterp spec fn guessed_mime_type(extension: Seq<char>) -> Seq<char>;

/// The media type of a file extension, from the `mime_guess` crate.
///
/// Calls `mime_guess::from_ext(extension).first_or_octet_stream()` and writes it as text.
/// The table lookup is not restated: the result is named `guessed_mime_type` of the extension.
/// The table's keys are bare extensions without a leading `.`, so an extension that starts
/// with `.` is found in none of them and gets `application/octet-stream`; the contract states
/// that case.
#[verifier::external_body]
fn guess_mime_type(extension: &str) -> (mime: String)
    ensures
        mime@ == guessed_mime_type(extension@),
        extension@.len() > 0 && extension@[0] == '.' ==> mime@ == "application/octet-stream"@,
{
    mime_guess::from_ext(extension).first_or_octet_stream().to_string()
}

/// Plans saving the file at `params.url_file` as document `id`: the file name is the part of
/// the URL after its last `/` (an error when it has none), split at its last `.` into name and
/// extension; the content type is the media type guessed from that extension.
pub fn plan_document_save_by_url(
    id: DocumentId,
    params: &SaveDocumentByUrlRequest,
    env_state: &EnvironmentState,
) -> (r: Result<SavePlan, DocumentError>)
    ensures
        match last_index_of(params.url_file@, '/') {
            None => r matches Err(DocumentError::FileNameNotInUrl(u)) && u@ == params.url_file@,
            Some(k) => {
                let f = params.url_file@.subrange(k + 1, params.url_file@.len() as int);
                &&& r is Ok
                &&& extension_part(f) is Some ==> (r.unwrap().document.content_type matches Some(m)
                    && m@ == "application/octet-stream"@)
                &&& document_row_for(
                    r.unwrap().document,
                    id,
                    f,
                    match extension_part(f) {
                        Some(e) => Some(guessed_mime_type(e)),
                        None => None,
                    },
                    params.application@,
                    params.username@,
                )
                &&& stored_as(
                    r.unwrap().target,
                    params.is_private_document,
                    env_state.disk_storage_directory_path@,
                    id,
                    extension_or_empty(extension_part(f)),
                )
            },
        },
{
    let url_file = params.url_file.as_str();
    let file_name_in_url = match get_file_name_in_url(url_file) {
        Some(f) => f,
        None => {
            return Err(DocumentError::FileNameNotInUrl(params.url_file.clone()));
        },
    };
    let (filename, extension) = get_extension_and_file_name(file_name_in_url);
    proof {
        lemma_extension_starts_with_dot(file_name_in_url@);
    }
    let mime_type = match extension {
        Some(e) => Some(guess_mime_type(e)),
        None => None,
    };
    let document = NewDocument {
        id_document: id,
        name: String::from_str(filename),
        extension: match extension {
            Some(e) => Some(String::from_str(e)),
            None => None,
        },
        content_type: mime_type,
        application: String::from_str(params.application.as_str()),
        create_username: String::from_str(params.username.as_str()),
    };
    let target = storage_target(params.is_private_document, env_state, extension, id)?;
    Ok(SavePlan { document, target })
}

/// Plans saving an uploaded file under a fresh random identifier, as `plan_document_save`
/// does for that identifier.
pub fn plan_upload(
    file_name: Option<String>,
    content_type: Option<String>,
    application: &str,
    username: &str,
    is_private: bool,
    env_state: &EnvironmentState,
) -> (r: Result<SavePlan, DocumentError>)
    ensures
        r is Ok,
        is_random_version(r.unwrap().document.id_document),
        ({
            let id = r.unwrap().document.id_document;
            let f = match file_name {
                Some(f) => f@,
                None => Seq::<char>::empty(),
            };
            &&& document_row_for(
                r.unwrap().document,
                id,
                f,
                text_of(content_type),
                application@,
                username@,
            )
            &&& stored_as(
                r.unwrap().target,
                is_private,
                env_state.disk_storage_directory_path@,
                id,
                extension_or_empty(extension_part(f)),
            )
        }),
{
    let id = new_document_id();
    plan_document_save(id, file_name, content_type, application, username, is_private, env_state)
}

/// Plans saving the file at a URL under a fresh random identifier, as
/// `plan_document_save_by_url` does for that identifier; the identifier is drawn first and
/// returned with the plan or the error.
pub fn plan_upload_by_url(params: &SaveDocumentByUrlRequest, env_state: &EnvironmentState) -> (r: (
    DocumentId,
    Result<SavePlan, DocumentError>,
))
    ensures
        is_random_version(r.0),
        match last_index_of(params.url_file@, '/') {
            None => r.1 matches Err(DocumentError::FileNameNotInUrl(u)) && u@ == params.url_file@,
            Some(k) => {
                let f = params.url_file@.subrange(k + 1, params.url_file@.len() as int);
                &&& r.1 is Ok
                &&& extension_part(f) is Some ==> (r.1.unwrap().document.content_type matches Some(m)
                    && m@ == "application/octet-stream"@)
                &&& document_row_for(
                    r.1.unwrap().document,
                    r.0,
                    f,
                    match extension_part(f) {
                        Some(e) => Some(guessed_mime_type(e)),
                        None => None,
                    },
                    params.application@,
                    params.username@,
                )
                &&& stored_as(
                    r.1.unwrap().target,
                    params.is_private_document,
                    env_state.disk_storage_directory_path@,
                    r.0,
                    extension_or_empty(extension_part(f)),
                )
            },
        },
{
    let id = new_document_id();
    (id, plan_document_save_by_url(id, params, env_state))
}

/// The `content` row of a private document: its bytes as Base64 text.
pub fn content_record(id: DocumentId, data: &[u8], username: &str) -> (r: Result<
    NewContent,
    DocumentError,
>)
    requires
        base64_len(data@.len()) <= usize::MAX,
    ensures
        r is Ok,
        r.unwrap().id_document == id,
        r.unwrap().data@ == base64_encode(data@),
        r.unwrap().create_username@ == username@,
{
    let content_file = read_content_bytes_to_base64(data)?;
    Ok(NewContent { id_document: id, data: content_file, create_username: String::from_str(username) })
}

/// The values that mark a document and its content as deleted by the requesting user at `now`.
pub fn deletion_records(document_delete: &DeleteDocumentRequest, now: i64) -> (r: (
    DeleteDocument,
    DeleteContent,
))
    ensures
        r.0.delete_datetime == now,
        r.0.delete_username@ == document_delete.username@,
        r.1.delete_datetime == now,
        r.1.delete_username@ == document_delete.username@,
{
    let delete_document = DeleteDocument {
        delete_datetime: now,
        delete_username: document_delete.username.clone(),
    };
    let delete_content = DeleteContent {
        delete_datetime: now,
        delete_username: document_delete.username.clone(),
    };
    (delete_document, delete_content)
}

/// Whether `extension` is one of `list`.
pub open spec fn listed(extension: Option<String>, list: Seq<String>) -> bool {
    extension matches Some(e) && exists|i: int| 0 <= i < list.len() && #[trigger] list[i]@ == e@
}

/// The documents that a search returns: those not deleted, of the requested application, of
/// the requested user (when one is given), and with an extension in each requested list that
/// is not empty. (Both lists are held against the extension.)
pub open spec fn document_matches(d: Document, filter: DocumentFilterRequest) -> bool {
    &&& d.delete_datetime is None
    &&& d.application@ == filter.application@
    &&& (filter.username matches Some(u) ==> d.create_username@ == u@)
    &&& (filter.extensions@.len() > 0 ==> listed(d.extension, filter.extensions@))
    &&& (filter.content_type@.len() > 0 ==> listed(d.extension, filter.content_type@))
}

/// The documents of `documents` that a search with `filter` returns, in order.
pub open spec fn selected_documents(documents: Seq<Document>, filter: DocumentFilterRequest) -> Seq<
    Document,
> {
    documents.filter(|d: Document| document_matches(d, filter))
}

/// The content rows that are not deleted.
pub open spec fn live_contents(contents: Seq<Content>) -> Seq<Content> {
    contents.filter(|c: Content| c.delete_datetime is None)
}

/// The rows of `contents` that belong to document `id`, in order.
pub open spec fn contents_of(contents: Seq<Content>, id: u128) -> Seq<Content> {
    contents.filter(|c: Content| c.id_document.value == id)
}

/// A document's extension, or the empty text.
pub open spec fn extension_text_of(d: Document) -> Seq<char> {
    extension_or_empty(text_of(d.extension))
}

/// `found` is what a search answers for document `d`: its identity and names, and as content
/// the data of its first live content row, or, when it has none, the URL of its file under the
/// mount path.
pub open spec fn found_document_for(
    found: FoundDocument,
    d: Document,
    live: Seq<Content>,
    mount_path: Seq<char>,
) -> bool {
    &&& found.id_document == d.id_document
    &&& found.name@ == d.name@
    &&& found.extension@ == extension_text_of(d)
    &&& found.application@ == d.application@
    &&& if contents_of(live, d.id_document.value).len() > 0 {
        found.content.content matches DocumentContent::Data(data) && data@ == contents_of(
            live,
            d.id_document.value,
        )[0].data@
    } else {
        found.content.content matches DocumentContent::Url(url) && url@ == mount_path + seq!['/']
            + relative_path_of(d.id_document) + extension_text_of(d)
    }
}

/// Whether `extension` is one of `list`.
fn is_listed(extension: &Option<String>, list: &Vec<String>) -> (r: bool)
    ensures
        r == listed(*extension, list@),
{
    match extension {
        Some(e) => {
            let mut i: usize = 0;
            while i < list.len()
                invariant
                    *extension == Some(*e),
                    i <= list@.len(),
                    forall|j: int| 0 <= j < i ==> list@[j]@ != e@,
                decreases list@.len() - i,
            {
                if list[i] == *e {
                    assert(list@[i as int]@ == e@);
                    return true;
                }
                i = i + 1;
            }
            false
        },
        None => false,
    }
}

/// Whether a search returns document `d`.
pub fn matches_filter(d: &Document, filter: &DocumentFilterRequest) -> (r: bool)
    ensures
        r == document_matches(*d, *filter),
{
    if d.delete_datetime.is_some() {
        return false;
    }
    if d.application != filter.application {
        return false;
    }
    match &filter.username {
        Some(username) => {
            if d.create_username != *username {
                return false;
            }
        },
        None => {},
    }
    if filter.extensions.len() > 0 && !is_listed(&d.extension, &filter.extensions) {
        return false;
    }
    if filter.content_type.len() > 0 && !is_listed(&d.extension, &filter.content_type) {
        return false;
    }
    true
}

/// The content rows grouped by document, from the `itertools` crate.
///
/// Calls `contents.iter().into_group_map_by(|c| c.id_document.value)`, which maps each document
/// id that some row carries to the rows that carry it, in their order. The contract states
/// exactly that map.
#[verifier::external_body]
fn group_contents_by_document<'a>(contents: &'a Vec<Content>) -> (groups: HashMap<
    u128,
    Vec<&'a Content>,
>)
    ensures
        forall|k: u128| #[trigger]
            groups@.contains_key(k) <==> contents_of(contents@, k).len() > 0,
        forall|k: u128| #[trigger]
            groups@.contains_key(k) ==> groups@[k]@.map_values(|c: &Content| *c) == contents_of(
                contents@,
                k,
            ),
{
    contents.iter().into_group_map_by(|c| c.id_document.value)
}

/// Keeps the content rows that are not deleted, in order.
fn keep_live_contents(contents: Vec<Content>) -> (live: Vec<Content>)
    ensures
        live@ == live_contents(contents@),
{
    let ghost original = contents@;
    let mut live: Vec<Content> = Vec::new();
    for c in it: contents
        invariant
            it.seq() == original,
            live@ == live_contents(original.take(it.index() as int)),
    {
        proof {
            reveal_with_fuel(Seq::<_>::filter, 1);
            assert(original.take(it.index() + 1).drop_last() =~= original.take(it.index() as int));
        }
        if c.delete_datetime.is_none() {
            live.push(c);
        }
    }
    proof {
        assert(original.take(original.len() as int) =~= original);
    }
    live
}

/// Answers a search over the document and content rows: the documents that match the filter,
/// in order, each with the data of its first live content row, or, when it has none, the URL
/// of its file under the mount path.
pub fn filter_documents(
    filter: DocumentFilterRequest,
    env_state: &EnvironmentState,
    documents: Vec<Document>,
    contents: Vec<Content>,
) -> (r: Result<Vec<FoundDocument>, DocumentError>)
    ensures
        r is Ok,
        ({
            let selected = selected_documents(documents@, filter);
            &&& r.unwrap()@.len() == selected.len()
            &&& forall|i: int|
                0 <= i < selected.len() ==> found_document_for(
                    #[trigger] r.unwrap()@[i],
                    selected[i],
                    live_contents(contents@),
                    env_state.mount_path@,
                )
        }),
{
    let live = keep_live_contents(contents);
    let group_content_by_document = group_contents_by_document(&live);
    let ghost original = documents@;
    let mut documents_founds: Vec<FoundDocument> = Vec::new();
    for doc in it: documents
        invariant
            it.seq() == original,
            forall|k: u128| #[trigger]
                group_content_by_document@.contains_key(k) <==> contents_of(live@, k).len() > 0,
            forall|k: u128| #[trigger]
                group_content_by_document@.contains_key(k) ==> group_content_by_document@[k]@.map_values(
                    |c: &Content| *c,
                ) == contents_of(live@, k),
            documents_founds@.len() == selected_documents(
                original.take(it.index() as int),
                filter,
            ).len(),
            forall|i: int|
                0 <= i < documents_founds@.len() ==> found_document_for(
                    #[trigger] documents_founds@[i],
                    selected_documents(original.take(it.index() as int), filter)[i],
                    live@,
                    env_state.mount_path@,
                ),
    {
        let ghost before = original.take(it.index() as int);
        let ghost d0 = doc;
        let ghost index = it.index();
        assert(d0 == original[index]);
        proof {
            reveal_with_fuel(Seq::<_>::filter, 1);
            assert(original.take(index + 1).drop_last() =~= before);
            assert(original.take(index + 1).last() == d0);
        }
        if matches_filter(&doc, &filter) {
            let Document { id_document, name, application, extension, .. } = doc;
            proof {
                reveal_strlit("");
            }
            let resolved_extension = match extension {
                Some(e) => e,
                None => String::from_str(""),
            };
            let document_content = match group_content_by_document.get(&id_document.value) {
                Some(c) => {
                    if c.len() > 0 {
                        let content_file: &Content = c[0];
                        DocumentContent::Data(content_file.data.clone())
                    } else {
                        DocumentContent::NoContent
                    }
                },
                None => {
                    let content_url = generate_url_by_uuid(
                        env_state.mount_path.clone(),
                        id_document,
                        resolved_extension.as_str(),
                    )?;
                    DocumentContent::Url(content_url)
                },
            };
            let found_document = FoundDocument {
                id_document,
                name,
                extension: resolved_extension,
                application,
                content: FoundContent { content: document_content },
            };
            assert(found_document.extension@ == extension_text_of(d0));
            assert(found_document_for(found_document, d0, live@, env_state.mount_path@));
            documents_founds.push(found_document);
            proof {
                reveal_with_fuel(Seq::<_>::filter, 1);
                assert(document_matches(d0, filter));
                assert(selected_documents(original.take(index + 1), filter) == selected_documents(
                    before,
                    filter,
                ).push(d0));
            }
        } else {
            proof {
                reveal_with_fuel(Seq::<_>::filter, 1);
                assert(selected_documents(original.take(index + 1), filter) == selected_documents(
                    before,
                    filter,
                ));
            }
        }
    }
    proof {
        assert(original.take(original.len() as int) =~= original);
    }
    Ok(documents_founds)
}

} // verus!
