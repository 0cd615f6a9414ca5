//! Properties that hold across the operations of the library.

use vstd::prelude::*;

use crate::encoding::{
    base64_decode, base64_encode, base64_len, is_base64_char, lemma_base64_injective,
    lemma_base64_len, lemma_base64_round_trip,
};
use crate::endpoints::{
    DocumentContentResponse, DocumentFilterRequest, FoundContentResponse, FoundDocumentResponse,
};
use vstd::std_specs::convert::FromSpec;
use crate::ids::{hyphenated_text, lemma_hyphenated_text_injective, lemma_hyphenated_text_shape, DocumentId};
use crate::models::{Content, DeleteDocument, Document, NewDocument};
use crate::names::{last_index_of, lemma_last_index_of};
use crate::operations::{
    contents_of, document_matches, document_row_for, extension_or_empty, extension_part, extension_text_of,
    found_document_for, live_contents, name_part, selected_documents, stored_as, text_of,
    DocumentContent, FoundContent, FoundDocument, StorageTarget,
};
use crate::storage::{hyphens_to_slashes, joined_path, relative_path_of};

verus! {

/// Splitting a file name loses nothing: its name part followed by its extension is the file
/// name again; an extension starts with its only `.`, and a name without extension has no `.`.
pub proof fn law_file_name_split_round_trip(file_name: Seq<char>)
    ensures
        name_part(file_name) + extension_or_empty(extension_part(file_name)) =~= file_name,
        match extension_part(file_name) {
            Some(e) => e.len() > 0 && e[0] == '.' && forall|j: int| 0 < j < e.len() ==> e[j] != '.',
            None => name_part(file_name) == file_name && forall|j: int|
                0 <= j < file_name.len() ==> file_name[j] != '.',
        },
{
    lemma_last_index_of(file_name, '.');
    match last_index_of(file_name, '.') {
        Some(k) => {
            let e = file_name.subrange(k, file_name.len() as int);
            assert forall|j: int| 0 < j < e.len() implies e[j] != '.' by {
                assert(e[j] == file_name[k + j]);
            }
        },
        None => {},
    }
}

/// The file name found in a URL is its last segment: the URL is what precedes it, `/`, and the
/// file name, which holds no `/`.
pub proof fn law_file_name_in_url_is_last_segment(url: Seq<char>)
    ensures
        match last_index_of(url, '/') {
            Some(k) => {
                let f = url.subrange(k + 1, url.len() as int);
                &&& url =~= url.subrange(0, k) + seq!['/'] + f
                &&& forall|j: int| 0 <= j < f.len() ==> f[j] != '/'
            },
            None => forall|j: int| 0 <= j < url.len() ==> url[j] != '/',
        },
{
    lemma_last_index_of(url, '/');
    match last_index_of(url, '/') {
        Some(k) => {
            let f = url.subrange(k + 1, url.len() as int);
            assert forall|j: int| 0 <= j < f.len() implies f[j] != '/' by {
                assert(f[j] == url[k + 1 + j]);
            }
        },
        None => {},
    }
}

/// The relative path of a document has 36 characters: four directories of 8, 4, 4 and 4
/// hexadecimal digits and a file name of 12, separated by `/`, with no `-` left.
pub proof fn law_relative_path_shape(id: DocumentId)
    ensures
        relative_path_of(id).len() == 36,
        forall|p: int|
            0 <= p < 36 ==> (#[trigger] relative_path_of(id)[p] == '/' <==> (p == 8 || p == 13
                || p == 18 || p == 23)),
        forall|p: int| 0 <= p < 36 ==> #[trigger] relative_path_of(id)[p] != '-',
{
    lemma_hyphenated_text_shape(id.value);
}

/// Distinct documents are stored at distinct relative paths, so no two documents share a file.
pub proof fn law_distinct_documents_have_distinct_paths(a: DocumentId, b: DocumentId)
    requires
        a != b,
    ensures
        relative_path_of(a) != relative_path_of(b),
{
    lemma_hyphenated_text_shape(a.value);
    lemma_hyphenated_text_shape(b.value);
    if relative_path_of(a) == relative_path_of(b) {
        assert forall|p: int| 0 <= p < 36 implies hyphenated_text(a.value)[p] == hyphenated_text(
            b.value,
        )[p] by {
            assert(relative_path_of(a)[p] == relative_path_of(b)[p]);
        }
        assert(hyphenated_text(a.value) =~= hyphenated_text(b.value));
        lemma_hyphenated_text_injective(a.value, b.value);
    }
}

/// The directory and file name of `path_by_uuid`, joined by `/`, are the relative path that
/// `url_by_uuid` gives.
pub proof fn law_path_and_url_agree(id: DocumentId)
    ensures
        hyphens_to_slashes(hyphenated_text(id.value).subrange(0, 23)) + seq!['/']
            + hyphenated_text(id.value).subrange(24, 36) =~= relative_path_of(id),
{
    lemma_hyphenated_text_shape(id.value);
}

/// The two file layouts put a document in the same directory, and the file name of the layout
/// that keeps the hyphen is the other layout's file name with a `-` in front.
pub proof fn law_layouts_differ_by_leading_hyphen(id: DocumentId)
    ensures
        hyphenated_text(id.value).subrange(23, 36) =~= seq!['-'] + hyphenated_text(id.value).subrange(
            24,
            36,
        ),
{
    lemma_hyphenated_text_shape(id.value);
}

/// A public document is served where it was stored: the file that saving writes is its
/// relative path and extension joined onto the storage directory, and the URL that a search
/// answers is the mount path, `/`, and the same relative path and extension.
pub proof fn law_public_document_is_served_where_stored(
    target: StorageTarget,
    storage_dir: Seq<char>,
    found: FoundDocument,
    d: Document,
    live: Seq<Content>,
    mount_path: Seq<char>,
)
    requires
        stored_as(target, false, storage_dir, d.id_document, extension_text_of(d)),
        found_document_for(found, d, live, mount_path),
        contents_of(live, d.id_document.value).len() == 0,
    ensures
        ({
            let rel = relative_path_of(d.id_document) + extension_text_of(d);
            &&& target matches StorageTarget::Disk(path) && path@ == joined_path(storage_dir, rel)
            &&& found.content.content matches DocumentContent::Url(url) && url@ == mount_path
                + seq!['/'] + rel
        }),
{
    let rel = relative_path_of(d.id_document) + extension_text_of(d);
    assert(mount_path + seq!['/'] + relative_path_of(d.id_document) + extension_text_of(d)
        =~= mount_path + seq!['/'] + rel);
}

/// A private document is found with the content it was saved with: when its live content rows
/// start with the row holding the Base64 text of its bytes, a search answers that text inline.
pub proof fn law_private_document_is_found_inline(
    bytes: Seq<u8>,
    found: FoundDocument,
    d: Document,
    live: Seq<Content>,
    mount_path: Seq<char>,
)
    requires
        contents_of(live, d.id_document.value).len() > 0,
        contents_of(live, d.id_document.value)[0].data@ == base64_encode(bytes),
        found_document_for(found, d, live, mount_path),
    ensures
        found.content.content matches DocumentContent::Data(data) && data@ == base64_encode(bytes),
{
}

/// The Base64 text of a private document keeps its content: distinct contents are stored as
/// distinct texts, and the text has four characters for every started group of three bytes.
pub proof fn law_stored_text_keeps_content(a: Seq<u8>, b: Seq<u8>)
    ensures
        a != b ==> base64_encode(a) != base64_encode(b),
        base64_encode(a).len() == base64_len(a.len()),
{
    if base64_encode(a) == base64_encode(b) {
        lemma_base64_injective(a, b);
    }
    lemma_base64_len(a);
}

/// The stored text of a private document is standard padded Base64: made of the alphabet
/// `A-Z a-z 0-9 + /` with `=` only among its last two characters, and decoding it gives the
/// content back.
pub proof fn law_stored_text_is_standard_base64(b: Seq<u8>)
    ensures
        base64_decode(base64_encode(b)) == b,
        forall|i: int|
            0 <= i < base64_encode(b).len() ==> is_base64_char(#[trigger] base64_encode(b)[i]) || (
            base64_encode(b)[i] == '=' && i >= base64_encode(b).len() - 2),
{
    lemma_base64_round_trip(b);
}

/// A search returns exactly the given documents that match its filter.
pub proof fn law_search_returns_exactly_matching(
    documents: Seq<Document>,
    filter: DocumentFilterRequest,
    d: Document,
)
    ensures
        selected_documents(documents, filter).contains(d) <==> documents.contains(d)
            && document_matches(d, filter),
{
    broadcast use vstd::seq_lib::group_filter_ensures;

    let p = |x: Document| document_matches(x, filter);
    if documents.contains(d) && document_matches(d, filter) {
        let i = choose|i: int| 0 <= i < documents.len() && documents[i] == d;
        documents.lemma_filter_contains(p, i);
    }
    if selected_documents(documents, filter).contains(d) {
        let i = choose|i: int|
            0 <= i < selected_documents(documents, filter).len() && selected_documents(
                documents,
                filter,
            )[i] == d;
        documents.lemma_filter_pred(p, i);
        documents.lemma_filter_contains_rev(p, d);
    }
}

/// A document marked as deleted is never returned by a search.
pub proof fn law_deleted_document_is_never_found(
    documents: Seq<Document>,
    filter: DocumentFilterRequest,
    d: Document,
)
    requires
        d.delete_datetime is Some,
    ensures
        !selected_documents(documents, filter).contains(d),
{
    law_search_returns_exactly_matching(documents, filter, d);
}

/// `d` is the row that the `document` table holds for the inserted values `row`, not deleted.
pub open spec fn holds_inserted_row(d: Document, row: NewDocument) -> bool {
    &&& d.id_document == row.id_document
    &&& d.name@ == row.name@
    &&& text_of(d.extension) == text_of(row.extension)
    &&& d.application@ == row.application@
    &&& d.create_username@ == row.create_username@
    &&& d.delete_datetime is None
}

/// At most one of `documents` carries the identifier `id`.
pub open spec fn id_unique(documents: Seq<Document>, id: DocumentId) -> bool {
    forall|i: int, j: int|
        0 <= i < documents.len() && 0 <= j < documents.len() && #[trigger] documents[i].id_document
            == id && #[trigger] documents[j].id_document == id ==> i == j
}

/// A search keeps identifiers unique.
proof fn lemma_search_keeps_id_unique(
    documents: Seq<Document>,
    filter: DocumentFilterRequest,
    id: DocumentId,
)
    requires
        id_unique(documents, id),
    ensures
        id_unique(selected_documents(documents, filter), id),
    decreases documents.len(),
{
    broadcast use vstd::seq_lib::group_filter_ensures;

    reveal_with_fuel(Seq::<_>::filter, 1);
    if documents.len() > 0 {
        let rest = documents.drop_last();
        let p = |d: Document| document_matches(d, filter);
        assert forall|i: int, j: int|
            0 <= i < rest.len() && 0 <= j < rest.len() && #[trigger] rest[i].id_document == id
                && #[trigger] rest[j].id_document == id implies i == j by {
            assert(documents[i] == rest[i] && documents[j] == rest[j]);
        }
        lemma_search_keeps_id_unique(rest, filter, id);
        let sel = selected_documents(rest, filter);
        if document_matches(documents.last(), filter) && documents.last().id_document == id {
            assert forall|k: int| 0 <= k < sel.len() implies sel[k].id_document != id by {
                assert(sel.contains(sel[k]));
                rest.lemma_filter_contains_rev(p, sel[k]);
                let m = choose|m: int| 0 <= m < rest.len() && rest[m] == sel[k];
                if sel[k].id_document == id {
                    assert(documents[m].id_document == id);
                    assert(documents[documents.len() - 1].id_document == id);
                }
            }
            let full = selected_documents(documents, filter);
            assert(full == sel.push(documents.last()));
            assert forall|i: int, j: int|
                0 <= i < full.len() && 0 <= j < full.len() && #[trigger] full[i].id_document == id
                    && #[trigger] full[j].id_document == id implies i == j by {
                if i < sel.len() {
                    assert(full[i] == sel[i]);
                }
                if j < sel.len() {
                    assert(full[j] == sel[j]);
                }
            }
        } else if document_matches(documents.last(), filter) {
            let full = selected_documents(documents, filter);
            assert(full == sel.push(documents.last()));
            assert forall|i: int, j: int|
                0 <= i < full.len() && 0 <= j < full.len() && #[trigger] full[i].id_document == id
                    && #[trigger] full[j].id_document == id implies i == j by {
                if i < sel.len() {
                    assert(full[i] == sel[i]);
                }
                if j < sel.len() {
                    assert(full[j] == sel[j]);
                }
            }
        }
    }
}

/// A saved document is found by a search of its application: when the `document` table holds
/// the planned row (and no other row with its identifier), and the live content rows of the
/// document start with the Base64 text of its bytes if it is private and are none if it is
/// public, the search answers it exactly once, with that text inline for a private document,
/// or, for a public one, with the URL under the mount path of the file that the plan stores
/// under the storage directory.
pub proof fn law_saved_document_is_found(
    row: NewDocument,
    target: StorageTarget,
    is_private: bool,
    storage_dir: Seq<char>,
    bytes: Seq<u8>,
    documents: Seq<Document>,
    k: int,
    contents: Seq<Content>,
    filter: DocumentFilterRequest,
    mount_path: Seq<char>,
    found: Seq<FoundDocument>,
)
    requires
        stored_as(
            target,
            is_private,
            storage_dir,
            row.id_document,
            extension_or_empty(text_of(row.extension)),
        ),
        0 <= k < documents.len(),
        holds_inserted_row(documents[k], row),
        id_unique(documents, row.id_document),
        is_private ==> contents_of(live_contents(contents), row.id_document.value).len() > 0
            && contents_of(live_contents(contents), row.id_document.value)[0].data@
            == base64_encode(bytes),
        !is_private ==> contents_of(live_contents(contents), row.id_document.value).len() == 0,
        filter.username is None,
        filter.application@ == row.application@,
        filter.extensions@.len() == 0,
        filter.content_type@.len() == 0,
        found.len() == selected_documents(documents, filter).len(),
        forall|i: int|
            0 <= i < found.len() ==> found_document_for(
                #[trigger] found[i],
                selected_documents(documents, filter)[i],
                live_contents(contents),
                mount_path,
            ),
    ensures
        exists|i: int|
            0 <= i < found.len() && #[trigger] found[i].id_document == row.id_document && {
                let rel = relative_path_of(row.id_document) + extension_or_empty(
                    text_of(row.extension),
                );
                if is_private {
                    found[i].content.content matches DocumentContent::Data(data) && data@
                        == base64_encode(bytes)
                } else {
                    &&& found[i].content.content matches DocumentContent::Url(url) && url@
                        == mount_path + seq!['/'] + rel
                    &&& target matches StorageTarget::Disk(path) && path@ == joined_path(
                        storage_dir,
                        rel,
                    )
                }
            },
        forall|i: int, j: int|
            0 <= i < found.len() && 0 <= j < found.len() && #[trigger] found[i].id_document
                == row.id_document && #[trigger] found[j].id_document == row.id_document ==> i == j,
{
    let d = documents[k];
    let sel = selected_documents(documents, filter);
    assert(document_matches(d, filter));
    assert(documents.contains(d));
    law_search_returns_exactly_matching(documents, filter, d);
    let i = choose|i: int| 0 <= i < sel.len() && sel[i] == d;
    assert(found_document_for(found[i], d, live_contents(contents), mount_path));
    assert(extension_text_of(d) == extension_or_empty(text_of(row.extension)));
    let rel = relative_path_of(row.id_document) + extension_or_empty(text_of(row.extension));
    assert(mount_path + seq!['/'] + relative_path_of(d.id_document) + extension_text_of(d)
        =~= mount_path + seq!['/'] + rel);
    assert(found[i].id_document == row.id_document);
    lemma_search_keeps_id_unique(documents, filter, row.id_document);
    assert forall|a: int, b: int|
        0 <= a < found.len() && 0 <= b < found.len() && #[trigger] found[a].id_document
            == row.id_document && #[trigger] found[b].id_document == row.id_document implies a
        == b by {
        assert(found_document_for(found[a], sel[a], live_contents(contents), mount_path));
        assert(found_document_for(found[b], sel[b], live_contents(contents), mount_path));
    }
}

/// `found` is what `filter_documents` answers for `filter` over these rows (its contract).
pub open spec fn search_answer(
    found: Seq<FoundDocument>,
    documents: Seq<Document>,
    contents: Seq<Content>,
    filter: DocumentFilterRequest,
    mount_path: Seq<char>,
) -> bool {
    &&& found.len() == selected_documents(documents, filter).len()
    &&& forall|i: int|
        0 <= i < found.len() ==> found_document_for(
            #[trigger] found[i],
            selected_documents(documents, filter)[i],
            live_contents(contents),
            mount_path,
        )
}

/// Each document of a search answer is a document of the rows that matches the filter.
proof fn lemma_answered_document(
    found: Seq<FoundDocument>,
    documents: Seq<Document>,
    contents: Seq<Content>,
    filter: DocumentFilterRequest,
    mount_path: Seq<char>,
    i: int,
) -> (d: Document)
    requires
        search_answer(found, documents, contents, filter, mount_path),
        0 <= i < found.len(),
    ensures
        documents.contains(d),
        document_matches(d, filter),
        found[i].id_document == d.id_document,
{
    let sel = selected_documents(documents, filter);
    let d = sel[i];
    assert(sel.contains(d));
    law_search_returns_exactly_matching(documents, filter, d);
    assert(found_document_for(found[i], d, live_contents(contents), mount_path));
    d
}

/// Narrowing a search of an application by user, extensions or content types only narrows its
/// answer: every document that the narrower search answers, the search of the whole
/// application answers too.
pub proof fn law_narrower_search_answers_fewer(
    documents: Seq<Document>,
    contents: Seq<Content>,
    whole: DocumentFilterRequest,
    narrow: DocumentFilterRequest,
    mount_path: Seq<char>,
    found_whole: Seq<FoundDocument>,
    found_narrow: Seq<FoundDocument>,
)
    requires
        whole.username is None,
        whole.extensions@.len() == 0,
        whole.content_type@.len() == 0,
        narrow.application@ == whole.application@,
        search_answer(found_whole, documents, contents, whole, mount_path),
        search_answer(found_narrow, documents, contents, narrow, mount_path),
    ensures
        forall|i: int|
            #![trigger found_narrow[i]]
            0 <= i < found_narrow.len() ==> exists|j: int|
                #![trigger found_whole[j]]
                0 <= j < found_whole.len() && found_whole[j].id_document
                    == found_narrow[i].id_document,
{
    assert forall|i: int| #![trigger found_narrow[i]] 0 <= i < found_narrow.len() implies exists|
        j: int,
    |
        #![trigger found_whole[j]]
        0 <= j < found_whole.len() && found_whole[j].id_document == found_narrow[i].id_document by {
        let d = lemma_answered_document(found_narrow, documents, contents, narrow, mount_path, i);
        assert(document_matches(d, whole));
        law_search_returns_exactly_matching(documents, whole, d);
        let sel = selected_documents(documents, whole);
        let j = choose|j: int| 0 <= j < sel.len() && sel[j] == d;
        assert(found_document_for(found_whole[j], d, live_contents(contents), mount_path));
        assert(found_whole[j].id_document == found_narrow[i].id_document);
    }
}

/// After a document is deleted (every row with its identifier marked with the deletion time
/// and user of `deletion`), no search answers it, whatever its filter.
pub proof fn law_deleted_document_is_not_answered(
    id: DocumentId,
    deletion: DeleteDocument,
    documents: Seq<Document>,
    contents: Seq<Content>,
    filter: DocumentFilterRequest,
    mount_path: Seq<char>,
    found: Seq<FoundDocument>,
)
    requires
        forall|k: int|
            0 <= k < documents.len() && #[trigger] documents[k].id_document == id ==> {
                &&& documents[k].delete_datetime == Some(deletion.delete_datetime)
                &&& documents[k].delete_username matches Some(u) && u@ == deletion.delete_username@
            },
        search_answer(found, documents, contents, filter, mount_path),
    ensures
        forall|i: int| 0 <= i < found.len() ==> #[trigger] found[i].id_document != id,
{
    assert forall|i: int| 0 <= i < found.len() implies #[trigger] found[i].id_document != id by {
        let d = lemma_answered_document(found, documents, contents, filter, mount_path, i);
        let k = choose|k: int| 0 <= k < documents.len() && documents[k] == d;
        assert(documents[k] == d);
    }
}

/// A search answers a live document of the requested application and user whose extension is
/// anywhere in each requested list that is not empty.
pub proof fn law_extension_anywhere_in_list_is_answered(
    documents: Seq<Document>,
    k: int,
    filter: DocumentFilterRequest,
)
    requires
        0 <= k < documents.len(),
        documents[k].delete_datetime is None,
        documents[k].application@ == filter.application@,
        filter.username matches Some(u) ==> documents[k].create_username@ == u@,
        filter.extensions@.len() > 0 ==> (documents[k].extension matches Some(e) && exists|i: int|
            0 <= i < filter.extensions@.len() && #[trigger] filter.extensions@[i]@ == e@),
        filter.content_type@.len() > 0 ==> (documents[k].extension matches Some(e) && exists|
            i: int,
        |
            0 <= i < filter.content_type@.len() && #[trigger] filter.content_type@[i]@ == e@),
    ensures
        selected_documents(documents, filter).contains(documents[k]),
{
    assert(documents.contains(documents[k]));
    law_search_returns_exactly_matching(documents, filter, documents[k]);
}

/// A search does not answer a document whose extension is missing from a requested list that
/// is not empty.
pub proof fn law_extension_missing_from_list_is_not_answered(
    documents: Seq<Document>,
    filter: DocumentFilterRequest,
    d: Document,
)
    requires
        (filter.extensions@.len() > 0 && forall|i: int|
            0 <= i < filter.extensions@.len() ==> !(d.extension matches Some(e)
                && #[trigger] filter.extensions@[i]@ == e@)) || (filter.content_type@.len() > 0
            && forall|i: int|
            0 <= i < filter.content_type@.len() ==> !(d.extension matches Some(e)
                && #[trigger] filter.content_type@[i]@ == e@)),
    ensures
        !selected_documents(documents, filter).contains(d),
{
    law_search_returns_exactly_matching(documents, filter, d);
}

/// The row planned for a file keeps what the file name and the request say: its name followed
/// by its extension is the file name, an extension starts with its only `.`, the content type,
/// application and user are those given, and the content is stored under the row's extension.
pub proof fn law_planned_row_keeps_file_name(
    row: NewDocument,
    id: DocumentId,
    file_name: Seq<char>,
    content_type: Option<Seq<char>>,
    application: Seq<char>,
    username: Seq<char>,
    target: StorageTarget,
    is_private: bool,
    storage_dir: Seq<char>,
)
    requires
        document_row_for(row, id, file_name, content_type, application, username),
        stored_as(target, is_private, storage_dir, id, extension_or_empty(extension_part(file_name))),
    ensures
        row.id_document == id,
        row.name@ + extension_or_empty(text_of(row.extension)) =~= file_name,
        row.extension matches Some(e) ==> e@.len() > 0 && e@[0] == '.' && forall|j: int|
            0 < j < e@.len() ==> e@[j] != '.',
        row.extension is None ==> forall|j: int| 0 <= j < file_name.len() ==> file_name[j] != '.',
        text_of(row.content_type) == content_type,
        row.application@ == application,
        row.create_username@ == username,
        stored_as(target, is_private, storage_dir, id, extension_or_empty(text_of(row.extension))),
{
    law_file_name_split_round_trip(file_name);
}

/// The answer to a found document keeps its identity, names and content: inline data stays
/// that data, a URL stays that URL, and no content stays no content.
pub proof fn law_response_keeps_found_document(v: FoundDocument)
    ensures
        ({
            let r = <FoundDocumentResponse as FromSpec<FoundDocument>>::from_spec(v);
            &&& r.id_document == v.id_document
            &&& r.name == v.name
            &&& r.extension == v.extension
            &&& r.application == v.application
            &&& match v.content.content {
                DocumentContent::Data(d) => r.content.content == DocumentContentResponse::Data(d),
                DocumentContent::Url(u) => r.content.content == DocumentContentResponse::Url(u),
                DocumentContent::NoContent => r.content.content
                    == DocumentContentResponse::NoContent,
            }
        }),
        ({
            let c = <FoundContentResponse as FromSpec<FoundContent>>::from_spec(v.content);
            match v.content.content {
                DocumentContent::Data(d) => c.content == DocumentContentResponse::Data(d),
                DocumentContent::Url(u) => c.content == DocumentContentResponse::Url(u),
                DocumentContent::NoContent => c.content == DocumentContentResponse::NoContent,
            }
        }),
{
}

/// Turning hyphens into slashes changes nothing else: the text keeps its length, each `-`
/// becomes `/`, and every other character stays where it was.
pub proof fn law_hyphens_to_slashes_changes_only_hyphens(s: Seq<char>)
    ensures
        hyphens_to_slashes(s).len() == s.len(),
        forall|i: int|
            0 <= i < s.len() ==> #[trigger] hyphens_to_slashes(s)[i] == if s[i] == '-' {
                '/'
            } else {
                s[i]
            },
{
}

/// Outside the four separator positions, the relative path of a document shows the
/// identifier's own text, character for character; at those positions it has `/`. The
/// directory of `path_by_uuid` is likewise the first 23 characters of the identifier text with
/// only its hyphens turned into slashes.
pub proof fn law_relative_path_shows_identifier_text(id: DocumentId)
    ensures
        relative_path_of(id).len() == 36,
        forall|p: int|
            0 <= p < 36 && p != 8 && p != 13 && p != 18 && p != 23 ==> #[trigger] relative_path_of(
                id,
            )[p] == hyphenated_text(id.value)[p],
        forall|p: int|
            0 <= p < 36 && (p == 8 || p == 13 || p == 18 || p == 23) ==> #[trigger] relative_path_of(
                id,
            )[p] == '/',
        hyphens_to_slashes(hyphenated_text(id.value).subrange(0, 23)).len() == 23,
        forall|p: int|
            0 <= p < 23 && p != 8 && p != 13 && p != 18 ==> #[trigger] hyphens_to_slashes(
                hyphenated_text(id.value).subrange(0, 23),
            )[p] == hyphenated_text(id.value)[p],
{
    lemma_hyphenated_text_shape(id.value);
    law_hyphens_to_slashes_changes_only_hyphens(hyphenated_text(id.value));
    law_hyphens_to_slashes_changes_only_hyphens(hyphenated_text(id.value).subrange(0, 23));
}

/// Every document that a search answers is live, of the requested application, of the
/// requested user when one is given, and has an extension found in each requested list that is
/// not empty.
pub proof fn law_answered_document_meets_filter(
    documents: Seq<Document>,
    filter: DocumentFilterRequest,
    d: Document,
)
    requires
        selected_documents(documents, filter).contains(d),
    ensures
        documents.contains(d),
        d.delete_datetime is None,
        d.application@ == filter.application@,
        filter.username matches Some(u) ==> d.create_username@ == u@,
        filter.extensions@.len() > 0 ==> (d.extension matches Some(e) && exists|i: int|
            0 <= i < filter.extensions@.len() && #[trigger] filter.extensions@[i]@ == e@),
        filter.content_type@.len() > 0 ==> (d.extension matches Some(e) && exists|i: int|
            0 <= i < filter.content_type@.len() && #[trigger] filter.content_type@[i]@ == e@),
{
    law_search_returns_exactly_matching(documents, filter, d);
}

/// The live content rows are exactly the rows not marked as deleted, in their order.
pub proof fn law_live_contents_are_the_undeleted_rows(contents: Seq<Content>, c: Content)
    ensures
        live_contents(contents).contains(c) <==> contents.contains(c) && c.delete_datetime is None,
        live_contents(contents).len() <= contents.len(),
{
    broadcast use vstd::seq_lib::group_filter_ensures;

    let p = |x: Content| x.delete_datetime is None;
    if contents.contains(c) && c.delete_datetime is None {
        let i = choose|i: int| 0 <= i < contents.len() && contents[i] == c;
        contents.lemma_filter_contains(p, i);
    }
    if live_contents(contents).contains(c) {
        let i = choose|i: int|
            0 <= i < live_contents(contents).len() && live_contents(contents)[i] == c;
        contents.lemma_filter_pred(p, i);
        contents.lemma_filter_contains_rev(p, c);
    }
}

} // verus!
