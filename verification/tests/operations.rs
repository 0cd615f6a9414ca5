use document_manager::config::{configure_storage_directory, EnvironmentState, StorageDirectoryAction};
use document_manager::encoding::read_content_bytes_to_base64;
use document_manager::endpoints::{
    found_documents_response, DeleteDocumentRequest, DocumentContentResponse, DocumentFilterRequest,
    FoundContentResponse, FoundDocumentResponse, SaveDocumentByUrlRequest,
};
use document_manager::error::DocumentError;
use document_manager::ids::DocumentId;
use document_manager::models::{Content, Document};
use document_manager::operations::{
    content_record, deletion_records, filter_documents, matches_filter, plan_document_save,
    plan_document_save_by_url, plan_upload, plan_upload_by_url, DocumentContent, FoundContent, FoundDocument, StorageTarget,
};
use document_manager::storage::url_by_uuid;

const SAMPLE: u128 = 0x67e5504410b1426f9247bb680e5fe0c8;
const OTHER: u128 = 0x00000000000040008000000000000001;

fn env() -> EnvironmentState {
    EnvironmentState {
        mount_path: "/files".to_string(),
        disk_storage_directory_path: "/data/storage".to_string(),
    }
}

fn document(value: u128, name: &str, application: &str, user: &str, extension: Option<&str>) -> Document {
    Document {
        id_document: DocumentId { value },
        name: name.to_string(),
        application: application.to_string(),
        extension: extension.map(|e| e.to_string()),
        content_type: None,
        create_datetime: 1_700_000_000_000_000,
        create_username: user.to_string(),
        update_datetime: None,
        update_username: None,
        delete_datetime: None,
        delete_username: None,
    }
}

fn content(id: u128, value: u128, data: &str, deleted: bool) -> Content {
    Content {
        id,
        id_document: DocumentId { value },
        data: data.to_string(),
        create_datetime: 1_700_000_000_000_000,
        create_username: "ana".to_string(),
        delete_datetime: if deleted { Some(1_700_000_100_000_000) } else { None },
        delete_username: if deleted { Some("bob".to_string()) } else { None },
    }
}

fn filter(application: &str) -> DocumentFilterRequest {
    DocumentFilterRequest {
        username: None,
        application: application.to_string(),
        extensions: vec![],
        content_type: vec![],
    }
}

#[test]
fn base64_of_three_bytes() {
    assert_eq!(read_content_bytes_to_base64(b"Man").unwrap(), "TWFu");
}

#[test]
fn base64_pads_two_bytes() {
    assert_eq!(read_content_bytes_to_base64(b"Ma").unwrap(), "TWE=");
}

#[test]
fn base64_pads_one_byte() {
    assert_eq!(read_content_bytes_to_base64(b"M").unwrap(), "TQ==");
}

#[test]
fn base64_of_nothing_is_empty() {
    assert_eq!(read_content_bytes_to_base64(b"").unwrap(), "");
}

#[test]
fn base64_uses_plus_and_slash() {
    assert_eq!(read_content_bytes_to_base64(&[0xfb, 0xff, 0xbf]).unwrap(), "+/+/");
}

#[test]
fn base64_length_is_four_per_started_group() {
    let data = vec![7u8; 100];
    assert_eq!(read_content_bytes_to_base64(&data).unwrap().len(), 4 * ((100 + 2) / 3));
}

#[test]
fn private_upload_goes_to_database() {
    let plan = plan_document_save(
        DocumentId { value: SAMPLE },
        Some("report.final.pdf".to_string()),
        Some("application/pdf".to_string()),
        "erp",
        "ana",
        true,
        &env(),
    )
    .unwrap();
    assert_eq!(plan.document.id_document, DocumentId { value: SAMPLE });
    assert_eq!(plan.document.name, "report.final");
    assert_eq!(plan.document.extension, Some(".pdf".to_string()));
    assert_eq!(plan.document.content_type, Some("application/pdf".to_string()));
    assert_eq!(plan.document.application, "erp");
    assert_eq!(plan.document.create_username, "ana");
    assert_eq!(plan.target, StorageTarget::Database);
}

#[test]
fn public_upload_goes_to_its_file() {
    let plan = plan_document_save(
        DocumentId { value: SAMPLE },
        Some("photo.png".to_string()),
        None,
        "web",
        "bob",
        false,
        &env(),
    )
    .unwrap();
    assert_eq!(plan.document.content_type, None);
    assert_eq!(
        plan.target,
        StorageTarget::Disk("/data/storage/67e55044/10b1/426f/9247/bb680e5fe0c8.png".to_string())
    );
}

#[test]
fn upload_without_name_has_empty_name_and_no_extension() {
    let plan = plan_document_save(DocumentId { value: SAMPLE }, None, None, "web", "bob", false, &env()).unwrap();
    assert_eq!(plan.document.name, "");
    assert_eq!(plan.document.extension, None);
    assert_eq!(
        plan.target,
        StorageTarget::Disk("/data/storage/67e55044/10b1/426f/9247/bb680e5fe0c8".to_string())
    );
}

#[test]
fn save_by_url_takes_name_from_last_segment() {
    let params = SaveDocumentByUrlRequest {
        url_file: "https://example.com/docs/invoice.pdf".to_string(),
        application: "erp".to_string(),
        is_private_document: false,
        username: "ana".to_string(),
    };
    let plan = plan_document_save_by_url(DocumentId { value: SAMPLE }, &params, &env()).unwrap();
    assert_eq!(plan.document.name, "invoice");
    assert_eq!(plan.document.extension, Some(".pdf".to_string()));
    assert_eq!(plan.document.content_type, Some("application/octet-stream".to_string()));
    assert_eq!(
        plan.target,
        StorageTarget::Disk("/data/storage/67e55044/10b1/426f/9247/bb680e5fe0c8.pdf".to_string())
    );
}

#[test]
fn save_by_url_without_extension_has_no_content_type() {
    let params = SaveDocumentByUrlRequest {
        url_file: "https://example.com/docs/LICENSE".to_string(),
        application: "erp".to_string(),
        is_private_document: true,
        username: "ana".to_string(),
    };
    let plan = plan_document_save_by_url(DocumentId { value: SAMPLE }, &params, &env()).unwrap();
    assert_eq!(plan.document.name, "LICENSE");
    assert_eq!(plan.document.extension, None);
    assert_eq!(plan.document.content_type, None);
    assert_eq!(plan.target, StorageTarget::Database);
}

#[test]
fn save_by_url_without_slash_is_refused() {
    let params = SaveDocumentByUrlRequest {
        url_file: "invoice.pdf".to_string(),
        application: "erp".to_string(),
        is_private_document: true,
        username: "ana".to_string(),
    };
    assert_eq!(
        plan_document_save_by_url(DocumentId { value: SAMPLE }, &params, &env()),
        Err(DocumentError::FileNameNotInUrl("invoice.pdf".to_string()))
    );
}

#[test]
fn content_record_holds_base64() {
    let record = content_record(DocumentId { value: SAMPLE }, b"hello world", "ana").unwrap();
    assert_eq!(record.id_document, DocumentId { value: SAMPLE });
    assert_eq!(record.data, "aGVsbG8gd29ybGQ=");
    assert_eq!(record.create_username, "ana");
}

#[test]
fn deletion_records_share_time_and_user() {
    let request = DeleteDocumentRequest { id_document: DocumentId { value: SAMPLE }, username: "carl".to_string() };
    let (document, content) = deletion_records(&request, 42);
    assert_eq!(document.delete_datetime, 42);
    assert_eq!(document.delete_username, "carl");
    assert_eq!(content.delete_datetime, 42);
    assert_eq!(content.delete_username, "carl");
}

#[test]
fn filter_keeps_live_documents_of_application() {
    let mut deleted = document(OTHER, "old", "erp", "ana", Some(".txt"));
    deleted.delete_datetime = Some(5);
    let docs = vec![
        document(SAMPLE, "report", "erp", "ana", Some(".pdf")),
        deleted,
        document(3, "memo", "crm", "ana", Some(".pdf")),
    ];
    let found = filter_documents(filter("erp"), &env(), docs, vec![]).unwrap();
    assert_eq!(found.len(), 1);
    assert_eq!(found[0].id_document, DocumentId { value: SAMPLE });
    assert_eq!(found[0].name, "report");
    assert_eq!(found[0].extension, ".pdf");
    assert_eq!(found[0].application, "erp");
    assert_eq!(
        found[0].content.content,
        DocumentContent::Url("/files/67e55044/10b1/426f/9247/bb680e5fe0c8.pdf".to_string())
    );
}

#[test]
fn filter_by_username_and_extension() {
    let docs = vec![
        document(1, "a", "erp", "ana", Some(".pdf")),
        document(2, "b", "erp", "bob", Some(".pdf")),
        document(3, "c", "erp", "ana", Some(".doc")),
        document(4, "d", "erp", "ana", None),
    ];
    let mut request = filter("erp");
    request.username = Some("ana".to_string());
    request.extensions = vec![".pdf".to_string(), ".png".to_string()];
    let found = filter_documents(request, &env(), docs, vec![]).unwrap();
    assert_eq!(found.len(), 1);
    assert_eq!(found[0].name, "a");
}

#[test]
fn content_type_list_is_held_against_extension() {
    let docs = vec![document(1, "a", "erp", "ana", Some(".pdf")), document(2, "b", "erp", "ana", Some(".doc"))];
    let mut request = filter("erp");
    request.content_type = vec![".doc".to_string()];
    let found = filter_documents(request, &env(), docs, vec![]).unwrap();
    assert_eq!(found.len(), 1);
    assert_eq!(found[0].name, "b");
}

#[test]
fn document_without_extension_has_empty_extension_and_bare_url() {
    let docs = vec![document(SAMPLE, "notes", "erp", "ana", None)];
    let found = filter_documents(filter("erp"), &env(), docs, vec![]).unwrap();
    assert_eq!(found[0].extension, "");
    assert_eq!(
        found[0].content.content,
        DocumentContent::Url("/files/67e55044/10b1/426f/9247/bb680e5fe0c8".to_string())
    );
}

#[test]
fn private_document_is_found_with_first_live_content() {
    let docs = vec![document(SAMPLE, "secret", "erp", "ana", Some(".txt")), document(9, "other", "erp", "ana", None)];
    let contents = vec![
        content(1, SAMPLE, "ZGVsZXRlZA==", true),
        content(2, 9, "b3RoZXI=", false),
        content(3, SAMPLE, "Zmlyc3Q=", false),
        content(4, SAMPLE, "c2Vjb25k", false),
    ];
    let found = filter_documents(filter("erp"), &env(), docs, contents).unwrap();
    assert_eq!(found.len(), 2);
    assert_eq!(found[0].content.content, DocumentContent::Data("Zmlyc3Q=".to_string()));
    assert_eq!(found[1].content.content, DocumentContent::Data("b3RoZXI=".to_string()));
}

#[test]
fn document_with_only_deleted_content_is_served_by_url() {
    let docs = vec![document(SAMPLE, "gone", "erp", "ana", Some(".txt"))];
    let contents = vec![content(1, SAMPLE, "ZGVsZXRlZA==", true)];
    let found = filter_documents(filter("erp"), &env(), docs, contents).unwrap();
    assert_eq!(
        found[0].content.content,
        DocumentContent::Url("/files/67e55044/10b1/426f/9247/bb680e5fe0c8.txt".to_string())
    );
}

#[test]
fn deleted_document_never_matches() {
    let mut d = document(SAMPLE, "x", "erp", "ana", None);
    assert!(matches_filter(&d, &filter("erp")));
    d.delete_datetime = Some(1);
    assert!(!matches_filter(&d, &filter("erp")));
}

#[test]
fn responses_keep_documents_in_order() {
    let found = vec![
        FoundDocument {
            id_document: DocumentId { value: 1 },
            name: "a".to_string(),
            extension: ".txt".to_string(),
            application: "erp".to_string(),
            content: FoundContent { content: DocumentContent::Data("YQ==".to_string()) },
        },
        FoundDocument {
            id_document: DocumentId { value: 2 },
            name: "b".to_string(),
            extension: "".to_string(),
            application: "erp".to_string(),
            content: FoundContent { content: DocumentContent::NoContent },
        },
    ];
    let responses = found_documents_response(found);
    assert_eq!(
        responses,
        vec![
            FoundDocumentResponse {
                id_document: DocumentId { value: 1 },
                name: "a".to_string(),
                extension: ".txt".to_string(),
                application: "erp".to_string(),
                content: FoundContentResponse { content: DocumentContentResponse::Data("YQ==".to_string()) },
            },
            FoundDocumentResponse {
                id_document: DocumentId { value: 2 },
                name: "b".to_string(),
                extension: "".to_string(),
                application: "erp".to_string(),
                content: FoundContentResponse { content: DocumentContentResponse::NoContent },
            },
        ]
    );
}

#[test]
fn url_content_converts_to_url_response() {
    assert_eq!(
        DocumentContentResponse::from(DocumentContent::Url("/files/x".to_string())),
        DocumentContentResponse::Url("/files/x".to_string())
    );
}

#[test]
fn storage_directory_is_created_when_missing() {
    assert_eq!(configure_storage_directory(false, false), Ok(StorageDirectoryAction::Create));
}

#[test]
fn storage_directory_is_kept_when_present() {
    assert_eq!(configure_storage_directory(true, false), Ok(StorageDirectoryAction::Keep));
}

#[test]
fn storage_path_naming_a_file_is_refused() {
    assert_eq!(configure_storage_directory(true, true), Err(DocumentError::StorageIsNotDirectory));
}

#[test]
fn error_messages() {
    assert_eq!(DocumentError::StorageIsNotDirectory.message(), "Error oath for files services isn´t directory");
    assert_eq!(
        DocumentError::FileNameNotInUrl("abc".to_string()).message(),
        "Error not match filename in url: \"abc\" "
    );
}

#[test]
fn new_identifiers_are_version_four() {
    let plan = plan_upload(Some("a.txt".to_string()), None, "erp", "ana", true, &env()).unwrap();
    let id = plan.document.id_document;
    assert_eq!(plan.document.name, "a");
    assert_eq!(plan.target, StorageTarget::Database);
    let url = url_by_uuid(id).unwrap();
    assert_eq!(url.chars().nth(14), Some('4'));
    let variant = url.chars().nth(19).unwrap();
    assert!(matches!(variant, '8' | '9' | 'a' | 'b'));
}

#[test]
fn upload_by_url_draws_distinct_identifiers() {
    let params = SaveDocumentByUrlRequest {
        url_file: "https://example.com/a.txt".to_string(),
        application: "erp".to_string(),
        is_private_document: false,
        username: "ana".to_string(),
    };
    let (first, plan) = plan_upload_by_url(&params, &env());
    let (second, _) = plan_upload_by_url(&params, &env());
    assert_ne!(first, second);
    let expected = format!("/data/storage/{}.txt", url_by_uuid(first).unwrap());
    assert_eq!(plan.unwrap().target, StorageTarget::Disk(expected));
}

#[test]
fn upload_by_url_without_slash_still_draws_identifier() {
    let params = SaveDocumentByUrlRequest {
        url_file: "no-slash".to_string(),
        application: "erp".to_string(),
        is_private_document: false,
        username: "ana".to_string(),
    };
    let (id, plan) = plan_upload_by_url(&params, &env());
    assert_eq!(url_by_uuid(id).unwrap().chars().nth(14), Some('4'));
    assert_eq!(plan, Err(DocumentError::FileNameNotInUrl("no-slash".to_string())));
}

#[test]
fn saved_documents_are_found_by_their_application() {
    let env_root = EnvironmentState { mount_path: "/files".to_string(), disk_storage_directory_path: "/".to_string() };
    let public = plan_document_save(DocumentId { value: SAMPLE }, Some("a.txt".to_string()), None, "erp", "ana", false, &env_root).unwrap();
    assert_eq!(public.target, StorageTarget::Disk("/67e55044/10b1/426f/9247/bb680e5fe0c8.txt".to_string()));
    let private = plan_document_save(DocumentId { value: OTHER }, Some("b.bin".to_string()), None, "erp", "ana", true, &env_root).unwrap();
    let record = content_record(DocumentId { value: OTHER }, b"xyz", "ana").unwrap();
    let stored = |row: &document_manager::models::NewDocument| Document {
        id_document: row.id_document,
        name: row.name.clone(),
        application: row.application.clone(),
        extension: row.extension.clone(),
        content_type: row.content_type.clone(),
        create_datetime: 0,
        create_username: row.create_username.clone(),
        update_datetime: None,
        update_username: None,
        delete_datetime: None,
        delete_username: None,
    };
    let docs = vec![stored(&public.document), stored(&private.document)];
    let contents = vec![content(7, OTHER, &record.data, false)];
    let found = filter_documents(filter("erp"), &env_root, docs, contents).unwrap();
    assert_eq!(found.len(), 2);
    assert_eq!(found[0].content.content, DocumentContent::Url("/files/67e55044/10b1/426f/9247/bb680e5fe0c8.txt".to_string()));
    assert_eq!(found[1].content.content, DocumentContent::Data("eHl6".to_string()));
}

#[test]
fn narrower_search_answers_subset() {
    let docs = || vec![
        document(1, "a", "erp", "ana", Some(".pdf")),
        document(2, "b", "erp", "bob", Some(".pdf")),
        document(3, "c", "erp", "ana", Some(".doc")),
    ];
    let whole = filter_documents(filter("erp"), &env(), docs(), vec![]).unwrap();
    let mut narrow_request = filter("erp");
    narrow_request.username = Some("ana".to_string());
    narrow_request.content_type = vec![".pdf".to_string()];
    let narrow = filter_documents(narrow_request, &env(), docs(), vec![]).unwrap();
    assert_eq!(whole.len(), 3);
    assert_eq!(narrow.len(), 1);
    assert!(narrow.iter().all(|n| whole.iter().any(|w| w.id_document == n.id_document)));
}

#[test]
fn deleted_document_is_not_answered() {
    let request = DeleteDocumentRequest { id_document: DocumentId { value: SAMPLE }, username: "carl".to_string() };
    let (deletion, _) = deletion_records(&request, 99);
    let mut deleted = document(SAMPLE, "x", "erp", "ana", None);
    deleted.delete_datetime = Some(deletion.delete_datetime);
    deleted.delete_username = Some(deletion.delete_username.clone());
    let docs = vec![deleted, document(OTHER, "y", "erp", "ana", None)];
    let found = filter_documents(filter("erp"), &env(), docs, vec![]).unwrap();
    assert_eq!(found.len(), 1);
    assert!(found.iter().all(|d| d.id_document != DocumentId { value: SAMPLE }));
}

#[test]
fn any_dotted_extension_gets_octet_stream() {
    for url in ["https://x.org/a.png", "https://x.org/b.PDF", "https://x.org/c."] {
        let params = SaveDocumentByUrlRequest {
            url_file: url.to_string(),
            application: "erp".to_string(),
            is_private_document: true,
            username: "ana".to_string(),
        };
        let plan = plan_document_save_by_url(DocumentId { value: SAMPLE }, &params, &env()).unwrap();
        assert_eq!(plan.document.content_type, Some("application/octet-stream".to_string()));
    }
}
