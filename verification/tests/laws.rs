use base64::Engine;
use document_manager::encoding::read_content_bytes_to_base64;
use document_manager::hyphen_file_layout;
use document_manager::ids::DocumentId;
use document_manager::storage::{path_by_uuid, url_by_uuid, PathFile};

#[test]
fn distinct_documents_get_distinct_paths() {
    let a = url_by_uuid(DocumentId { value: 1 }).unwrap();
    let b = url_by_uuid(DocumentId { value: 1 << 64 }).unwrap();
    assert_ne!(a, b);
    assert_eq!(a, "00000000/0000/0000/0000/000000000001");
    assert_eq!(b, "00000000/0000/0001/0000/000000000000");
}

#[test]
fn directory_and_file_name_join_to_url_path() {
    let id = DocumentId { value: 0x0123456789abcdef0123456789abcdef };
    let PathFile(directory, file) = path_by_uuid(id).unwrap();
    assert_eq!(format!("{}/{}", directory, file), url_by_uuid(id).unwrap());
}

#[test]
fn layouts_differ_by_leading_hyphen() {
    let id = DocumentId { value: 0x0123456789abcdef0123456789abcdef };
    let PathFile(directory, file) = path_by_uuid(id).unwrap();
    let PathFile(hyphen_directory, hyphen_file) = hyphen_file_layout::generate_path_by_uuid(id).unwrap();
    assert_eq!(directory, hyphen_directory);
    assert_eq!(hyphen_file, format!("-{}", file));
}

#[test]
fn relative_path_has_slashes_at_fixed_places() {
    let url = url_by_uuid(DocumentId { value: 0xfedcba9876543210fedcba9876543210 }).unwrap();
    assert_eq!(url.len(), 36);
    let slashes: Vec<usize> = url.char_indices().filter(|(_, c)| *c == '/').map(|(i, _)| i).collect();
    assert_eq!(slashes, vec![8, 13, 18, 23]);
    assert!(!url.contains('-'));
}

#[test]
fn distinct_contents_are_stored_as_distinct_texts() {
    let a = read_content_bytes_to_base64(&[0, 0]).unwrap();
    let b = read_content_bytes_to_base64(&[0, 0, 0]).unwrap();
    let c = read_content_bytes_to_base64(&[0, 1]).unwrap();
    assert_eq!(a, "AAA=");
    assert_eq!(b, "AAAA");
    assert_eq!(c, "AAE=");
}

#[test]
fn stored_text_decodes_to_content() {
    let data: Vec<u8> = (0u8..=255).collect();
    let text = read_content_bytes_to_base64(&data).unwrap();
    assert!(text.chars().enumerate().all(|(i, c)| c.is_ascii_alphanumeric()
        || c == '+'
        || c == '/'
        || (c == '=' && i >= text.len() - 2)));
    assert_eq!(base64::engine::general_purpose::STANDARD.decode(&text).unwrap(), data);
}
