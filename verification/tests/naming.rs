use document_manager::hyphen_file_layout;
use document_manager::ids::DocumentId;
use document_manager::names::{get_extension_and_file_name, get_file_name_in_url};
use document_manager::storage::{generate_path_by_uuid, generate_url_by_uuid, path_by_uuid, url_by_uuid, PathFile};

const SAMPLE: u128 = 0x67e5504410b1426f9247bb680e5fe0c8;

fn sample() -> DocumentId {
    DocumentId { value: SAMPLE }
}

#[test]
fn extension_is_split_at_last_dot() {
    assert_eq!(get_extension_and_file_name("report.final.pdf"), ("report.final", Some(".pdf")));
}

#[test]
fn name_without_dot_has_no_extension() {
    assert_eq!(get_extension_and_file_name("README"), ("README", None));
}

#[test]
fn empty_name_has_no_extension() {
    assert_eq!(get_extension_and_file_name(""), ("", None));
}

#[test]
fn hidden_file_is_all_extension() {
    assert_eq!(get_extension_and_file_name(".bashrc"), ("", Some(".bashrc")));
}

#[test]
fn non_ascii_name_is_split_by_characters() {
    assert_eq!(get_extension_and_file_name("año.tar.gz"), ("año.tar", Some(".gz")));
}

#[test]
fn split_parts_give_the_name_back() {
    let input = "photo.2024.jpeg";
    let (name, extension) = get_extension_and_file_name(input);
    assert_eq!(format!("{}{}", name, extension.unwrap()), input);
}

#[test]
fn file_name_in_url_is_after_last_slash() {
    assert_eq!(get_file_name_in_url("https://example.com/files/report.pdf"), Some("report.pdf"));
}

#[test]
fn url_ending_in_slash_has_empty_file_name() {
    assert_eq!(get_file_name_in_url("https://example.com/"), Some(""));
}

#[test]
fn url_without_slash_has_no_file_name() {
    assert_eq!(get_file_name_in_url("report.pdf"), None);
}

#[test]
fn path_by_uuid_splits_at_last_hyphen() {
    let PathFile(directory, file) = path_by_uuid(sample()).unwrap();
    assert_eq!(directory, "67e55044/10b1/426f/9247");
    assert_eq!(file, "bb680e5fe0c8");
}

#[test]
fn path_by_uuid_of_zero() {
    let PathFile(directory, file) = path_by_uuid(DocumentId { value: 0 }).unwrap();
    assert_eq!(directory, "00000000/0000/0000/0000");
    assert_eq!(file, "000000000000");
}

#[test]
fn url_by_uuid_replaces_every_hyphen() {
    assert_eq!(url_by_uuid(sample()).unwrap(), "67e55044/10b1/426f/9247/bb680e5fe0c8");
}

#[test]
fn url_by_uuid_of_max_value() {
    assert_eq!(
        url_by_uuid(DocumentId { value: u128::MAX }).unwrap(),
        "ffffffff/ffff/ffff/ffff/ffffffffffff"
    );
}

#[test]
fn generate_url_by_uuid_joins_mount_path() {
    assert_eq!(
        generate_url_by_uuid("/files".to_string(), sample(), ".pdf").unwrap(),
        "/files/67e55044/10b1/426f/9247/bb680e5fe0c8.pdf"
    );
}

#[test]
fn generate_url_by_uuid_with_empty_mount_path() {
    assert_eq!(
        generate_url_by_uuid(String::new(), sample(), "").unwrap(),
        "/67e55044/10b1/426f/9247/bb680e5fe0c8"
    );
}

#[test]
fn generate_path_by_uuid_joins_storage_directory() {
    assert_eq!(
        generate_path_by_uuid("/data/storage".to_string(), ".txt", sample()).unwrap(),
        "/data/storage/67e55044/10b1/426f/9247/bb680e5fe0c8.txt"
    );
}

#[test]
fn generate_path_by_uuid_under_trailing_slash() {
    assert_eq!(
        generate_path_by_uuid("/data/".to_string(), "", sample()).unwrap(),
        "/data/67e55044/10b1/426f/9247/bb680e5fe0c8"
    );
}

#[test]
fn stored_path_and_url_share_the_relative_path() {
    let path = generate_path_by_uuid("/srv/docs".to_string(), ".png", sample()).unwrap();
    let url = generate_url_by_uuid("/static".to_string(), sample(), ".png").unwrap();
    assert_eq!(path.strip_prefix("/srv/docs"), url.strip_prefix("/static"));
}

#[test]
fn hyphen_layout_keeps_hyphen_in_file_name() {
    let PathFile(directory, file) = hyphen_file_layout::generate_path_by_uuid(sample()).unwrap();
    assert_eq!(directory, "67e55044/10b1/426f/9247");
    assert_eq!(file, "-bb680e5fe0c8");
}

#[test]
fn hyphen_layout_url_joins_base() {
    assert_eq!(
        hyphen_file_layout::generate_url_by_uuid("/files", sample()).unwrap(),
        "/files/67e55044/10b1/426f/9247/-bb680e5fe0c8"
    );
}

#[test]
fn generate_path_by_uuid_under_root() {
    assert_eq!(
        generate_path_by_uuid("/".to_string(), ".txt", sample()).unwrap(),
        "/67e55044/10b1/426f/9247/bb680e5fe0c8.txt"
    );
}

#[test]
fn generate_path_by_uuid_under_empty_base() {
    assert_eq!(
        generate_path_by_uuid(String::new(), ".txt", sample()).unwrap(),
        "67e55044/10b1/426f/9247/bb680e5fe0c8.txt"
    );
}

#[test]
fn hyphen_layout_url_under_root_and_empty_base() {
    assert_eq!(
        hyphen_file_layout::generate_url_by_uuid("/", sample()).unwrap(),
        "/67e55044/10b1/426f/9247/-bb680e5fe0c8"
    );
    assert_eq!(
        hyphen_file_layout::generate_url_by_uuid("", sample()).unwrap(),
        "67e55044/10b1/426f/9247/-bb680e5fe0c8"
    );
}
