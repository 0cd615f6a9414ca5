//! Where the content of a public document is stored on disk and under which URL it is served.

use vstd::prelude::*;

use crate::error::DocumentError;
use crate::ids::{hyphenated, hyphenated_text, lemma_hyphenated_text_shape, DocumentId};
use crate::names::{last_index_of, lemma_last_index_of_unique};

verus! {

/// A relative directory and a file name inside it.
pub struct PathFile(pub String, pub String);

/// `s` with every `-` turned into `/`.
pub open spec fn hyphens_to_slashes(s: Seq<char>) -> Seq<char> {
    s.map_values(|c: char| if c == '-' { '/' } else { c })
}

/// The relative path of a document's file: its identifier text with each `-` turned into `/`,
/// such as `67e55044/10b1/426f/9247/bb680e5fe0c8`.
pub open spec fn relative_path_of(id: DocumentId) -> Seq<char> {
    hyphens_to_slashes(hyphenated_text(id.value))
}

/// Copies `s`, turning every `-` into `/`.
pub(crate) fn replace_hyphens(s: &str) -> (r: String)
    ensures
        r@ == hyphens_to_slashes(s@),
{
    let n = s.unicode_len();
    let mut r = String::new();
    let mut i: usize = 0;
    while i < n
        invariant
            n == s@.len(),
            i <= n,
            r@ == hyphens_to_slashes(s@.subrange(0, i as int)),
        decreases n - i,
    {
        let c = s.get_char(i);
        if c == '-' {
            proof {
                reveal_strlit("/");
            }
            r.append("/");
        } else {
            r.append(s.substring_char(i, i + 1));
        }
        assert(s@.subrange(0, i + 1) =~= s@.subrange(0, i as int).push(c));
        assert(hyphens_to_slashes(s@.subrange(0, i + 1)) =~= hyphens_to_slashes(
            s@.subrange(0, i as int),
        ).push(if c == '-' { '/' } else { c }));
        i = i + 1;
    }
    assert(s@.subrange(0, n as int) =~= s@);
    r
}

/// The last hyphen of an identifier text stands at position 23.
pub(crate) proof fn lemma_last_hyphen(value: u128)
    ensures
        last_index_of(hyphenated_text(value), '-') == Some(23int),
{
    lemma_hyphenated_text_shape(value);
    lemma_last_index_of_unique(hyphenated_text(value), '-', 23);
}

/// The identifier text, split at its last hyphen, gives the relative path back.
proof fn lemma_split_relative_path(value: u128)
    ensures
        hyphens_to_slashes(hyphenated_text(value).subrange(0, 23)) + seq!['/']
            + hyphenated_text(value).subrange(24, 36) =~= hyphens_to_slashes(hyphenated_text(value)),
{
    lemma_hyphenated_text_shape(value);
}

/// Splits the identifier text of `uuid` at its last hyphen: the part before it, with its
/// hyphens turned into slashes, is the directory; the part after it is the file name.
pub fn path_by_uuid(uuid: DocumentId) -> (r: Result<PathFile, DocumentError>)
    ensures
        r is Ok,
        r.unwrap().0@ == hyphens_to_slashes(hyphenated_text(uuid.value).subrange(0, 23)),
        r.unwrap().1@ == hyphenated_text(uuid.value).subrange(24, 36),
{
    let text = hyphenated(uuid);
    let s = text.as_str();
    proof {
        lemma_last_hyphen(uuid.value);
        lemma_hyphenated_text_shape(uuid.value);
    }
    match crate::names::rfind_char(s, '-') {
        Some(index) => {
            let n = s.unicode_len();
            let directory = replace_hyphens(s.substring_char(0, index));
            let file_name = String::from_str(s.substring_char(index + 1, n));
            Ok(PathFile(directory, file_name))
        },
        None => Err(DocumentError::SeparatorNotFound),
    }
}

/// The relative URL path of a document: its directory and file name joined by `/`.
pub fn url_by_uuid(uuid: DocumentId) -> (r: Result<String, DocumentError>)
    ensures
        r is Ok,
        r.unwrap()@ == relative_path_of(uuid),
{
    let PathFile(directory, file_name) = path_by_uuid(uuid)?;
    proof {
        reveal_strlit("/");
        lemma_split_relative_path(uuid.value);
    }
    let mut path = directory;
    path.append("/");
    path.append(file_name.as_str());
    Ok(path)
}

/// The URL under which a public document is served: the mount path, `/`, the relative path
/// of the document, and its extension.
pub fn generate_url_by_uuid(base_path: String, uuid: DocumentId, extension: &str) -> (r: Result<
    String,
    DocumentError,
>)
    ensures
        r is Ok,
        r.unwrap()@ == base_path@ + seq!['/'] + relative_path_of(uuid) + extension@,
{
    let file = url_by_uuid(uuid)?;
    let mut absolute_path = String::new();
    proof {
        reveal_strlit("/");
    }
    absolute_path.append(base_path.as_str());
    absolute_path.append("/");
    absolute_path.append(file.as_str());
    absolute_path.append(extension);
    Ok(absolute_path)
}

/// Whether a path text names an absolute path (on Unix: starts with `/`).
pub open spec fn is_absolute(p: Seq<char>) -> bool {
    p.len() > 0 && p[0] == '/'
}

/// A relative path joined onto a base path on Unix: the relative path alone under an empty
/// base, appended directly to a base that ends with `/`, else appended after a `/`.
pub open spec fn joined_path(base: Seq<char>, part: Seq<char>) -> Seq<char> {
    if base.len() == 0 {
        part
    } else if base.last() == '/' {
        base + part
    } else {
        base + seq!['/'] + part
    }
}

/// `std::path::Path::join` on text paths, from the standard library.
///
/// Calls `Path::new(base).join(part)` and turns the result back into text. On Unix, joining an
/// absolute path (one that starts with `/`) replaces the base; joining a non-empty relative
/// path extends the base with it, adding one `/` only when the base is not empty and does not
/// end with `/` already (`PathBuf::push`). The contract states those cases.
#[verifier::external_body]
pub(crate) fn path_join(base: &str, part: &str) -> (joined: String)
    ensures
        is_absolute(part@) ==> joined@ == part@,
        part@.len() > 0 && !is_absolute(part@) ==> joined@ == joined_path(base@, part@),
{
    std::path::Path::new(base).join(part).to_string_lossy().into_owned()
}

/// The file path under which a public document is stored: the storage directory joined with
/// the document's relative path and extension.
pub fn generate_path_by_uuid(base_path: String, extension: &str, uuid: DocumentId) -> (r: Result<
    String,
    DocumentError,
>)
    ensures
        r is Ok,
        r.unwrap()@ == joined_path(base_path@, relative_path_of(uuid) + extension@),
{
    let PathFile(directory, file) = path_by_uuid(uuid)?;
    proof {
        lemma_hyphenated_text_shape(uuid.value);
        lemma_split_relative_path(uuid.value);
    }
    let inner = path_join(base_path.as_str(), directory.as_str());
    let mut file_name = file;
    file_name.append(extension);
    let path = path_join(inner.as_str(), file_name.as_str());
    proof {
        let t = hyphenated_text(uuid.value);
        assert(directory@[0] == t[0]);
        assert(directory@.last() == t[22]);
        assert(file_name@[0] == t[24]);
        assert(inner@.len() > 0 && inner@.last() == directory@.last());
        assert(path@ =~= joined_path(base_path@, relative_path_of(uuid) + extension@));
    }
    Ok(path)
}

} // verus!
