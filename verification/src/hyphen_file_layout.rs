//! A layout of stored files whose file name keeps the hyphen that precedes the last group of
//! the identifier, such as `67e55044/10b1/426f/9247/-bb680e5fe0c8`.

use vstd::prelude::*;

use crate::error::DocumentError;
use crate::ids::{hyphenated, hyphenated_text, lemma_hyphenated_text_shape, DocumentId};
use crate::storage::{hyphens_to_slashes, joined_path, lemma_last_hyphen, path_join, replace_hyphens, PathFile};

verus! {

/// Splits the identifier text of `uuid` before its last hyphen: the part before it, with its
/// hyphens turned into slashes, is the directory; the hyphen and what follows is the file name.
pub fn generate_path_by_uuid(uuid: DocumentId) -> (r: Result<PathFile, DocumentError>)
    ensures
        r is Ok,
        r.unwrap().0@ == hyphens_to_slashes(hyphenated_text(uuid.value).subrange(0, 23)),
        r.unwrap().1@ == hyphenated_text(uuid.value).subrange(23, 36),
{
    let text = hyphenated(uuid);
    let s = text.as_str();
    proof {
        lemma_last_hyphen(uuid.value);
        lemma_hyphenated_text_shape(uuid.value);
    }
    match crate::names::rfind_char(s, '-') {
        Some(index) => {
            let n = s.unicode_len();
            let path_directory = replace_hyphens(s.substring_char(0, index));
            let file_name = String::from_str(s.substring_char(index, n));
            Ok(PathFile(path_directory, file_name))
        },
        None => Err(DocumentError::SeparatorNotFound),
    }
}

/// The path of a document's file under `base_path`: the base joined with the directory and
/// then with the file name of `generate_path_by_uuid`: the directory, `/` and the file name,
/// joined onto the base.
pub fn generate_url_by_uuid(base_path: &str, uuid: DocumentId) -> (r: Result<String, DocumentError>)
    ensures
        r is Ok,
        r.unwrap()@ == joined_path(
            base_path@,
            hyphens_to_slashes(hyphenated_text(uuid.value).subrange(0, 23)) + seq!['/']
                + hyphenated_text(uuid.value).subrange(23, 36),
        ),
{
    let PathFile(directory, file) = generate_path_by_uuid(uuid)?;
    proof {
        lemma_hyphenated_text_shape(uuid.value);
    }
    let inner = path_join(base_path, directory.as_str());
    let path = path_join(inner.as_str(), file.as_str());
    proof {
        let t = hyphenated_text(uuid.value);
        assert(directory@[0] == t[0]);
        assert(directory@.last() == t[22]);
        assert(file@[0] == t[23]);
        assert(inner@.len() > 0 && inner@.last() == directory@.last());
        assert(path@ =~= joined_path(
            base_path@,
            hyphens_to_slashes(t.subrange(0, 23)) + seq!['/'] + t.subrange(23, 36),
        ));
    }
    Ok(path)
}

} // verus!
