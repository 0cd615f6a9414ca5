//! Settings of the service and the storage directory check.

use vstd::prelude::*;

use crate::error::DocumentError;

verus! {

/// The settings read from the environment.
#[derive(Clone, Debug, PartialEq, Eq)]
pub struct EnvConfig {
    pub database_url: String,
    pub mount_path: String,
    pub disk_storage_directory_path: String,
}

/// What the handlers need to know: the path under which stored files are served, and the
/// (canonical) directory where they are stored.
#[derive(Clone, Debug, PartialEq, Eq)]
pub struct EnvironmentState {
    pub mount_path: String,
    pub disk_storage_directory_path: String,
}

/// What to do with the storage directory before the service starts.
#[derive(Clone, Copy, Debug, PartialEq, Eq, Structural)]
pub enum StorageDirectoryAction {
    /// Nothing is there yet: create the directory and its parents.
    Create,
    /// The directory is there already.
    Keep,
}

/// Decides, from what is found at the storage directory path, whether to create it, keep it,
/// or refuse it because a file stands there.
pub fn configure_storage_directory(exists: bool, is_file: bool) -> (r: Result<
    StorageDirectoryAction,
    DocumentError,
>)
    ensures
        exists && is_file <==> r == Err::<StorageDirectoryAction, DocumentError>(
            DocumentError::StorageIsNotDirectory,
        ),
        !exists <==> r == Ok::<StorageDirectoryAction, DocumentError>(StorageDirectoryAction::Create),
        exists && !is_file <==> r == Ok::<StorageDirectoryAction, DocumentError>(
            StorageDirectoryAction::Keep,
        ),
{
    if exists && is_file {
        return Err(DocumentError::StorageIsNotDirectory);
    }
    if !exists {
        return Ok(StorageDirectoryAction::Create);
    }
    Ok(StorageDirectoryAction::Keep)
}

} // verus!
