//! The edge of the traversal engine: turning what the recursive enumeration
//! yields into plain directory entries, dropping the entries it could not read.
use crate::guard::DirectoryEntry;
use vstd::prelude::*;

verus! {

#[verifier::external_type_specification]
#[verifier::external_body]
pub struct ExWalkEntry(walkdir::DirEntry);

#[verifier::external_type_specification]
#[verifier::external_body]
pub struct ExWalkError(walkdir::Error);

/// The display form of the path that walkdir recorded for an entry.
pub uninterp spec fn walk_path_of(e: walkdir::DirEntry) -> Seq<char>;

/// Whether walkdir recorded an entry as a directory.
pub uninterp spec fn walk_is_dir_of(e: walkdir::DirEntry) -> bool;

/// Relies on walkdir's `DirEntry::path`: the entry's path, in its display
/// form.
#[verifier::external_body]
fn walk_entry_path(e: &walkdir::DirEntry) -> (r: String)
    ensures
        r@ == walk_path_of(*e),
{
    e.path().display().to_string()
}

/// Relies on walkdir's `DirEntry::file_type`: whether the entry is a
/// directory, as recorded when it was enumerated.
#[verifier::external_body]
fn walk_entry_is_dir(e: &walkdir::DirEntry) -> (r: bool)
    ensures
        r == walk_is_dir_of(*e),
{
    e.file_type().is_dir()
}

/// The plain entry for one step of the enumeration; `None` for a step that
/// failed, which the traversal skips without a trace.
pub fn entry_of(step: Result<walkdir::DirEntry, walkdir::Error>) -> (r: Option<DirectoryEntry>)
    ensures
        r is Some <==> step is Ok,
        step matches Ok(e) ==> r matches Some(d) && d.path@ == walk_path_of(e)
            && d.is_directory == walk_is_dir_of(e),
{
    match step {
        Ok(e) => Some(DirectoryEntry { path: walk_entry_path(&e), is_directory: walk_entry_is_dir(&e) }),
        Err(_) => None,
    }
}

} // verus!
