//! The rules of the persistence store: what each operation on the disk
//! comes to, given what the host has found there.
//!
//! The host reads and writes; these functions decide. The host hands in what
//! it found, as plain values, and carries out what comes back.

use crate::data::{MetadataView, WorkspaceData, WorkspaceListData, WorkspaceListView, WorkspaceMetadata};
use crate::error::WorkspaceError;
use crate::file_tree::FileSystemItem;
use crate::id::{is_version_7, uuid_parse, Id, WorkspaceMarker};
use crate::manager::listing_views;
use vstd::prelude::*;

verus! {

/// What the host found where a descriptor should be.
#[derive(Debug)]
pub enum Stored<T> {
    /// There is no such file.
    Missing,
    /// There is a file, but it could not be read or does not parse.
    Unreadable,
    /// The descriptor that the file holds.
    Found(T),
}

/// Reads the workspace list, around the given identifier where there is no
/// list yet: the host then has to write the list that comes back, and the
/// flag tells it so. A list that does not parse is refused as corrupt.
pub fn read_registry_with(found: Stored<WorkspaceListData>, fresh_home: Id<WorkspaceMarker>) -> (result:
    Result<(WorkspaceListData, bool), WorkspaceError>)
    ensures
        match found {
            Stored::Missing => result is Ok && result->Ok_0.1 && result->Ok_0.0@ == (
            WorkspaceListView { home: fresh_home@, order: Seq::empty(), selected: fresh_home@ }),
            Stored::Unreadable => result is Err && result->Err_0 == WorkspaceError::Corrupt,
            Stored::Found(data) => result is Ok && !result->Ok_0.1 && result->Ok_0.0@ == data@,
        },
{
    match found {
        Stored::Missing => Ok((WorkspaceListData::with_home(fresh_home), true)),
        Stored::Unreadable => Err(WorkspaceError::Corrupt),
        Stored::Found(data) => Ok((data, false)),
    }
}

/// Reads the workspace list. Where there is none yet, a list is made
/// around a freshly drawn home workspace identifier, a version 7
/// identifier, with an empty order and the home workspace selected.
pub fn read_registry(found: Stored<WorkspaceListData>) -> (result: Result<
    (WorkspaceListData, bool),
    WorkspaceError,
>)
    ensures
        match found {
            Stored::Missing => {
                &&& result is Ok
                &&& result->Ok_0.1
                &&& result->Ok_0.0@.order == Seq::<u128>::empty()
                &&& result->Ok_0.0@.selected == result->Ok_0.0@.home
                &&& is_version_7(result->Ok_0.0@.home)
                &&& result->Ok_0.0@.home != 0
            },
            Stored::Unreadable => result is Err && result->Err_0 == WorkspaceError::Corrupt,
            Stored::Found(data) => result is Ok && !result->Ok_0.1 && result->Ok_0.0@ == data@,
        },
{
    read_registry_with(found, Id::generate())
}

/// One entry of the workspaces directory, as the host found it: its name,
/// and the descriptor inside it.
#[derive(Debug)]
pub struct ScannedEntry {
    pub name: String,
    pub descriptor: Stored<WorkspaceData>,
}

/// What the scan makes of one entry.
pub enum Scan {
    /// The entry is a workspace, with this summary.
    Keep(MetadataView),
    /// The entry is no workspace: its name is no identifier, or it holds
    /// no descriptor. It is passed over with a warning.
    Skip,
    /// The entry is a workspace whose descriptor does not parse.
    Broken,
}

/// What the scan makes of an entry with the given name and descriptor.
pub open spec fn scan_entry(entry: ScannedEntry) -> Scan {
    match uuid_parse(entry.name@) {
        None => Scan::Skip,
        Some(id) => match entry.descriptor {
            Stored::Missing => Scan::Skip,
            Stored::Unreadable => Scan::Broken,
            Stored::Found(data) => Scan::Keep(
                MetadataView { id, icon: data@.icon, name: data@.name },
            ),
        },
    }
}

/// The summaries of the entries that are workspaces, in the order of the
/// entries.
pub open spec fn kept(entries: Seq<ScannedEntry>) -> Seq<MetadataView>
    decreases entries.len(),
{
    if entries.len() == 0 {
        Seq::empty()
    } else {
        let rest = kept(entries.drop_last());
        match scan_entry(entries.last()) {
            Scan::Keep(summary) => rest.push(summary),
            _ => rest,
        }
    }
}

/// The names of the entries that are passed over, in the order of the
/// entries.
pub open spec fn skipped(entries: Seq<ScannedEntry>) -> Seq<Seq<char>>
    decreases entries.len(),
{
    if entries.len() == 0 {
        Seq::empty()
    } else {
        let rest = skipped(entries.drop_last());
        match scan_entry(entries.last()) {
            Scan::Skip => rest.push(entries.last().name@),
            _ => rest,
        }
    }
}

/// Whether some entry is a workspace whose descriptor does not parse.
pub open spec fn any_broken(entries: Seq<ScannedEntry>) -> bool {
    exists|at: int| 0 <= at < entries.len() && #[trigger] scan_entry(entries[at]) is Broken
}

/// The names of a list, each as a mathematical value.
pub open spec fn names_view(names: Seq<String>) -> Seq<Seq<char>> {
    names.map_values(|name: String| name@)
}

/// Goes through the entries of the workspaces directory and returns the
/// summary of every workspace among them, with the names of the entries
/// that were passed over, for the host to warn about. An entry is passed
/// over when its name is no workspace identifier or when it holds no
/// descriptor. A workspace goes by the name of its entry, whatever
/// identifier its descriptor holds. A workspace whose descriptor does not
/// parse fails the scan.
pub fn enumerate_workspace_metadata(entries: &Vec<ScannedEntry>) -> (result: Result<
    (Vec<WorkspaceMetadata>, Vec<String>),
    WorkspaceError,
>)
    ensures
        any_broken(entries@) ==> result is Err && result->Err_0 == WorkspaceError::Corrupt,
        !any_broken(entries@) ==> result is Ok && listing_views(result->Ok_0.0@) == kept(
            entries@,
        ) && names_view(result->Ok_0.1@) == skipped(entries@),
{
    let mut listing: Vec<WorkspaceMetadata> = Vec::new();
    let mut passed: Vec<String> = Vec::new();
    let mut index: usize = 0;
    proof {
        assert(entries@.take(0) =~= Seq::empty());
        assert(listing_views(listing@) =~= kept(entries@.take(0)));
        assert(names_view(passed@) =~= skipped(entries@.take(0)));
    }
    while index < entries.len()
        invariant
            index <= entries.len(),
            listing_views(listing@) == kept(entries@.take(index as int)),
            names_view(passed@) == skipped(entries@.take(index as int)),
            forall|done: int| 0 <= done < index ==> !(#[trigger] scan_entry(entries@[done]) is Broken),
        decreases entries.len() - index,
    {
        let entry = &entries[index];
        let ghost before_listing = listing@;
        let ghost before_passed = passed@;
        proof {
            assert(entries@.take(index + 1).drop_last() =~= entries@.take(index as int));
            assert(entries@.take(index + 1).last() == entries@[index as int]);
        }
        match Id::<WorkspaceMarker>::parse(entry.name.as_str()) {
            None => {
                passed.push(entry.name.clone());
            },
            Some(id) => match &entry.descriptor {
                Stored::Missing => {
                    passed.push(entry.name.clone());
                },
                Stored::Unreadable => {
                    return Err(WorkspaceError::Corrupt);
                },
                Stored::Found(data) => {
                    listing.push(
                        WorkspaceMetadata::new(id, data.icon.clone(), data.name.clone()),
                    );
                },
            },
        }
        proof {
            match scan_entry(entries@[index as int]) {
                Scan::Keep(summary) => {
                    assert(listing_views(listing@) =~= listing_views(before_listing).push(summary));
                    assert(passed@ == before_passed);
                },
                Scan::Skip => {
                    assert(names_view(passed@) =~= names_view(before_passed).push(
                        entries@[index as int].name@,
                    ));
                    assert(listing@ == before_listing);
                },
                Scan::Broken => {},
            }
        }
        index += 1;
    }
    proof {
        assert(entries@.take(index as int) =~= entries@);
    }
    Ok((listing, passed))
}

/// Creates a workspace on disk: where its directory exists already the
/// request is refused, and nothing on disk may be touched. Otherwise the
/// descriptor of the new workspace comes back, without tabs, for the host
/// to write into a new directory beside an empty directory for its files.
pub fn create_workspace(directory_exists: bool, id: Id<WorkspaceMarker>, name: String) -> (result:
    Result<WorkspaceData, WorkspaceError>)
    ensures
        directory_exists ==> result is Err && result->Err_0 == WorkspaceError::AlreadyExists,
        !directory_exists ==> result is Ok && result->Ok_0@
            == crate::data::WorkspaceDataView::empty(id@, name@) && result->Ok_0@.wf(),
{
    if directory_exists {
        Err(WorkspaceError::AlreadyExists)
    } else {
        Ok(WorkspaceData::new(id, name))
    }
}

/// Loads a workspace from disk: the descriptor and the tree of its files
/// directory, or nothing at all. A missing descriptor is not found; a
/// descriptor that does not parse or breaks its invariant, and a missing
/// files directory, are corrupt.
pub fn load_workspace(descriptor: Stored<WorkspaceData>, files: Option<Vec<FileSystemItem>>) -> (result:
    Result<(WorkspaceData, Vec<FileSystemItem>), WorkspaceError>)
    ensures
        match descriptor {
            Stored::Missing => result is Err && result->Err_0 == WorkspaceError::NotFound,
            Stored::Unreadable => result is Err && result->Err_0 == WorkspaceError::Corrupt,
            Stored::Found(data) => if data@.wf() && files is Some {
                result is Ok && result->Ok_0.0@ == data@ && result->Ok_0.1@ == files->0@
            } else {
                result is Err && result->Err_0 == WorkspaceError::Corrupt
            },
        },
{
    match descriptor {
        Stored::Missing => Err(WorkspaceError::NotFound),
        Stored::Unreadable => Err(WorkspaceError::Corrupt),
        Stored::Found(data) => {
            if !data.is_valid() {
                return Err(WorkspaceError::Corrupt);
            }
            match files {
                None => Err(WorkspaceError::Corrupt),
                Some(files) => Ok((data, files)),
            }
        },
    }
}

/// Saves a workspace: where its directory is gone the request is refused
/// as not found; otherwise the host overwrites the descriptor file.
pub fn save_workspace(directory_exists: bool) -> (result: Result<(), WorkspaceError>)
    ensures
        result == if directory_exists {
            Ok::<(), WorkspaceError>(())
        } else {
            Err::<(), WorkspaceError>(WorkspaceError::NotFound)
        },
{
    if directory_exists {
        Ok(())
    } else {
        Err(WorkspaceError::NotFound)
    }
}

/// Deletes a workspace: where its directory is gone the request is refused
/// as not found; otherwise the host removes the directory and all in it.
pub fn delete_workspace(directory_exists: bool) -> (result: Result<(), WorkspaceError>)
    ensures
        result == if directory_exists {
            Ok::<(), WorkspaceError>(())
        } else {
            Err::<(), WorkspaceError>(WorkspaceError::NotFound)
        },
{
    if directory_exists {
        Ok(())
    } else {
        Err(WorkspaceError::NotFound)
    }
}

} // verus!
