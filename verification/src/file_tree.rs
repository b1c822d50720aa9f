//! The snapshot of the files that a workspace keeps beside its tabs.

use vstd::prelude::*;

verus! {

/// One entry of the file tree of a workspace.
#[derive(Debug, PartialEq, Eq)]
pub enum FileSystemItem {
    /// A file, by its path.
    File(String),
    /// A directory, by its path, with what it holds.
    Dir { path: String, children: Vec<FileSystemItem> },
}

impl FileSystemItem {
    /// The path of the entry.
    pub fn path(&self) -> (path: &String)
        ensures
            path == match self {
                FileSystemItem::File(path) => path,
                FileSystemItem::Dir { path, .. } => path,
            },
    {
        match self {
            FileSystemItem::File(path) => path,
            FileSystemItem::Dir { path, .. } => path,
        }
    }

    /// Whether the entry is a directory.
    pub fn is_dir(&self) -> (dir: bool)
        ensures
            dir == (self is Dir),
    {
        match self {
            FileSystemItem::File(_) => false,
            FileSystemItem::Dir { .. } => true,
        }
    }
}

} // verus!
