//! Where the application keeps its data: paths as lists of components.

use crate::id::{hyphenated_text, Id, WorkspaceMarker};
use vstd::prelude::*;

verus! {

/// A path as a mathematical value: its components, outermost first.
pub open spec fn path_view(path: Seq<String>) -> Seq<Seq<char>> {
    path.map_values(|component: String| component@)
}

/// A copy of a path.
pub fn copy_path(path: &Vec<String>) -> (copy: Vec<String>)
    ensures
        path_view(copy@) == path_view(path@),
{
    let mut copy: Vec<String> = Vec::new();
    let mut index: usize = 0;
    while index < path.len()
        invariant
            index <= path.len(),
            path_view(copy@) == path_view(path@).take(index as int),
        decreases path.len() - index,
    {
        let ghost shorter = copy@;
        let component = path[index].clone();
        copy.push(component);
        proof {
            let target = path_view(path@).take(index + 1);
            assert(path_view(shorter).len() == shorter.len());
            assert forall|at: int| 0 <= at < target.len() implies path_view(copy@)[at]
                == target[at] by {
                if at < index {
                    assert(path_view(shorter)[at] == path_view(path@).take(index as int)[at]);
                    assert(copy@[at] == shorter[at]);
                } else {
                    assert(copy@[at] == component);
                }
            }
            assert(path_view(copy@) =~= target);
        }
        index += 1;
    }
    proof {
        assert(path_view(path@).take(index as int) =~= path_view(path@));
    }
    copy
}

/// The path `base` with one more component.
pub fn join(base: &Vec<String>, component: &str) -> (path: Vec<String>)
    ensures
        path_view(path@) == path_view(base@).push(component@),
{
    let mut path = copy_path(base);
    path.push(component.to_owned());
    proof {
        assert(path_view(path@) =~= path_view(base@).push(component@));
    }
    path
}

/// The data directory that a development build uses, below the working
/// directory.
pub open spec fn development_dir() -> Seq<Seq<char>> {
    seq![".dev"@, "app_data"@]
}

/// The place of the application's data, as the workspace list uses it.
#[derive(Debug)]
pub struct AppPath {
    root: Vec<String>,
}

impl AppPath {
    /// The data directory of the application with the given identifier,
    /// below the directory that the system gives to applications for their
    /// local data.
    pub fn new(local_data_dir: Vec<String>, application_identifier: String) -> (path: Self)
        ensures
            path.spec_data_local_dir() == path_view(local_data_dir@).push(application_identifier@),
    {
        let mut root = local_data_dir;
        root.push(application_identifier);
        proof {
            assert(path_view(root@) =~= path_view(local_data_dir@).push(application_identifier@));
        }
        AppPath { root }
    }

    /// The data directory of a development build.
    pub fn development() -> (path: Self)
        ensures
            path.spec_data_local_dir() == development_dir(),
    {
        let mut root: Vec<String> = Vec::new();
        root.push(".dev".to_owned());
        root.push("app_data".to_owned());
        proof {
            assert(path_view(root@) =~= development_dir());
        }
        AppPath { root }
    }

    /// The data directory, as a mathematical value.
    pub closed spec fn spec_data_local_dir(&self) -> Seq<Seq<char>> {
        path_view(self.root@)
    }

    /// The data directory of the application.
    pub fn data_local_dir(&self) -> (path: Vec<String>)
        ensures
            path_view(path@) == self.spec_data_local_dir(),
    {
        copy_path(&self.root)
    }

    /// The directory that holds the workspace list and one directory for
    /// each workspace.
    pub fn workspaces(&self) -> (path: Vec<String>)
        ensures
            path_view(path@) == self.spec_data_local_dir().push("workspaces"@),
    {
        join(&self.root, "workspaces")
    }
}

/// The place of the application's data, with the layout of what lies in it.
#[derive(Debug)]
pub struct DataContext {
    root: Vec<String>,
}

impl DataContext {
    /// The data directory of the application with the given identifier,
    /// below the directory that the system gives to applications for their
    /// local data.
    pub fn new(local_data_dir: Vec<String>, application_identifier: &str) -> (context: Self)
        ensures
            context.spec_data_local_dir() == path_view(local_data_dir@).push(
                application_identifier@,
            ),
    {
        let mut root = local_data_dir;
        root.push(application_identifier.to_owned());
        proof {
            assert(path_view(root@) =~= path_view(local_data_dir@).push(application_identifier@));
        }
        DataContext { root }
    }

    /// The data directory of a development build.
    pub fn development() -> (context: Self)
        ensures
            context.spec_data_local_dir() == development_dir(),
    {
        let mut root: Vec<String> = Vec::new();
        root.push(".dev".to_owned());
        root.push("app_data".to_owned());
        proof {
            assert(path_view(root@) =~= development_dir());
        }
        DataContext { root }
    }

    /// The data directory, as a mathematical value.
    pub closed spec fn spec_data_local_dir(&self) -> Seq<Seq<char>> {
        path_view(self.root@)
    }

    /// The directory of the workspace `id`, as a mathematical value.
    pub open spec fn spec_workspace_dir(&self, id: u128) -> Seq<Seq<char>> {
        self.spec_data_local_dir().push("workspaces"@).push(hyphenated_text(id))
    }

    /// The data directory of the application.
    pub fn data_local_dir(&self) -> (path: Vec<String>)
        ensures
            path_view(path@) == self.spec_data_local_dir(),
    {
        copy_path(&self.root)
    }

    /// The directory in which the rendering engine keeps its own data.
    pub fn chromium_data_dir(&self) -> (path: Vec<String>)
        ensures
            path_view(path@) == self.spec_data_local_dir().push("chromium"@),
    {
        join(&self.root, "chromium")
    }

    /// The directory that holds the workspace list and one directory for
    /// each workspace.
    pub fn workspace_list_dir(&self) -> (path: Vec<String>)
        ensures
            path_view(path@) == self.spec_data_local_dir().push("workspaces"@),
    {
        join(&self.root, "workspaces")
    }

    /// The file that holds the workspace list.
    pub fn workspace_list_file(&self) -> (path: Vec<String>)
        ensures
            path_view(path@) == self.spec_data_local_dir().push("workspaces"@).push("list.json"@),
    {
        let directory = self.workspace_list_dir();
        join(&directory, "list.json")
    }

    /// The directory of the workspace `id`: it is named by the hyphenated
    /// text of the identifier.
    pub fn workspace_dir(&self, id: Id<WorkspaceMarker>) -> (path: Vec<String>)
        ensures
            path_view(path@) == self.spec_workspace_dir(id@),
    {
        let directory = self.workspace_list_dir();
        let name = id.to_text();
        join(&directory, name.as_str())
    }

    /// The file that holds the descriptor of the workspace `id`.
    pub fn workspace_file(&self, id: Id<WorkspaceMarker>) -> (path: Vec<String>)
        ensures
            path_view(path@) == self.spec_workspace_dir(id@).push("workspace.json"@),
    {
        let directory = self.workspace_dir(id);
        join(&directory, "workspace.json")
    }

    /// The directory that holds the files of the workspace `id`.
    pub fn workspace_files_dir(&self, id: Id<WorkspaceMarker>) -> (path: Vec<String>)
        ensures
            path_view(path@) == self.spec_workspace_dir(id@).push("knowledges"@),
    {
        let directory = self.workspace_dir(id);
        join(&directory, "knowledges")
    }
}

} // verus!
