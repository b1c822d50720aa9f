//! What has to be done once, before anything else, with the data directory
//! and the rendering engine.

use crate::error::WorkspaceError;
use crate::path::{path_view, DataContext};
use vstd::prelude::*;

verus! {

/// One directory for the host to create.
#[derive(Debug, PartialEq, Eq)]
pub enum DirectoryStep {
    /// Create the directory with every missing directory above it.
    CreateAll(Vec<String>),
    /// Create the directory; the one above it is there.
    Create(Vec<String>),
}

/// A directory to create, as a mathematical value.
pub enum DirectoryStepView {
    CreateAll(Seq<Seq<char>>),
    Create(Seq<Seq<char>>),
}

impl View for DirectoryStep {
    type V = DirectoryStepView;

    open spec fn view(&self) -> DirectoryStepView {
        match self {
            DirectoryStep::CreateAll(path) => DirectoryStepView::CreateAll(path_view(path@)),
            DirectoryStep::Create(path) => DirectoryStepView::Create(path_view(path@)),
        }
    }
}

/// The steps of a list, each as a mathematical value.
pub open spec fn steps_view(steps: Seq<DirectoryStep>) -> Seq<DirectoryStepView> {
    steps.map_values(|step: DirectoryStep| step@)
}

/// The directories that are missing, in the order in which they are made:
/// the data directory, the directory of the engine, the workspaces directory.
pub open spec fn missing_directories(
    root: Seq<Seq<char>>,
    data_dir_exists: bool,
    chromium_dir_exists: bool,
    workspaces_dir_exists: bool,
) -> Seq<DirectoryStepView> {
    let data = if data_dir_exists {
        Seq::empty()
    } else {
        seq![DirectoryStepView::CreateAll(root)]
    };
    let chromium = if chromium_dir_exists {
        Seq::empty()
    } else {
        seq![DirectoryStepView::Create(root.push("chromium"@))]
    };
    let workspaces = if workspaces_dir_exists {
        Seq::empty()
    } else {
        seq![DirectoryStepView::Create(root.push("workspaces"@))]
    };
    data + chromium + workspaces
}

/// Sets the data directory up: says which of its directories the host has
/// to create, given which of them exist. It is done once per process; a
/// second request is refused.
pub fn setup_data_directory(
    already_set_up: bool,
    context: &DataContext,
    data_dir_exists: bool,
    chromium_dir_exists: bool,
    workspaces_dir_exists: bool,
) -> (result: Result<Vec<DirectoryStep>, WorkspaceError>)
    ensures
        already_set_up ==> result is Err && result->Err_0 == WorkspaceError::AlreadyExists,
        !already_set_up ==> result is Ok && steps_view(result->Ok_0@) == missing_directories(
            context.spec_data_local_dir(),
            data_dir_exists,
            chromium_dir_exists,
            workspaces_dir_exists,
        ),
{
    if already_set_up {
        return Err(WorkspaceError::AlreadyExists);
    }
    let mut steps: Vec<DirectoryStep> = Vec::new();
    if !data_dir_exists {
        steps.push(DirectoryStep::CreateAll(context.data_local_dir()));
    }
    if !chromium_dir_exists {
        steps.push(DirectoryStep::Create(context.chromium_data_dir()));
    }
    if !workspaces_dir_exists {
        steps.push(DirectoryStep::Create(context.workspace_list_dir()));
    }
    proof {
        assert(steps_view(steps@) =~= missing_directories(
            context.spec_data_local_dir(),
            data_dir_exists,
            chromium_dir_exists,
            workspaces_dir_exists,
        ));
    }
    Ok(steps)
}

/// Sets the rendering engine up: returns the directory that the engine is
/// started with, both as the root of its caches and as its cache. The
/// engine is started once per process; a second request is refused.
pub fn setup_chromium(already_set_up: bool, data_context: &DataContext) -> (result: Result<
    Vec<String>,
    WorkspaceError,
>)
    ensures
        already_set_up ==> result is Err && result->Err_0 == WorkspaceError::AlreadyExists,
        !already_set_up ==> result is Ok && path_view(result->Ok_0@)
            == data_context.spec_data_local_dir().push("chromium"@),
{
    if already_set_up {
        Err(WorkspaceError::AlreadyExists)
    } else {
        Ok(data_context.chromium_data_dir())
    }
}

} // verus!
