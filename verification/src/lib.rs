//! Workspace and tab lifecycle core of a workspace browser.
//!
//! The crate keeps the registry of workspaces, the tabs of each workspace and
//! their visibility as plain state. Every operation that would touch a native
//! view or the disk returns the effects the host has to carry out, so the
//! bookkeeping itself can be verified.

pub mod data;
pub mod effect;
pub mod error;
pub mod file_tree;
pub mod geometry;
pub mod id;
pub mod manager;
pub mod order;
pub mod path;
pub mod pump;
pub mod setup;
pub mod store;
pub mod tab;
pub mod token;
pub mod workspace;

pub use data::{
    get_url, TabData, TabLocationData, WorkspaceData, WorkspaceIconData, WorkspaceListData,
    WorkspaceMetadata,
};
pub use effect::Effect;
pub use error::WorkspaceError;
pub use file_tree::FileSystemItem;
pub use geometry::{NativeRect, WebViewBounds, WindowSize};
pub use id::{Id, TabMarker, WorkspaceMarker};
pub use manager::WorkspaceManager;
pub use path::{AppPath, DataContext};
pub use pump::{EventLoopHandle, PumpAction, PumpDelayMs, PumpEvent};
pub use setup::{setup_chromium, setup_data_directory, DirectoryStep};
pub use tab::{Tab, TabLocation};
pub use token::{OnlyUIThread, UIThreadMarker};
pub use workspace::Workspace;
