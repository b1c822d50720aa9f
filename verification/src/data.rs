//! The persisted form of workspaces, tabs and the workspace list.

use crate::id::{id_values, is_version_7, Id, TabMarker, WorkspaceMarker};
use crate::order::covers_exactly;
use std::collections::HashMap;
use vstd::prelude::*;

verus! {

broadcast use vstd::std_specs::hash::group_hash_axioms;

/// Where a tab points, as a mathematical value.
pub enum LocationView {
    WebPage { url: Seq<char> },
    FileViewer { path: Seq<char> },
    NativeHomePage,
}

/// Where a tab points: a web page, a file shown in the viewer, or the
/// built-in home page.
#[derive(Debug, PartialEq, Eq)]
pub enum TabLocationData {
    WebPage { url: String },
    FileViewer { path: String },
    NativeHomePage,
}

impl View for TabLocationData {
    type V = LocationView;

    open spec fn view(&self) -> LocationView {
        match self {
            TabLocationData::WebPage { url } => LocationView::WebPage { url: url@ },
            TabLocationData::FileViewer { path } => LocationView::FileViewer { path: path@ },
            TabLocationData::NativeHomePage => LocationView::NativeHomePage,
        }
    }
}

impl Clone for TabLocationData {
    fn clone(&self) -> (copy: Self)
        ensures
            copy@ == self@,
    {
        match self {
            TabLocationData::WebPage { url } => TabLocationData::WebPage { url: url.clone() },
            TabLocationData::FileViewer { path } => TabLocationData::FileViewer {
                path: path.clone(),
            },
            TabLocationData::NativeHomePage => TabLocationData::NativeHomePage,
        }
    }
}

/// The page that the built-in home page location opens.
pub open spec fn home_page_url() -> Seq<char> {
    "https://www.google.com"@
}

/// The tag under which a location is stored.
pub open spec fn location_type_tag(location: LocationView) -> Seq<char> {
    match location {
        LocationView::WebPage { .. } => "WebPage"@,
        LocationView::FileViewer { .. } => "FileViewer"@,
        LocationView::NativeHomePage => "NativeHomePage"@,
    }
}

/// The payload stored beside the tag: the URL or the path, if there is one.
pub open spec fn location_source(location: LocationView) -> Option<Seq<char>> {
    match location {
        LocationView::WebPage { url } => Some(url),
        LocationView::FileViewer { path } => Some(path),
        LocationView::NativeHomePage => None,
    }
}

/// The URL a view starts at for a location that a view can show.
pub open spec fn location_url(location: LocationView) -> Seq<char>
    recommends
        !(location is FileViewer),
{
    match location {
        LocationView::WebPage { url } => url,
        _ => home_page_url(),
    }
}

impl TabLocationData {
    /// The tag under which this location is stored.
    pub fn type_tag(&self) -> (tag: &'static str)
        ensures
            tag@ == location_type_tag(self@),
    {
        match self {
            TabLocationData::WebPage { .. } => "WebPage",
            TabLocationData::FileViewer { .. } => "FileViewer",
            TabLocationData::NativeHomePage => "NativeHomePage",
        }
    }

    /// The payload stored beside the tag: the URL or the path, if there is one.
    pub fn source(&self) -> (source: Option<String>)
        ensures
            source is Some == location_source(self@) is Some,
            source is Some ==> source->0@ == location_source(self@)->0,
    {
        match self {
            TabLocationData::WebPage { url } => Some(url.clone()),
            TabLocationData::FileViewer { path } => Some(path.clone()),
            TabLocationData::NativeHomePage => None,
        }
    }
}

/// The URL at which a view for `location` starts. The file viewer has no
/// URL, so a file viewer location is not accepted.
pub fn get_url(location: &TabLocationData) -> (url: &str)
    requires
        !(location@ is FileViewer),
    ensures
        url@ == location_url(location@),
{
    match location {
        TabLocationData::WebPage { url } => url.as_str(),
        _ => "https://www.google.com",
    }
}

/// The icon of a workspace, as a mathematical value.
pub enum IconView {
    Home,
    Emoji(Seq<char>),
    Text(Seq<char>),
    Image(Seq<char>),
    Default,
}

/// The icon of a workspace: the home marker, an emoji, a short text, the
/// path of an image, or the default icon.
#[derive(Debug, PartialEq, Eq)]
pub enum WorkspaceIconData {
    Home,
    Emoji(String),
    Text(String),
    Image(String),
    Default,
}

impl View for WorkspaceIconData {
    type V = IconView;

    open spec fn view(&self) -> IconView {
        match self {
            WorkspaceIconData::Home => IconView::Home,
            WorkspaceIconData::Emoji(glyph) => IconView::Emoji(glyph@),
            WorkspaceIconData::Text(text) => IconView::Text(text@),
            WorkspaceIconData::Image(path) => IconView::Image(path@),
            WorkspaceIconData::Default => IconView::Default,
        }
    }
}

impl Clone for WorkspaceIconData {
    fn clone(&self) -> (copy: Self)
        ensures
            copy@ == self@,
    {
        match self {
            WorkspaceIconData::Home => WorkspaceIconData::Home,
            WorkspaceIconData::Emoji(glyph) => WorkspaceIconData::Emoji(glyph.clone()),
            WorkspaceIconData::Text(text) => WorkspaceIconData::Text(text.clone()),
            WorkspaceIconData::Image(path) => WorkspaceIconData::Image(path.clone()),
            WorkspaceIconData::Default => WorkspaceIconData::Default,
        }
    }
}

impl Default for WorkspaceIconData {
    fn default() -> (icon: Self)
        ensures
            icon@ == IconView::Default,
    {
        WorkspaceIconData::Default
    }
}

/// A persisted tab, as a mathematical value.
pub struct TabDataView {
    pub id: u128,
    pub location: LocationView,
}

/// A persisted tab: its identifier and where it points.
#[derive(Debug, PartialEq, Eq)]
pub struct TabData {
    pub id: Id<TabMarker>,
    pub location: TabLocationData,
}

impl View for TabData {
    type V = TabDataView;

    open spec fn view(&self) -> TabDataView {
        TabDataView { id: self.id@, location: self.location@ }
    }
}

impl Clone for TabData {
    fn clone(&self) -> (copy: Self)
        ensures
            copy@ == self@,
    {
        TabData { id: self.id, location: self.location.clone() }
    }
}

/// A persisted workspace, as a mathematical value.
pub struct WorkspaceDataView {
    pub id: u128,
    pub name: Seq<char>,
    pub icon: IconView,
    pub tabs: Map<u128, TabDataView>,
    pub tab_order: Seq<u128>,
    pub selected: Option<u128>,
}

impl WorkspaceDataView {
    /// A descriptor is well formed when the order lists every key of the tab
    /// map exactly once and nothing else, and the selected tab, if any, is
    /// a key of the map. A tab goes by the key that it is stored under.
    pub open spec fn wf(self) -> bool {
        &&& self.tab_order.no_duplicates()
        &&& self.tab_order.to_set() == self.tabs.dom()
        &&& self.selected is Some ==> self.tabs.dom().contains(self.selected->0)
    }

    /// The descriptor of a workspace that has no tabs yet.
    pub open spec fn empty(id: u128, name: Seq<char>) -> WorkspaceDataView {
        WorkspaceDataView {
            id,
            name,
            icon: IconView::Default,
            tabs: Map::empty(),
            tab_order: Seq::empty(),
            selected: None,
        }
    }
}

/// A persisted workspace: identity, appearance, its tabs by identifier, the
/// order in which they are shown, and the selected tab.
#[derive(Debug, PartialEq, Eq)]
pub struct WorkspaceData {
    pub id: Id<WorkspaceMarker>,
    pub name: String,
    pub icon: WorkspaceIconData,
    pub tabs: HashMap<u128, TabData>,
    pub tab_order: Vec<Id<TabMarker>>,
    pub selected: Option<Id<TabMarker>>,
}

/// The value of an optional identifier.
pub open spec fn optional_id_value<T>(id: Option<Id<T>>) -> Option<u128> {
    match id {
        Some(id) => Some(id@),
        None => None,
    }
}

impl View for WorkspaceData {
    type V = WorkspaceDataView;

    open spec fn view(&self) -> WorkspaceDataView {
        WorkspaceDataView {
            id: self.id@,
            name: self.name@,
            icon: self.icon@,
            tabs: self.tabs@.map_values(|tab: TabData| tab@),
            tab_order: id_values(self.tab_order@),
            selected: optional_id_value(self.selected),
        }
    }
}

impl WorkspaceData {
    /// The descriptor of a new workspace: the default icon and no tabs.
    pub fn new(id: Id<WorkspaceMarker>, name: String) -> (data: Self)
        ensures
            data@ == WorkspaceDataView::empty(id@, name@),
            data@.wf(),
    {
        let data = WorkspaceData {
            id,
            name,
            icon: WorkspaceIconData::Default,
            tabs: HashMap::new(),
            tab_order: Vec::new(),
            selected: None,
        };
        proof {
            assert(data@.tabs =~= Map::empty());
            assert(data@.tab_order =~= Seq::empty());
            assert(data@.tab_order.to_set() =~= data@.tabs.dom());
        }
        data
    }

    /// Checks that the descriptor is well formed.
    pub fn is_valid(&self) -> (valid: bool)
        ensures
            valid == self@.wf(),
    {
        proof {
            assert(self@.tabs.dom() =~= self.tabs@.dom());
        }
        if !covers_exactly(&self.tab_order, &self.tabs) {
            return false;
        }
        match self.selected {
            Some(selected) => {
                if !self.tabs.contains_key(&selected.value()) {
                    return false;
                }
            },
            None => {},
        }
        true
    }
}

/// The persisted workspace list, as a mathematical value.
pub struct WorkspaceListView {
    pub home: u128,
    pub order: Seq<u128>,
    pub selected: u128,
}

/// The persisted workspace list: the home workspace, the order in which the
/// workspaces are shown, and the selected workspace.
#[derive(Debug, PartialEq, Eq)]
pub struct WorkspaceListData {
    pub home: Id<WorkspaceMarker>,
    pub order: Vec<Id<WorkspaceMarker>>,
    pub selected: Id<WorkspaceMarker>,
}

impl View for WorkspaceListData {
    type V = WorkspaceListView;

    open spec fn view(&self) -> WorkspaceListView {
        WorkspaceListView {
            home: self.home@,
            order: id_values(self.order@),
            selected: self.selected@,
        }
    }
}

impl WorkspaceListData {
    /// The list as it is first written: the given home workspace is
    /// selected and the order is still empty.
    pub fn with_home(home: Id<WorkspaceMarker>) -> (data: Self)
        ensures
            data@ == (WorkspaceListView { home: home@, order: Seq::empty(), selected: home@ }),
    {
        let data = WorkspaceListData { home, order: Vec::new(), selected: home };
        proof {
            assert(data@.order =~= Seq::empty());
        }
        data
    }
}

impl Default for WorkspaceListData {
    /// The list as it is first written, around a freshly drawn home
    /// workspace identifier: a version 7 identifier, and so never the
    /// reserved identifier with the value zero.
    fn default() -> (data: Self)
        ensures
            data@.order == Seq::<u128>::empty(),
            data@.selected == data@.home,
            is_version_7(data@.home),
            data@.home != 0,
    {
        WorkspaceListData::with_home(Id::generate())
    }
}

/// The summary of a workspace, as a mathematical value.
pub struct MetadataView {
    pub id: u128,
    pub icon: IconView,
    pub name: Seq<char>,
}

/// The summary of a workspace that stays in memory whether or not the
/// workspace is loaded: identifier, icon and name.
#[derive(Debug, PartialEq, Eq)]
pub struct WorkspaceMetadata {
    pub(crate) id: Id<WorkspaceMarker>,
    pub(crate) icon: WorkspaceIconData,
    pub(crate) name: String,
}

impl View for WorkspaceMetadata {
    type V = MetadataView;

    closed spec fn view(&self) -> MetadataView {
        MetadataView { id: self.id@, icon: self.icon@, name: self.name@ }
    }
}

impl Clone for WorkspaceMetadata {
    fn clone(&self) -> (copy: Self)
        ensures
            copy@ == self@,
    {
        WorkspaceMetadata { id: self.id, icon: self.icon.clone(), name: self.name.clone() }
    }
}

impl WorkspaceMetadata {
    /// The summary with the given parts.
    pub fn new(id: Id<WorkspaceMarker>, icon: WorkspaceIconData, name: String) -> (metadata: Self)
        ensures
            metadata@ == (MetadataView { id: id@, icon: icon@, name: name@ }),
    {
        WorkspaceMetadata { id, icon, name }
    }

    /// The summary of a persisted workspace.
    pub fn from_data(data: &WorkspaceData) -> (metadata: Self)
        ensures
            metadata@ == (MetadataView { id: data@.id, icon: data@.icon, name: data@.name }),
    {
        WorkspaceMetadata { id: data.id, icon: data.icon.clone(), name: data.name.clone() }
    }

    pub fn id(&self) -> (id: Id<WorkspaceMarker>)
        ensures
            id@ == self@.id,
    {
        self.id
    }

    pub fn icon(&self) -> (icon: &WorkspaceIconData)
        ensures
            icon@ == self@.icon,
    {
        &self.icon
    }

    pub fn name(&self) -> (name: &String)
        ensures
            name@ == self@.name,
    {
        &self.name
    }
}

} // verus!
