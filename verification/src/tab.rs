//! A tab: one browsing session, with at most one native view at a time.

use crate::data::{LocationView, TabData, TabDataView, TabLocationData};
use crate::effect::Effect;
use crate::error::WorkspaceError;
use crate::geometry::WebViewBounds;
use crate::id::{group_id, id_of, Id, TabMarker};
use crate::token::UIThreadMarker;
use vstd::prelude::*;

verus! {

broadcast use group_id;

/// A tab as a mathematical value.
pub struct TabView {
    pub id: u128,
    /// The last known location: where the view is, or where it will start.
    pub location: LocationView,
    /// Whether the tab has its native view.
    pub loaded: bool,
    /// Whether the native view is shown.
    pub visible: bool,
    /// The title that the native view last reported.
    pub title: Option<Seq<char>>,
}

impl TabView {
    /// Only a tab with a view is visible or has a reported title.
    pub open spec fn wf(self) -> bool {
        !self.loaded ==> !self.visible && self.title is None
    }

    /// The tab without its view: it keeps its identifier and location.
    pub open spec fn unloaded(self) -> TabView {
        TabView { loaded: false, visible: false, title: None, ..self }
    }
}

/// The title of a tab whose view has not reported one.
pub open spec fn placeholder_title() -> Seq<char> {
    "Untitled"@
}

/// A tab. It is either unloaded, and then only remembers where it points, or
/// loaded, and then stands for a native view that is shown or hidden.
#[derive(Debug)]
pub struct Tab {
    id: Id<TabMarker>,
    location: TabLocationData,
    loaded: bool,
    visible: bool,
    title: Option<String>,
}

impl View for Tab {
    type V = TabView;

    closed spec fn view(&self) -> TabView {
        TabView {
            id: self.id@,
            location: self.location@,
            loaded: self.loaded,
            visible: self.visible,
            title: match self.title {
                Some(title) => Some(title@),
                None => None,
            },
        }
    }
}

impl Tab {
    /// The tab of a descriptor, not loaded yet.
    pub fn new(data: TabData) -> (tab: Self)
        ensures
            tab@ == (TabView {
                id: data@.id,
                location: data@.location,
                loaded: false,
                visible: false,
                title: None,
            }),
            tab@.wf(),
    {
        Tab { id: data.id, location: data.location, loaded: false, visible: false, title: None }
    }

    pub fn id(&self) -> (id: Id<TabMarker>)
        ensures
            id@ == self@.id,
            id == id_of::<TabMarker>(self@.id),
    {
        self.id
    }

    pub fn is_loaded(&self) -> (loaded: bool)
        ensures
            loaded == self@.loaded,
    {
        self.loaded
    }

    pub fn is_visible(&self) -> (visible: bool)
        ensures
            visible == self@.visible,
    {
        self.visible
    }

    /// Whether the tab points at the built-in home page.
    pub fn is_native_homepage(&self) -> (native: bool)
        ensures
            native == (self@.location is NativeHomePage),
    {
        match &self.location {
            TabLocationData::NativeHomePage => true,
            _ => false,
        }
    }

    /// The last known location of the tab.
    pub fn location(&self) -> (location: TabLocationData)
        ensures
            location@ == self@.location,
    {
        self.location.clone()
    }

    /// Gives the tab its native view, hidden, at the tab's location and with
    /// the given bounds. A tab that has its view is refused.
    pub fn load(&mut self, token: UIThreadMarker, bounds: WebViewBounds) -> (result: Result<
        Effect,
        WorkspaceError,
    >)
        ensures
            old(self)@.wf() ==> final(self)@.wf(),
            old(self)@.loaded ==> result == Err::<Effect, WorkspaceError>(
                WorkspaceError::AlreadyLoaded,
            ) && final(self)@ == old(self)@,
            !old(self)@.loaded ==> result == Ok::<Effect, WorkspaceError>(
                Effect::CreateView { tab: id_of(old(self)@.id), bounds },
            ) && final(self)@ == (TabView { loaded: true, visible: false, title: None, ..old(self)@ }),
    {
        if self.loaded {
            return Err(WorkspaceError::AlreadyLoaded);
        }
        self.loaded = true;
        self.visible = false;
        self.title = None;
        Ok(Effect::CreateView { tab: self.id, bounds })
    }

    /// Hides or shows the view of a loaded tab.
    pub fn set_hidden(&mut self, token: UIThreadMarker, hidden: bool) -> (effect: Effect)
        requires
            old(self)@.loaded,
        ensures
            old(self)@.wf() ==> final(self)@.wf(),
            effect == (Effect::SetHidden { tab: id_of(old(self)@.id), hidden }),
            final(self)@ == (TabView { visible: !hidden, ..old(self)@ }),
    {
        self.visible = !hidden;
        Effect::SetHidden { tab: self.id, hidden }
    }

    /// Gives the view of the tab new bounds, if the tab has a view.
    pub fn resize(&self, token: UIThreadMarker, bounds: WebViewBounds) -> (effect: Option<Effect>)
        ensures
            effect == if self@.loaded {
                Some(Effect::Resize { tab: id_of(self@.id), bounds })
            } else {
                None
            },
    {
        if self.loaded {
            Some(Effect::Resize { tab: self.id, bounds })
        } else {
            None
        }
    }

    /// Points the tab at a new location. The new location is always written
    /// to disk. A loaded tab also sends its view there; an unloaded one only
    /// remembers the location, and starts there when it is loaded.
    pub fn navigate(&mut self, location: TabLocationData) -> (effects: Vec<Effect>)
        ensures
            old(self)@.wf() ==> final(self)@.wf(),
            final(self)@ == (TabView { location: location@, ..old(self)@ }),
            effects@ == navigate_effects(id_of(old(self)@.id), old(self)@.loaded),
    {
        self.location = location;
        let mut effects: Vec<Effect> = Vec::new();
        effects.push(Effect::SaveTab { tab: self.id });
        if self.loaded {
            effects.push(Effect::Navigate { tab: self.id });
        }
        proof {
            assert(effects@ =~= navigate_effects(id_of(old(self)@.id), old(self)@.loaded));
        }
        effects
    }

    /// Closes the view of a loaded tab and lets go of it. The tab keeps its
    /// last known location.
    pub fn close(&mut self, token: UIThreadMarker) -> (effect: Effect)
        requires
            old(self)@.loaded,
        ensures
            old(self)@.wf() ==> final(self)@.wf(),
            effect == (Effect::CloseView { tab: id_of(old(self)@.id) }),
            final(self)@ == old(self)@.unloaded(),
    {
        self.loaded = false;
        self.visible = false;
        self.title = None;
        Effect::CloseView { tab: self.id }
    }

    /// The title that the view last reported, or the placeholder where the
    /// tab has no view or the view has reported none.
    pub fn title(&self) -> (title: String)
        ensures
            title@ == match self@.title {
                Some(reported) => reported,
                None => placeholder_title(),
            },
    {
        match &self.title {
            Some(reported) => reported.clone(),
            None => "Untitled".to_owned(),
        }
    }

    /// Takes note of the title that the view reports. A tab without a view
    /// has nothing to report, and ignores it.
    pub fn on_title_change(&mut self, title: String)
        ensures
            old(self)@.wf() ==> final(self)@.wf(),
            final(self)@ == if old(self)@.loaded {
                TabView { title: Some(title@), ..old(self)@ }
            } else {
                old(self)@
            },
    {
        if self.loaded {
            self.title = Some(title);
        }
    }

    /// Takes note of the URL at which the view reports to be. A tab without
    /// a view keeps the location it has.
    pub fn on_url_change(&mut self, url: String)
        ensures
            old(self)@.wf() ==> final(self)@.wf(),
            final(self)@ == if old(self)@.loaded {
                TabView { location: LocationView::WebPage { url: url@ }, ..old(self)@ }
            } else {
                old(self)@
            },
    {
        if self.loaded {
            self.location = TabLocationData::WebPage { url };
        }
    }

    /// The descriptor under which the tab is stored.
    pub fn to_data(&self) -> (data: TabData)
        ensures
            data@ == (TabDataView { id: self@.id, location: self@.location }),
    {
        TabData { id: self.id, location: self.location.clone() }
    }
}

impl TabData {
    /// The descriptor under which the tab is stored.
    pub fn from_state(tab: &Tab) -> (data: TabData)
        ensures
            data@ == (TabDataView { id: tab@.id, location: tab@.location }),
    {
        tab.to_data()
    }
}

/// A location that a tab can be sent to by hand: a web page or a file.
#[derive(Debug, PartialEq, Eq)]
pub enum TabLocation {
    WebPage { url: String },
    FileViewer { path: String },
}

impl TabLocation {
    /// The location as a tab stores it.
    pub fn into_data(self) -> (data: TabLocationData)
        ensures
            data@ == match self {
                TabLocation::WebPage { url } => LocationView::WebPage { url: url@ },
                TabLocation::FileViewer { path } => LocationView::FileViewer { path: path@ },
            },
    {
        match self {
            TabLocation::WebPage { url } => TabLocationData::WebPage { url },
            TabLocation::FileViewer { path } => TabLocationData::FileViewer { path },
        }
    }
}

/// What navigating a tab asks of the host: the write of the new location,
/// and for a loaded tab the navigation of its view.
pub open spec fn navigate_effects(tab: Id<TabMarker>, loaded: bool) -> Seq<Effect> {
    if loaded {
        seq![Effect::SaveTab { tab }, Effect::Navigate { tab }]
    } else {
        seq![Effect::SaveTab { tab }]
    }
}

} // verus!
