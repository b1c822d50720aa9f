//! A workspace: an ordered set of loaded tabs of which at most one is shown.

use crate::data::{
    optional_id_value, IconView, LocationView, MetadataView, TabData, TabDataView,
    TabLocationData, WorkspaceData, WorkspaceDataView, WorkspaceIconData, WorkspaceMetadata,
};
use crate::effect::Effect;
use crate::error::WorkspaceError;
use crate::file_tree::FileSystemItem;
use crate::geometry::WebViewBounds;
use crate::order::lemma_order_without;
use crate::id::{
    copy_ids, group_id, id_of, id_values, is_version_7, Id, TabMarker, WorkspaceMarker,
};
use crate::tab::{navigate_effects, Tab, TabView};
use crate::token::UIThreadMarker;
use std::collections::HashMap;
use vstd::pervasive::unreached;
use vstd::prelude::*;

verus! {

broadcast use {vstd::std_specs::hash::group_hash_axioms, group_id};

/// A workspace as a mathematical value.
pub struct WorkspaceView {
    pub id: u128,
    pub name: Seq<char>,
    pub icon: IconView,
    pub tabs: Map<u128, TabView>,
    pub tab_order: Seq<u128>,
    pub selected: Option<u128>,
    /// The snapshot of the files that the workspace was loaded with.
    pub files: Seq<FileSystemItem>,
    /// Whether the workspace is the one on screen. The tabs of a workspace
    /// that is not are all hidden.
    pub shown: bool,
}

/// The tabs of a map, each as a mathematical value.
pub open spec fn tab_views(tabs: Map<u128, Tab>) -> Map<u128, TabView> {
    tabs.map_values(|tab: Tab| tab@)
}

/// The same tabs, with `shown` visible and every other tab hidden.
pub open spec fn showing_only(tabs: Map<u128, TabView>, shown: Option<u128>) -> Map<
    u128,
    TabView,
> {
    Map::new(
        |key: u128| tabs.dom().contains(key),
        |key: u128| TabView { visible: shown == Some(key), ..tabs[key] },
    )
}

/// What switching the visible tab asks of the host: one call for each tab,
/// in the order of the tabs, that shows `shown` and hides every other tab.
pub open spec fn switch_effects(order: Seq<u128>, shown: Option<u128>) -> Seq<Effect> {
    order.map_values(|key: u128| Effect::SetHidden { tab: id_of(key), hidden: shown != Some(key) })
}

/// Whether some tab of the map is kept under a version 7 identifier, the
/// only kind that a freshly drawn identifier can collide with.
pub open spec fn has_version_7_tab(tabs: Map<u128, TabView>) -> bool {
    exists|key: u128| is_version_7(key) && #[trigger] tabs.dom().contains(key)
}

/// What loading the tabs asks of the host first: one native view for each
/// tab, in the order of the tabs.
pub open spec fn create_effects(order: Seq<u128>, bounds: WebViewBounds) -> Seq<Effect> {
    order.map_values(|key: u128| Effect::CreateView { tab: id_of(key), bounds })
}

/// A persisted tab once it is loaded and hidden.
pub open spec fn loaded_tab(key: u128, location: LocationView, visible: bool) -> TabView {
    TabView { id: key, location, loaded: true, visible, title: None }
}

impl WorkspaceView {
    /// The workspace that a well-formed descriptor and a file tree are
    /// loaded into: every persisted tab is loaded, and the persisted
    /// selected tab is the visible one.
    pub open spec fn loaded_from(data: WorkspaceDataView, files: Seq<FileSystemItem>) -> WorkspaceView {
        WorkspaceView {
            id: data.id,
            name: data.name,
            icon: data.icon,
            tabs: Map::new(
                |key: u128| data.tabs.dom().contains(key),
                |key: u128| loaded_tab(key, data.tabs[key].location, data.selected == Some(key)),
            ),
            tab_order: data.tab_order,
            selected: data.selected,
            files,
            shown: true,
        }
    }

    /// The invariant of a workspace: the order lists every key of the tab
    /// map exactly once and nothing else; every tab is stored under its own
    /// identifier and has its view; the selected tab, if any, is a key of
    /// the map; and a tab is visible exactly when the workspace is on
    /// screen and the tab is the selected one.
    pub open spec fn wf(self) -> bool {
        &&& self.tab_order.no_duplicates()
        &&& self.tab_order.to_set() == self.tabs.dom()
        &&& forall|key: u128| #[trigger]
            self.tabs.dom().contains(key) ==> {
                &&& self.tabs[key].id == key
                &&& self.tabs[key].loaded
                &&& self.tabs[key].visible == (self.shown && self.selected == Some(key))
            }
        &&& self.selected is Some ==> self.tabs.dom().contains(self.selected->0)
    }

    /// The workspace after a new tab `id` was put at the end of the order.
    /// With `make_visible` the workspace is on screen and the new tab is
    /// the selected and only visible one; without it the new tab is hidden
    /// and the selection stays.
    pub open spec fn create_tab(self, id: u128, location: LocationView, make_visible: bool) -> WorkspaceView {
        let tabs = self.tabs.insert(id, loaded_tab(id, location, make_visible));
        if make_visible {
            WorkspaceView {
                tabs: showing_only(tabs, Some(id)),
                tab_order: self.tab_order.push(id),
                selected: Some(id),
                shown: true,
                ..self
            }
        } else {
            WorkspaceView { tabs, tab_order: self.tab_order.push(id), ..self }
        }
    }

    /// What creating the tab asks of the host: the view of the new tab, the
    /// calls that settle who is visible, and the write of the workspace.
    pub open spec fn create_tab_effects(
        self,
        id: u128,
        bounds: WebViewBounds,
        make_visible: bool,
    ) -> Seq<Effect> {
        let settle = if make_visible {
            switch_effects(self.tab_order.push(id), Some(id))
        } else {
            seq![Effect::SetHidden { tab: id_of(id), hidden: true }]
        };
        seq![Effect::CreateView { tab: id_of(id), bounds }] + settle
            + seq![Effect::SaveWorkspace { workspace: id_of(self.id) }]
    }

    /// The workspace without its tab `id`. If that tab was the selected one,
    /// no tab is selected afterwards.
    pub open spec fn without_tab(self, id: u128) -> WorkspaceView {
        WorkspaceView {
            tabs: self.tabs.remove(id),
            tab_order: self.tab_order.remove(self.tab_order.index_of(id)),
            selected: if self.selected == Some(id) {
                None
            } else {
                self.selected
            },
            ..self
        }
    }

    /// The workspace after its tab `id` was pointed at `location`.
    pub open spec fn navigate_tab(self, id: u128, location: LocationView) -> WorkspaceView {
        WorkspaceView { tabs: self.tabs.insert(id, TabView { location, ..self.tabs[id] }), ..self }
    }

    /// The workspace after the view of its tab `id` reported a title.
    pub open spec fn with_tab_title(self, id: u128, title: Seq<char>) -> WorkspaceView {
        WorkspaceView {
            tabs: self.tabs.insert(id, TabView { title: Some(title), ..self.tabs[id] }),
            ..self
        }
    }

    /// The descriptor under which the workspace is stored.
    pub open spec fn to_data(self) -> WorkspaceDataView {
        WorkspaceDataView {
            id: self.id,
            name: self.name,
            icon: self.icon,
            tabs: Map::new(
                |key: u128| self.tabs.dom().contains(key),
                |key: u128| TabDataView { id: key, location: self.tabs[key].location },
            ),
            tab_order: self.tab_order,
            selected: self.selected,
        }
    }

    /// The workspace after `id`, one of its tabs, was selected.
    pub open spec fn select(self, id: u128) -> WorkspaceView {
        WorkspaceView {
            tabs: showing_only(self.tabs, Some(id)),
            selected: Some(id),
            shown: true,
            ..self
        }
    }

    /// The tab that is visible: the selected one, while the workspace is on
    /// screen.
    pub open spec fn visible_tab(self) -> Option<u128> {
        if self.shown {
            self.selected
        } else {
            None
        }
    }

    /// The workspace after it was taken off the screen or put on it. Off
    /// the screen every tab is hidden; on it the selected tab is visible.
    pub open spec fn with_hidden(self, hidden: bool) -> WorkspaceView {
        let after = WorkspaceView { shown: !hidden, ..self };
        WorkspaceView { tabs: showing_only(self.tabs, after.visible_tab()), ..after }
    }
}

/// A loaded workspace. It owns its tabs, keeps them in order, and sees to it
/// that no tab but the selected one is visible, and none at all while the
/// workspace is off the screen.
#[derive(Debug)]
pub struct Workspace {
    id: Id<WorkspaceMarker>,
    name: String,
    icon: WorkspaceIconData,
    tabs: HashMap<u128, Tab>,
    tab_order: Vec<Id<TabMarker>>,
    selected: Option<Id<TabMarker>>,
    files: Vec<FileSystemItem>,
    shown: bool,
}

impl View for Workspace {
    type V = WorkspaceView;

    closed spec fn view(&self) -> WorkspaceView {
        WorkspaceView {
            id: self.id@,
            name: self.name@,
            icon: self.icon@,
            tabs: tab_views(self.tabs@),
            tab_order: id_values(self.tab_order@),
            selected: optional_id_value(self.selected),
            files: self.files@,
            shown: self.shown,
        }
    }
}

/// What closing every tab asks of the host: one call for each tab, in the
/// order of the tabs.
pub open spec fn close_effects(order: Seq<u128>) -> Seq<Effect> {
    order.map_values(|key: u128| Effect::CloseView { tab: id_of(key) })
}

/// What a resize asks of the host: one call for each tab, in the order of
/// the tabs, visible or not.
pub open spec fn resize_effects(order: Seq<u128>, bounds: WebViewBounds) -> Seq<Effect> {
    order.map_values(|key: u128| Effect::Resize { tab: id_of(key), bounds })
}

/// Hides or shows the tab stored under `key`.
fn set_hidden_at(
    tabs: &mut HashMap<u128, Tab>,
    token: UIThreadMarker,
    key: u128,
    hidden: bool,
) -> (effect: Effect)
    requires
        old(tabs)@.dom().contains(key),
        old(tabs)@[key]@.loaded,
    ensures
        tab_views(final(tabs)@) == tab_views(old(tabs)@).insert(
            key,
            TabView { visible: !hidden, ..old(tabs)@[key]@ },
        ),
        effect == (Effect::SetHidden { tab: id_of(old(tabs)@[key]@.id), hidden }),
{
    match tabs.remove(&key) {
        Some(mut tab) => {
            let effect = tab.set_hidden(token, hidden);
            tabs.insert(key, tab);
            proof {
                assert(tab_views(tabs@) =~= tab_views(old(tabs)@).insert(
                    key,
                    TabView { visible: !hidden, ..old(tabs)@[key]@ },
                ));
            }
            effect
        },
        None => unreached(),
    }
}

/// Shows `shown` and hides every other tab, visiting each tab once, in order.
fn show_only(
    tabs: &mut HashMap<u128, Tab>,
    order: &Vec<Id<TabMarker>>,
    token: UIThreadMarker,
    shown: Option<Id<TabMarker>>,
) -> (effects: Vec<Effect>)
    requires
        id_values(order@).no_duplicates(),
        id_values(order@).to_set() == old(tabs)@.dom(),
        forall|key: u128| #[trigger]
            old(tabs)@.dom().contains(key) ==> old(tabs)@[key]@.id == key && old(
                tabs,
            )@[key]@.loaded,
    ensures
        tab_views(final(tabs)@) == showing_only(tab_views(old(tabs)@), optional_id_value(shown)),
        effects@ == switch_effects(id_values(order@), optional_id_value(shown)),
{
    let ghost before = tab_views(tabs@);
    let ghost keys = id_values(order@);
    let ghost target = optional_id_value(shown);
    let mut effects: Vec<Effect> = Vec::new();
    let mut index: usize = 0;
    while index < order.len()
        invariant
            index <= order.len(),
            keys == id_values(order@),
            keys.no_duplicates(),
            keys.to_set() == before.dom(),
            before == tab_views(old(tabs)@),
            target == optional_id_value(shown),
            tab_views(tabs@).dom() == before.dom(),
            forall|key: u128| #[trigger]
                before.dom().contains(key) ==> before[key].id == key && before[key].loaded,
            forall|done: int|
                0 <= done < index ==> tab_views(tabs@)[#[trigger] keys[done]] == (TabView {
                    visible: target == Some(keys[done]),
                    ..before[keys[done]]
                }),
            forall|left: int|
                index <= left < keys.len() ==> tab_views(tabs@)[#[trigger] keys[left]]
                    == before[keys[left]],
            effects@ == switch_effects(keys.take(index as int), target),
        decreases order.len() - index,
    {
        let id = order[index];
        let key = id.value();
        let hidden = match shown {
            Some(shown) => !shown.same(&id),
            None => true,
        };
        proof {
            assert(keys[index as int] == key);
            assert(keys.to_set().contains(key));
            assert(tab_views(tabs@).dom().contains(key));
            assert(tabs@.dom().contains(key));
            assert(tab_views(tabs@)[key] == before[key]);
        }
        let ghost previous = tab_views(tabs@);
        let effect = set_hidden_at(tabs, token, key, hidden);
        effects.push(effect);
        proof {
            assert(tab_views(tabs@).dom() =~= before.dom());
            assert forall|done: int| 0 <= done < index + 1 implies tab_views(
                tabs@,
            )[#[trigger] keys[done]] == (TabView {
                visible: target == Some(keys[done]),
                ..before[keys[done]]
            }) by {
                if done < index {
                    assert(keys[done] != key);
                    assert(tab_views(tabs@)[keys[done]] == previous[keys[done]]);
                }
            }
            assert forall|left: int| index + 1 <= left < keys.len() implies tab_views(
                tabs@,
            )[#[trigger] keys[left]] == before[keys[left]] by {
                assert(keys[left] != key);
                assert(tab_views(tabs@)[keys[left]] == previous[keys[left]]);
            }
            assert(keys.take(index + 1) =~= keys.take(index as int).push(key));
            assert(effects@ =~= switch_effects(keys.take(index + 1), target));
        }
        index += 1;
    }
    proof {
        assert(keys.take(index as int) =~= keys);
        assert(tab_views(tabs@) =~= showing_only(before, target)) by {
            assert forall|key: u128| before.dom().contains(key) implies tab_views(tabs@)[key]
                == showing_only(before, target)[key] by {
                assert(keys.to_set().contains(key));
                let at = choose|at: int| 0 <= at < keys.len() && keys[at] == key;
                assert(tab_views(tabs@)[keys[at]] == (TabView {
                    visible: target == Some(keys[at]),
                    ..before[keys[at]]
                }));
            }
        }
    }
    effects
}

impl Workspace {
    /// A new workspace without tabs and without files, on screen.
    pub fn new(id: Id<WorkspaceMarker>, name: String, icon: WorkspaceIconData) -> (workspace: Self)
        ensures
            workspace@ == (WorkspaceView {
                id: id@,
                name: name@,
                icon: icon@,
                tabs: Map::empty(),
                tab_order: Seq::empty(),
                selected: None,
                files: Seq::empty(),
                shown: true,
            }),
            workspace@.wf(),
    {
        let workspace = Workspace {
            id,
            name,
            icon,
            tabs: HashMap::new(),
            tab_order: Vec::new(),
            selected: None,
            files: Vec::new(),
            shown: true,
        };
        proof {
            assert(workspace@.tabs =~= Map::empty());
            assert(workspace@.tab_order =~= Seq::empty());
            assert(workspace@.tab_order.to_set() =~= workspace@.tabs.dom());
        }
        workspace
    }

    /// Loads a workspace from its descriptor and its file tree: every
    /// persisted tab gets its view, under the key that it is stored under,
    /// and exactly the persisted selected tab, if there is one, is shown.
    /// A descriptor that breaks its invariant is refused as corrupt.
    pub fn load(
        token: UIThreadMarker,
        bounds: WebViewBounds,
        data: WorkspaceData,
        files: Vec<FileSystemItem>,
    ) -> (result: Result<(Workspace, Vec<Effect>), WorkspaceError>)
        ensures
            !data@.wf() ==> result == Err::<(Workspace, Vec<Effect>), WorkspaceError>(
                WorkspaceError::Corrupt,
            ),
            data@.wf() ==> result is Ok && ({
                let (workspace, effects) = result->Ok_0;
                &&& workspace@ == WorkspaceView::loaded_from(data@, files@)
                &&& workspace@.wf()
                &&& effects@ == create_effects(data@.tab_order, bounds) + switch_effects(
                    data@.tab_order,
                    data@.selected,
                )
            }),
    {
        if !data.is_valid() {
            return Err(WorkspaceError::Corrupt);
        }
        let ghost stored = data@;
        let ghost keys = data@.tab_order;
        let mut tabs: HashMap<u128, Tab> = HashMap::new();
        let mut effects: Vec<Effect> = Vec::new();
        let mut index: usize = 0;
        proof {
            assert(tab_views(tabs@).dom() =~= keys.take(0).to_set());
        }
        while index < data.tab_order.len()
            invariant
                index <= data.tab_order.len(),
                stored == data@,
                stored.wf(),
                keys == id_values(data.tab_order@),
                tabs@.dom() == keys.take(index as int).to_set(),
                forall|key: u128| #[trigger]
                    tabs@.dom().contains(key) ==> tabs@[key]@ == loaded_tab(
                        key,
                        stored.tabs[key].location,
                        false,
                    ),
                effects@ == create_effects(keys.take(index as int), bounds),
            decreases data.tab_order.len() - index,
        {
            let id = data.tab_order[index];
            let key = id.value();
            proof {
                assert(keys[index as int] == key);
                assert(keys.to_set().contains(key));
                assert(data.tabs@.dom().contains(key));
                assert(stored.tabs[key] == data.tabs@[key]@);
            }
            match data.tabs.get(&key) {
                Some(tab_data) => {
                    let mut tab = Tab::new(TabData { id, location: tab_data.location.clone() });
                    match tab.load(token, bounds) {
                        Ok(effect) => {
                            effects.push(effect);
                            tabs.insert(key, tab);
                        },
                        Err(_) => {
                            assert(false);
                        },
                    }
                },
                None => {
                    assert(false);
                },
            }
            proof {
                keys.take(index as int).lemma_push_to_set_commute(key);
                assert(keys.take(index + 1) =~= keys.take(index as int).push(key));
                assert(effects@ =~= create_effects(keys.take(index + 1), bounds));
            }
            index += 1;
        }
        proof {
            assert(keys.take(index as int) =~= keys);
            assert(tab_views(tabs@).dom() =~= tabs@.dom());
        }
        let mut switch = show_only(&mut tabs, &data.tab_order, token, data.selected);
        effects.append(&mut switch);
        let workspace = Workspace {
            id: data.id,
            name: data.name,
            icon: data.icon,
            tabs,
            tab_order: data.tab_order,
            selected: data.selected,
            files,
            shown: true,
        };
        proof {
            assert(workspace@.tabs =~= WorkspaceView::loaded_from(stored, files@).tabs);
            assert(workspace@ == WorkspaceView::loaded_from(stored, files@));
        }
        Ok((workspace, effects))
    }


    pub fn id(&self) -> (id: Id<WorkspaceMarker>)
        ensures
            id@ == self@.id,
    {
        self.id
    }

    pub fn name(&self) -> (name: &str)
        ensures
            name@ == self@.name,
    {
        self.name.as_str()
    }

    pub fn set_name(&mut self, name: String)
        ensures
            final(self)@ == (WorkspaceView { name: name@, ..old(self)@ }),
    {
        self.name = name;
    }

    pub fn icon(&self) -> (icon: &WorkspaceIconData)
        ensures
            icon@ == self@.icon,
    {
        &self.icon
    }

    /// The identifiers of the tabs, in the order in which they are shown.
    pub fn tab_order(&self) -> (order: &Vec<Id<TabMarker>>)
        ensures
            id_values(order@) == self@.tab_order,
    {
        &self.tab_order
    }

    pub fn selected_tab(&self) -> (selected: Option<Id<TabMarker>>)
        ensures
            optional_id_value(selected) == self@.selected,
    {
        self.selected
    }

    /// The tab with the given identifier, if the workspace has it.
    pub fn get_tab(&self, id: Id<TabMarker>) -> (tab: Option<&Tab>)
        ensures
            tab is Some == self@.tabs.dom().contains(id@),
            tab is Some ==> tab->0@ == self@.tabs[id@],
    {
        self.tabs.get(&id.value())
    }

    pub fn files(&self) -> (files: &Vec<FileSystemItem>)
        ensures
            files@ == self@.files,
    {
        &self.files
    }

    /// Whether the workspace is off the screen.
    pub fn is_hidden(&self) -> (hidden: bool)
        ensures
            hidden == !self@.shown,
    {
        !self.shown
    }

    /// Takes the workspace off the screen or puts it on it, visiting each
    /// tab once: off the screen every tab is hidden, on it the selected tab
    /// is shown and every other tab is hidden.
    pub fn set_hidden(&mut self, token: UIThreadMarker, hidden: bool) -> (effects: Vec<Effect>)
        requires
            old(self)@.wf(),
        ensures
            final(self)@.wf(),
            final(self)@ == old(self)@.with_hidden(hidden),
            effects@ == switch_effects(
                old(self)@.tab_order,
                old(self)@.with_hidden(hidden).visible_tab(),
            ),
    {
        proof {
            assert(tab_views(self.tabs@).dom() =~= self.tabs@.dom());
        }
        let visible = if hidden {
            None
        } else {
            self.selected
        };
        let effects = show_only(&mut self.tabs, &self.tab_order, token, visible);
        self.shown = !hidden;
        proof {
            assert(final(self)@.tabs.dom() =~= old(self)@.tabs.dom());
        }
        effects
    }

    /// Makes `id` the selected tab and puts the workspace on screen: shows
    /// the tab and hides every other tab, visiting each tab once. An
    /// identifier that is not a tab of the workspace is refused.
    pub fn select(&mut self, token: UIThreadMarker, id: Id<TabMarker>) -> (result: Result<
        Vec<Effect>,
        WorkspaceError,
    >)
        requires
            old(self)@.wf(),
        ensures
            final(self)@.wf(),
            !old(self)@.tabs.dom().contains(id@) ==> result == Err::<Vec<Effect>, WorkspaceError>(
                WorkspaceError::NotFound,
            ) && final(self)@ == old(self)@,
            old(self)@.tabs.dom().contains(id@) ==> result is Ok && final(self)@ == old(
                self,
            )@.select(id@) && result->Ok_0@ == switch_effects(old(self)@.tab_order, Some(id@)),
    {
        if !self.tabs.contains_key(&id.value()) {
            return Err(WorkspaceError::NotFound);
        }
        proof {
            assert(tab_views(self.tabs@).dom() =~= self.tabs@.dom());
        }
        let effects = show_only(&mut self.tabs, &self.tab_order, token, Some(id));
        self.selected = Some(id);
        self.shown = true;
        proof {
            assert(final(self)@.tabs.dom() =~= old(self)@.tabs.dom());
        }
        Ok(effects)
    }

    /// Opens a new tab at `location` under a freshly drawn identifier, as
    /// `create_tab_with_id` does, and returns the identifier with the
    /// effects. A drawn identifier is a version 7 identifier, so the
    /// request can only be refused where the workspace already has a tab
    /// under such an identifier, and the draw hits it.
    pub fn create_tab(
        &mut self,
        token: UIThreadMarker,
        bounds: WebViewBounds,
        location: TabLocationData,
        make_visible: bool,
    ) -> (result: Result<(Id<TabMarker>, Vec<Effect>), WorkspaceError>)
        requires
            old(self)@.wf(),
        ensures
            final(self)@.wf(),
            match result {
                Ok((id, effects)) => {
                    &&& !old(self)@.tabs.dom().contains(id@)
                    &&& final(self)@ == old(self)@.create_tab(id@, location@, make_visible)
                    &&& effects@ == old(self)@.create_tab_effects(id@, bounds, make_visible)
                },
                Err(error) => error == WorkspaceError::AlreadyExists && final(self)@ == old(self)@,
            },
            result is Err ==> has_version_7_tab(old(self)@.tabs),
    {
        let id: Id<TabMarker> = Id::generate();
        match self.create_tab_with_id(token, id, bounds, location, make_visible) {
            Ok(effects) => Ok((id, effects)),
            Err(error) => Err(error),
        }
    }

    /// Opens a new tab `id` at `location`: the tab gets its view and goes to
    /// the end of the order. With `make_visible` it becomes the selected
    /// tab and every other tab is hidden; without it the new tab is hidden.
    /// The workspace is then written to disk. An identifier that the
    /// workspace already has is refused.
    pub fn create_tab_with_id(
        &mut self,
        token: UIThreadMarker,
        id: Id<TabMarker>,
        bounds: WebViewBounds,
        location: TabLocationData,
        make_visible: bool,
    ) -> (result: Result<Vec<Effect>, WorkspaceError>)
        requires
            old(self)@.wf(),
        ensures
            final(self)@.wf(),
            old(self)@.tabs.dom().contains(id@) ==> result == Err::<Vec<Effect>, WorkspaceError>(
                WorkspaceError::AlreadyExists,
            ) && final(self)@ == old(self)@,
            !old(self)@.tabs.dom().contains(id@) ==> result is Ok && final(self)@ == old(
                self,
            )@.create_tab(id@, location@, make_visible) && result->Ok_0@ == old(
                self,
            )@.create_tab_effects(id@, bounds, make_visible),
    {
        let key = id.value();
        proof {
            assert(tab_views(self.tabs@).dom() =~= self.tabs@.dom());
        }
        if self.tabs.contains_key(&key) {
            return Err(WorkspaceError::AlreadyExists);
        }
        let ghost before = self@;
        let mut effects: Vec<Effect> = Vec::new();
        let mut tab = Tab::new(TabData { id, location });
        match tab.load(token, bounds) {
            Ok(effect) => {
                effects.push(effect);
            },
            Err(_) => {
                assert(false);
            },
        }
        self.tabs.insert(key, tab);
        self.tab_order.push(id);
        proof {
            assert(id_values(self.tab_order@) =~= before.tab_order.push(key));
            before.tab_order.lemma_push_to_set_commute(key);
            assert(tab_views(self.tabs@) =~= before.tabs.insert(
                key,
                loaded_tab(key, location@, false),
            ));
            assert(tab_views(self.tabs@).dom() =~= self.tabs@.dom());
            assert(!before.tab_order.contains(key));
            assert(id_values(self.tab_order@).no_duplicates());
        }
        if make_visible {
            let mut switch = show_only(&mut self.tabs, &self.tab_order, token, Some(id));
            effects.append(&mut switch);
            self.selected = Some(id);
            self.shown = true;
            proof {
                assert(self@.tabs =~= before.create_tab(key, location@, true).tabs);
            }
        } else {
            let effect = set_hidden_at(&mut self.tabs, token, key, true);
            effects.push(effect);
            proof {
                assert(self@.tabs =~= before.create_tab(key, location@, false).tabs);
            }
        }
        effects.push(Effect::SaveWorkspace { workspace: self.id });
        proof {
            assert(effects@ =~= before.create_tab_effects(key, bounds, make_visible));
            assert(self@.tabs.dom() =~= before.tabs.dom().insert(key));
        }
        Ok(effects)
    }

    /// Takes the tab `id` out of the map, the order and the selection.
    fn take_tab(&mut self, id: Id<TabMarker>) -> (tab: Option<Tab>)
        requires
            old(self)@.wf(),
        ensures
            final(self)@.wf(),
            tab is Some == old(self)@.tabs.dom().contains(id@),
            tab is Some ==> tab->0@ == old(self)@.tabs[id@] && final(self)@ == old(
                self,
            )@.without_tab(id@),
            tab is None ==> final(self)@ == old(self)@,
    {
        let key = id.value();
        let ghost before = self@;
        proof {
            assert(tab_views(self.tabs@).dom() =~= self.tabs@.dom());
        }
        if !self.tabs.contains_key(&key) {
            return None;
        }
        let mut index: usize = 0;
        while index < self.tab_order.len()
            invariant
                index <= self.tab_order.len(),
                key == id@,
                self@ == before,
                *self == *old(self),
                forall|seen: int| 0 <= seen < index ==> before.tab_order[seen] != key,
                before.tab_order.contains(key),
            ensures
                index < self.tab_order.len() ==> before.tab_order[index as int] == key,
            decreases self.tab_order.len() - index,
        {
            assert(before.tab_order[index as int] == self.tab_order@[index as int]@);
            if self.tab_order[index].same(&id) {
                break ;
            }
            index += 1;
        }
        proof {
            if index >= self.tab_order.len() {
                let at = choose|at: int| 0 <= at < before.tab_order.len() && before.tab_order[at] == key;
                assert(false);
            }
            assert(before.tab_order[index as int] == key);
            lemma_order_without(before.tab_order, index as int);
        }
        self.tab_order.remove(index);
        let tab = self.tabs.remove(&key);
        match self.selected {
            Some(selected) => {
                if selected.same(&id) {
                    self.selected = None;
                }
            },
            None => {},
        }
        proof {
            assert(id_values(self.tab_order@) =~= before.tab_order.remove(index as int));
            assert(tab_views(self.tabs@) =~= before.tabs.remove(key));
            assert(self@.tabs.dom() =~= before.tabs.dom().remove(key));
        }
        tab
    }

    /// Closes the tab `id`: its view is closed, and the tab leaves the map
    /// and the order. If it was the selected tab, no tab is selected or
    /// visible afterwards. The workspace is then written to disk. An
    /// identifier that is not a tab of the workspace is refused.
    pub fn close_tab(&mut self, token: UIThreadMarker, id: Id<TabMarker>) -> (result: Result<
        Vec<Effect>,
        WorkspaceError,
    >)
        requires
            old(self)@.wf(),
        ensures
            final(self)@.wf(),
            !old(self)@.tabs.dom().contains(id@) ==> result == Err::<Vec<Effect>, WorkspaceError>(
                WorkspaceError::NotFound,
            ) && final(self)@ == old(self)@,
            old(self)@.tabs.dom().contains(id@) ==> result is Ok && final(self)@ == old(
                self,
            )@.without_tab(id@) && result->Ok_0@ == seq![
                Effect::CloseView { tab: id_of(id@) },
                Effect::SaveWorkspace { workspace: id_of(old(self)@.id) },
            ],
    {
        match self.take_tab(id) {
            None => Err(WorkspaceError::NotFound),
            Some(mut tab) => {
                let mut effects: Vec<Effect> = Vec::new();
                effects.push(tab.close(token));
                effects.push(Effect::SaveWorkspace { workspace: self.id });
                Ok(effects)
            },
        }
    }

    /// Passes over the tab `id` after the host could not create its view:
    /// the tab leaves the map and the order as in `close_tab`, but there is
    /// no view to close, and what is on disk stays as it is. An identifier
    /// that is not a tab of the workspace is refused.
    pub fn discard_tab(&mut self, id: Id<TabMarker>) -> (result: Result<(), WorkspaceError>)
        requires
            old(self)@.wf(),
        ensures
            final(self)@.wf(),
            !old(self)@.tabs.dom().contains(id@) ==> result == Err::<(), WorkspaceError>(
                WorkspaceError::NotFound,
            ) && final(self)@ == old(self)@,
            old(self)@.tabs.dom().contains(id@) ==> result == Ok::<(), WorkspaceError>(())
                && final(self)@ == old(self)@.without_tab(id@),
    {
        match self.take_tab(id) {
            None => Err(WorkspaceError::NotFound),
            Some(_) => Ok(()),
        }
    }

    /// Destroys the workspace: the view of every tab is closed, in order,
    /// and then the directory of the workspace is removed from the disk.
    pub fn destroy(self, token: UIThreadMarker) -> (effects: Vec<Effect>)
        requires
            self@.wf(),
        ensures
            effects@ == close_effects(self@.tab_order) + seq![
                Effect::DeleteWorkspace { workspace: id_of(self@.id) },
            ],
    {
        let ghost keys = self@.tab_order;
        let mut effects: Vec<Effect> = Vec::new();
        let mut index: usize = 0;
        while index < self.tab_order.len()
            invariant
                index <= self.tab_order.len(),
                keys == id_values(self.tab_order@),
                effects@ == close_effects(keys.take(index as int)),
            decreases self.tab_order.len() - index,
        {
            effects.push(Effect::CloseView { tab: self.tab_order[index] });
            proof {
                assert(keys.take(index + 1) =~= keys.take(index as int).push(keys[index as int]));
                assert(effects@ =~= close_effects(keys.take(index + 1)));
            }
            index += 1;
        }
        proof {
            assert(keys.take(index as int) =~= keys);
        }
        effects.push(Effect::DeleteWorkspace { workspace: self.id });
        proof {
            assert(effects@ =~= close_effects(keys) + seq![
                Effect::DeleteWorkspace { workspace: id_of(self@.id) },
            ]);
        }
        effects
    }

    /// Gives the view of every tab new bounds, whether the tab is visible
    /// or not, so that a hidden tab has the right size when it is shown.
    pub fn resize(&self, token: UIThreadMarker, bounds: WebViewBounds) -> (effects: Vec<Effect>)
        requires
            self@.wf(),
        ensures
            effects@ == resize_effects(self@.tab_order, bounds),
    {
        let ghost keys = self@.tab_order;
        let mut effects: Vec<Effect> = Vec::new();
        let mut index: usize = 0;
        while index < self.tab_order.len()
            invariant
                index <= self.tab_order.len(),
                keys == id_values(self.tab_order@),
                effects@ == resize_effects(keys.take(index as int), bounds),
            decreases self.tab_order.len() - index,
        {
            effects.push(Effect::Resize { tab: self.tab_order[index], bounds });
            proof {
                assert(keys.take(index + 1) =~= keys.take(index as int).push(keys[index as int]));
                assert(effects@ =~= resize_effects(keys.take(index + 1), bounds));
            }
            index += 1;
        }
        proof {
            assert(keys.take(index as int) =~= keys);
        }
        effects
    }

    /// Points the tab `id` at a new location: the location is written to
    /// disk and the view of the tab is sent there. An identifier that is
    /// not a tab of the workspace is refused.
    pub fn navigate_tab(&mut self, id: Id<TabMarker>, location: TabLocationData) -> (result: Result<
        Vec<Effect>,
        WorkspaceError,
    >)
        requires
            old(self)@.wf(),
        ensures
            final(self)@.wf(),
            !old(self)@.tabs.dom().contains(id@) ==> result == Err::<Vec<Effect>, WorkspaceError>(
                WorkspaceError::NotFound,
            ) && final(self)@ == old(self)@,
            old(self)@.tabs.dom().contains(id@) ==> result is Ok && final(self)@ == old(
                self,
            )@.navigate_tab(id@, location@) && result->Ok_0@ == navigate_effects(id_of(id@), true),
    {
        let key = id.value();
        let ghost before = self@;
        proof {
            assert(tab_views(self.tabs@).dom() =~= self.tabs@.dom());
        }
        match self.tabs.remove(&key) {
            None => {
                proof {
                    assert(tab_views(self.tabs@) =~= before.tabs);
                }
                Err(WorkspaceError::NotFound)
            },
            Some(mut tab) => {
                let effects = tab.navigate(location);
                self.tabs.insert(key, tab);
                proof {
                    assert(tab_views(self.tabs@) =~= before.navigate_tab(key, location@).tabs);
                    assert(self@.tabs.dom() =~= before.tabs.dom());
                }
                Ok(effects)
            },
        }
    }

    /// Takes note of the title that the view of the tab `id` reports.
    /// Returns whether the workspace has such a tab; if not, nothing changes.
    pub fn on_tab_title_change(&mut self, id: Id<TabMarker>, title: String) -> (known: bool)
        requires
            old(self)@.wf(),
        ensures
            final(self)@.wf(),
            known == old(self)@.tabs.dom().contains(id@),
            final(self)@ == if known {
                old(self)@.with_tab_title(id@, title@)
            } else {
                old(self)@
            },
    {
        let key = id.value();
        let ghost before = self@;
        proof {
            assert(tab_views(self.tabs@).dom() =~= self.tabs@.dom());
        }
        match self.tabs.remove(&key) {
            None => {
                proof {
                    assert(tab_views(self.tabs@) =~= before.tabs);
                }
                false
            },
            Some(mut tab) => {
                tab.on_title_change(title);
                self.tabs.insert(key, tab);
                proof {
                    assert(tab_views(self.tabs@) =~= before.with_tab_title(key, title@).tabs);
                    assert(self@.tabs.dom() =~= before.tabs.dom());
                }
                true
            },
        }
    }

    /// Takes note of the URL at which the view of the tab `id` reports to
    /// be. Returns whether the workspace has such a tab; if not, nothing
    /// changes.
    pub fn on_tab_url_change(&mut self, id: Id<TabMarker>, url: String) -> (known: bool)
        requires
            old(self)@.wf(),
        ensures
            final(self)@.wf(),
            known == old(self)@.tabs.dom().contains(id@),
            final(self)@ == if known {
                old(self)@.navigate_tab(id@, LocationView::WebPage { url: url@ })
            } else {
                old(self)@
            },
    {
        let key = id.value();
        let ghost before = self@;
        proof {
            assert(tab_views(self.tabs@).dom() =~= self.tabs@.dom());
        }
        match self.tabs.remove(&key) {
            None => {
                proof {
                    assert(tab_views(self.tabs@) =~= before.tabs);
                }
                false
            },
            Some(mut tab) => {
                tab.on_url_change(url);
                self.tabs.insert(key, tab);
                proof {
                    assert(tab_views(self.tabs@) =~= before.navigate_tab(
                        key,
                        LocationView::WebPage { url: url@ },
                    ).tabs);
                    assert(self@.tabs.dom() =~= before.tabs.dom());
                }
                true
            },
        }
    }

    /// The descriptor under which the workspace is stored.
    pub fn to_data(&self) -> (data: WorkspaceData)
        requires
            self@.wf(),
        ensures
            data@ == self@.to_data(),
            data@.wf(),
    {
        let ghost keys = self@.tab_order;
        let mut tabs: HashMap<u128, TabData> = HashMap::new();
        let mut index: usize = 0;
        proof {
            assert(tab_views(self.tabs@).dom() =~= self.tabs@.dom());
            assert(tabs@.dom() =~= keys.take(0).to_set());
        }
        while index < self.tab_order.len()
            invariant
                index <= self.tab_order.len(),
                self@.wf(),
                keys == id_values(self.tab_order@),
                tab_views(self.tabs@).dom() == self.tabs@.dom(),
                tabs@.dom() == keys.take(index as int).to_set(),
                forall|key: u128| #[trigger]
                    tabs@.dom().contains(key) ==> tabs@[key]@ == (TabDataView {
                        id: key,
                        location: self@.tabs[key].location,
                    }),
            decreases self.tab_order.len() - index,
        {
            let id = self.tab_order[index];
            let key = id.value();
            proof {
                assert(keys[index as int] == key);
                assert(keys.to_set().contains(key));
                assert(self@.tabs.dom().contains(key));
            }
            match self.tabs.get(&key) {
                Some(tab) => {
                    tabs.insert(key, tab.to_data());
                },
                None => {
                    assert(false);
                },
            }
            proof {
                keys.take(index as int).lemma_push_to_set_commute(key);
                assert(keys.take(index + 1) =~= keys.take(index as int).push(key));
            }
            index += 1;
        }
        let data = WorkspaceData {
            id: self.id,
            name: self.name.clone(),
            icon: self.icon.clone(),
            tabs,
            tab_order: copy_ids(&self.tab_order),
            selected: self.selected,
        };
        proof {
            assert(keys.take(index as int) =~= keys);
            assert(data@.tabs =~= self@.to_data().tabs);
        }
        data
    }
}

impl WorkspaceData {
    /// The descriptor under which the workspace is stored.
    pub fn from_state(workspace: &Workspace) -> (data: WorkspaceData)
        requires
            workspace@.wf(),
        ensures
            data@ == workspace@.to_data(),
            data@.wf(),
    {
        workspace.to_data()
    }
}

impl WorkspaceMetadata {
    /// The summary of a loaded workspace.
    pub fn from_workspace(workspace: &Workspace) -> (metadata: WorkspaceMetadata)
        ensures
            metadata@ == (MetadataView {
                id: workspace@.id,
                icon: workspace@.icon,
                name: workspace@.name,
            }),
    {
        WorkspaceMetadata::new(
            workspace.id(),
            workspace.icon().clone(),
            workspace.name().to_owned(),
        )
    }
}

/// A well-formed descriptor that is loaded and stored again keeps its
/// identity, its order, its selection, its keys and the location of every
/// tab, and every tab is then stored under its own identifier. Where that
/// was so before, it is the same descriptor. The workspace in between
/// meets its invariant.
pub proof fn lemma_descriptor_round_trip(data: WorkspaceDataView, files: Seq<FileSystemItem>)
    requires
        data.wf(),
    ensures
        WorkspaceView::loaded_from(data, files).wf(),
        ({
            let again = WorkspaceView::loaded_from(data, files).to_data();
            &&& again.wf()
            &&& again.id == data.id
            &&& again.name == data.name
            &&& again.icon == data.icon
            &&& again.tab_order == data.tab_order
            &&& again.selected == data.selected
            &&& again.tabs.dom() == data.tabs.dom()
            &&& forall|key: u128| #[trigger]
                data.tabs.dom().contains(key) ==> again.tabs[key].id == key
                    && again.tabs[key].location == data.tabs[key].location
            &&& (forall|key: u128| #[trigger]
                data.tabs.dom().contains(key) ==> data.tabs[key].id == key) ==> again == data
        }),
{
    let workspace = WorkspaceView::loaded_from(data, files);
    let again = workspace.to_data();
    assert(workspace.tabs.dom() =~= data.tabs.dom());
    assert(again.tabs.dom() =~= data.tabs.dom());
    if forall|key: u128| #[trigger] data.tabs.dom().contains(key) ==> data.tabs[key].id == key {
        assert(again.tabs =~= data.tabs);
    }
}

/// One change to the tabs of a workspace.
pub enum TabStep {
    /// Open a new tab under the given identifier.
    Create { id: u128, location: LocationView, make_visible: bool },
    /// Close the tab with the given identifier.
    Close { id: u128 },
}

impl WorkspaceView {
    /// The workspace after one change. A change that the workspace refuses,
    /// because the identifier is taken or unknown, leaves it as it was.
    pub open spec fn step(self, step: TabStep) -> WorkspaceView {
        match step {
            TabStep::Create { id, location, make_visible } => if self.tabs.dom().contains(id) {
                self
            } else {
                self.create_tab(id, location, make_visible)
            },
            TabStep::Close { id } => if self.tabs.dom().contains(id) {
                self.without_tab(id)
            } else {
                self
            },
        }
    }

    /// The workspace after a sequence of changes, made one after the other.
    pub open spec fn run(self, steps: Seq<TabStep>) -> WorkspaceView
        decreases steps.len(),
    {
        if steps.len() == 0 {
            self
        } else {
            self.run(steps.drop_last()).step(steps.last())
        }
    }
}

/// Opening a tab under an identifier that is not taken keeps the invariant
/// of the workspace.
pub proof fn lemma_create_tab_keeps_wf(
    workspace: WorkspaceView,
    id: u128,
    location: LocationView,
    make_visible: bool,
)
    requires
        workspace.wf(),
        !workspace.tabs.dom().contains(id),
    ensures
        workspace.create_tab(id, location, make_visible).wf(),
{
    let after = workspace.create_tab(id, location, make_visible);
    workspace.tab_order.lemma_push_to_set_commute(id);
    assert(!workspace.tab_order.contains(id));
    assert(after.tabs.dom() =~= workspace.tabs.dom().insert(id));
    assert(after.tab_order.to_set() =~= after.tabs.dom());
}

/// Closing a tab of the workspace keeps the invariant of the workspace.
pub proof fn lemma_without_tab_keeps_wf(workspace: WorkspaceView, id: u128)
    requires
        workspace.wf(),
        workspace.tabs.dom().contains(id),
    ensures
        workspace.without_tab(id).wf(),
{
    let after = workspace.without_tab(id);
    assert(workspace.tab_order.to_set().contains(id));
    let at = choose|at: int| 0 <= at < workspace.tab_order.len() && workspace.tab_order[at] == id;
    lemma_order_without(workspace.tab_order, at);
    assert(after.tabs.dom() =~= workspace.tabs.dom().remove(id));
    assert(after.tab_order.to_set() =~= after.tabs.dom());
}

/// Whatever tabs are opened and closed, in whatever order, the keys of the
/// tab map stay the identifiers in the tab order: no tab is in the map
/// without a place in the order, and no place in the order is without a tab.
pub proof fn lemma_tab_steps_keep_order_and_map_together(
    workspace: WorkspaceView,
    steps: Seq<TabStep>,
)
    requires
        workspace.wf(),
    ensures
        workspace.run(steps).wf(),
        workspace.run(steps).tab_order.to_set() == workspace.run(steps).tabs.dom(),
        workspace.run(steps).tab_order.no_duplicates(),
    decreases steps.len(),
{
    if steps.len() > 0 {
        lemma_tab_steps_keep_order_and_map_together(workspace, steps.drop_last());
        let before = workspace.run(steps.drop_last());
        match steps.last() {
            TabStep::Create { id, location, make_visible } => {
                if !before.tabs.dom().contains(id) {
                    lemma_create_tab_keeps_wf(before, id, location, make_visible);
                }
            },
            TabStep::Close { id } => {
                if before.tabs.dom().contains(id) {
                    lemma_without_tab_keeps_wf(before, id);
                }
            },
        }
    }
}

/// Taking a workspace off the screen or putting it on it keeps its
/// invariant, its identity and its tabs' places.
pub proof fn lemma_with_hidden_keeps_wf(workspace: WorkspaceView, hidden: bool)
    requires
        workspace.wf(),
    ensures
        workspace.with_hidden(hidden).wf(),
        workspace.with_hidden(hidden).tabs.dom() == workspace.tabs.dom(),
{
    assert(workspace.with_hidden(hidden).tabs.dom() =~= workspace.tabs.dom());
}

/// After a tab of the workspace is selected, exactly one tab of the
/// workspace is visible, and it is the selected one.
pub proof fn lemma_select_shows_exactly_one(workspace: WorkspaceView, id: u128)
    requires
        workspace.wf(),
        workspace.tabs.dom().contains(id),
    ensures
        workspace.select(id).wf(),
        workspace.select(id).tabs.dom() == workspace.tabs.dom(),
        workspace.select(id).tabs[id].visible,
        forall|key: u128| #[trigger]
            workspace.select(id).tabs.dom().contains(key) ==> (workspace.select(
                id,
            ).tabs[key].visible <==> key == id),
{
    assert(workspace.select(id).tabs.dom() =~= workspace.tabs.dom());
}

} // verus!
