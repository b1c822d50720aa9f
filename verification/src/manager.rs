//! The workspace manager: the registry of the workspaces that exist, and the
//! cache of those that are loaded.

use crate::data::{
    IconView, LocationView, MetadataView, TabLocationData, WorkspaceData, WorkspaceDataView,
    WorkspaceIconData, WorkspaceListData, WorkspaceListView, WorkspaceMetadata,
};
use crate::effect::Effect;
use crate::error::WorkspaceError;
use crate::file_tree::FileSystemItem;
use crate::geometry::WebViewBounds;
use crate::id::{copy_ids, group_id, id_of, id_values, Id, TabMarker, WorkspaceMarker};
use crate::order::{
    extend_distinct, lemma_extend_distinct, lemma_extend_distinct_of_order,
    lemma_extend_distinct_same, lemma_order_with_front, lemma_order_without, position_of,
    push_distinct,
};
use crate::tab::navigate_effects;
use crate::token::UIThreadMarker;
use crate::workspace::{
    close_effects, create_effects, has_version_7_tab, lemma_with_hidden_keeps_wf, switch_effects,
    Workspace, WorkspaceView,
};
use std::collections::HashMap;
use std::collections::HashSet;
use vstd::prelude::*;

verus! {

broadcast use {vstd::std_specs::hash::group_hash_axioms, group_id};

/// The manager as a mathematical value.
pub struct ManagerView {
    /// The workspace that always exists and cannot be removed.
    pub home: u128,
    /// The known workspaces, in the order in which they are shown.
    pub order: Seq<u128>,
    /// The summary of every workspace that was found on disk or added.
    pub metadata: Map<u128, MetadataView>,
    /// The workspace that the user has chosen last.
    pub selected: u128,
    /// The workspaces that are in memory.
    pub loaded: Map<u128, WorkspaceView>,
    /// The workspaces that are being read from disk.
    pub loading: Set<u128>,
}

/// The summaries of a map, each as a mathematical value.
pub open spec fn metadata_views(metadata: Map<u128, WorkspaceMetadata>) -> Map<u128, MetadataView> {
    metadata.map_values(|summary: WorkspaceMetadata| summary@)
}

/// The workspaces of a map, each as a mathematical value.
pub open spec fn workspace_views(loaded: Map<u128, Workspace>) -> Map<u128, WorkspaceView> {
    loaded.map_values(|workspace: Workspace| workspace@)
}

/// The summaries of a list, each as a mathematical value.
pub open spec fn listing_views(listing: Seq<WorkspaceMetadata>) -> Seq<MetadataView> {
    listing.map_values(|summary: WorkspaceMetadata| summary@)
}

/// The identifiers of the summaries of a list, in the same order.
pub open spec fn listing_ids(listing: Seq<MetadataView>) -> Seq<u128> {
    listing.map_values(|summary: MetadataView| summary.id)
}

/// The summaries of a list, each under its identifier. Of two summaries
/// with one identifier the later one counts.
pub open spec fn listing_map(listing: Seq<MetadataView>) -> Map<u128, MetadataView>
    decreases listing.len(),
{
    if listing.len() == 0 {
        Map::empty()
    } else {
        listing_map(listing.drop_last()).insert(listing.last().id, listing.last())
    }
}

/// The map of a listing holds the workspaces of the listing, each summary
/// under its own identifier.
pub proof fn lemma_listing_map(listing: Seq<MetadataView>)
    ensures
        listing_map(listing).dom() == listing_ids(listing).to_set(),
        forall|key: u128| #[trigger]
            listing_map(listing).dom().contains(key) ==> listing_map(listing)[key].id == key,
    decreases listing.len(),
{
    let ids = listing_ids(listing);
    if listing.len() > 0 {
        let shorter = listing.drop_last();
        lemma_listing_map(shorter);
        assert(listing_ids(shorter) =~= ids.drop_last());
        assert(ids =~= ids.drop_last().push(listing.last().id));
        ids.drop_last().lemma_push_to_set_commute(listing.last().id);
        assert(listing_map(listing).dom() =~= ids.to_set());
    } else {
        assert(ids.to_set() =~= Set::empty());
        assert(listing_map(listing).dom() =~= ids.to_set());
    }
}

/// Where no workspace is found twice, the map of the listing holds each
/// summary of the listing under its identifier.
pub proof fn lemma_listing_map_of_distinct(listing: Seq<MetadataView>)
    requires
        listing_ids(listing).no_duplicates(),
    ensures
        forall|at: int|
            0 <= at < listing.len() ==> listing_map(listing)[#[trigger] listing[at].id]
                == listing[at],
    decreases listing.len(),
{
    let ids = listing_ids(listing);
    if listing.len() > 0 {
        let shorter = listing.drop_last();
        assert(listing_ids(shorter) =~= ids.drop_last());
        lemma_listing_map_of_distinct(shorter);
        assert forall|at: int| 0 <= at < listing.len() implies listing_map(
            listing,
        )[#[trigger] listing[at].id] == listing[at] by {
            if at < listing.len() - 1 {
                assert(shorter[at] == listing[at]);
                assert(ids[at] != ids[ids.len() - 1]);
            }
        }
    }
}

/// The summary that the home workspace is created with.
pub open spec fn home_metadata(home: u128) -> MetadataView {
    MetadataView { id: home, icon: IconView::Home, name: "Home"@ }
}

/// The home workspace as it is created: on screen, with no tabs and
/// nothing selected.
pub open spec fn home_workspace(home: u128) -> WorkspaceView {
    WorkspaceView {
        id: home,
        name: "Home"@,
        icon: IconView::Home,
        tabs: Map::empty(),
        tab_order: Seq::empty(),
        selected: None,
        files: Seq::empty(),
        shown: true,
    }
}

/// The summary of a workspace.
pub open spec fn metadata_of(workspace: WorkspaceView) -> MetadataView {
    MetadataView { id: workspace.id, icon: workspace.icon, name: workspace.name }
}

/// The order of a list, set right: the home workspace is put first where
/// the order does not name it, a workspace that the order names again is
/// named once, at its first place, and the workspaces found on disk that
/// the order does not name are put behind it. An order that names the home
/// workspace, no workspace twice and every workspace found stays as it is.
pub open spec fn repaired_order(order: Seq<u128>, home: u128, found: Seq<u128>) -> Seq<u128> {
    let start = if order.contains(home) {
        Seq::empty()
    } else {
        seq![home]
    };
    extend_distinct(extend_distinct(start, order), found)
}

/// The order set right has no repetition and names the home workspace and
/// every workspace found, and nothing but these and what the order named.
pub proof fn lemma_repaired_order(order: Seq<u128>, home: u128, found: Seq<u128>)
    ensures
        repaired_order(order, home, found).no_duplicates(),
        repaired_order(order, home, found).contains(home),
        found.to_set().subset_of(repaired_order(order, home, found).to_set()),
        order.to_set().subset_of(repaired_order(order, home, found).to_set()),
        order.no_duplicates() && order.contains(home) && found.to_set().subset_of(order.to_set())
            ==> repaired_order(order, home, found) == order,
{
    let start = if order.contains(home) {
        Seq::<u128>::empty()
    } else {
        seq![home]
    };
    let named = extend_distinct(start, order);
    lemma_extend_distinct(start, order);
    lemma_extend_distinct(named, found);
    if order.contains(home) {
        assert(order.to_set().contains(home));
    } else {
        assert(start[0] == home);
        assert(start.to_set().contains(home));
    }
    assert(repaired_order(order, home, found).to_set().contains(home));
    if order.no_duplicates() && order.contains(home) && found.to_set().subset_of(order.to_set()) {
        lemma_extend_distinct_of_order(order);
        lemma_extend_distinct_same(order, found);
    }
}

/// The workspaces in memory after `id` was put on screen: the workspace
/// `id`, if it is in memory, shows its selected tab, and every other
/// workspace hides all of its tabs.
pub open spec fn switched(loaded: Map<u128, WorkspaceView>, id: u128) -> Map<u128, WorkspaceView> {
    Map::new(
        |key: u128| loaded.dom().contains(key),
        |key: u128| loaded[key].with_hidden(key != id),
    )
}

/// What putting `id` on screen asks of the host for the workspaces in
/// `order`: for each one that is in memory, in order, a call for each of
/// its tabs.
pub open spec fn switched_effects(
    loaded: Map<u128, WorkspaceView>,
    order: Seq<u128>,
    id: u128,
) -> Seq<Effect>
    decreases order.len(),
{
    if order.len() == 0 {
        Seq::empty()
    } else {
        let last = order.last();
        let rest = switched_effects(loaded, order.drop_last(), id);
        if loaded.dom().contains(last) {
            rest + switch_effects(
                loaded[last].tab_order,
                loaded[last].with_hidden(last != id).visible_tab(),
            )
        } else {
            rest
        }
    }
}

/// Putting a workspace on screen asks the host for nothing but to hide
/// and to show views.
pub proof fn lemma_switched_effects_only_hide_and_show(
    loaded: Map<u128, WorkspaceView>,
    order: Seq<u128>,
    id: u128,
)
    ensures
        forall|at: int|
            0 <= at < switched_effects(loaded, order, id).len() ==> #[trigger] switched_effects(
                loaded,
                order,
                id,
            )[at] is SetHidden,
    decreases order.len(),
{
    if order.len() > 0 {
        lemma_switched_effects_only_hide_and_show(loaded, order.drop_last(), id);
    }
}

impl ManagerView {
    /// The invariant of the manager: the order names no workspace twice;
    /// it names the home workspace and every workspace that has a summary;
    /// every summary is kept under its own identifier; only workspaces
    /// with a summary are in memory, and none of them is being read; every
    /// workspace in memory is kept under its own identifier, meets its own
    /// invariant, and has the name and icon that its summary shows.
    ///
    /// The order may name a workspace without a summary, one whose
    /// directory is gone, and the selected workspace may be one that the
    /// order does not name, where the user chose a workspace that is not
    /// known. Opening either ends in a failed load.
    pub open spec fn wf(self) -> bool {
        &&& self.order.no_duplicates()
        &&& self.metadata.dom().subset_of(self.order.to_set())
        &&& forall|key: u128| #[trigger]
            self.metadata.dom().contains(key) ==> self.metadata[key].id == key
        &&& self.order.contains(self.home)
        &&& self.loaded.dom().subset_of(self.metadata.dom())
        &&& self.loading.disjoint(self.loaded.dom())
        &&& forall|key: u128| #[trigger]
            self.loaded.dom().contains(key) ==> self.loaded[key].id == key
                && self.loaded[key].wf() && self.metadata[key] == metadata_of(self.loaded[key])
    }

    /// The manager at the start of the process. It has the home and the
    /// selection of the list, the order of the list set right, and the
    /// summary of every workspace found on disk. For a list that was read
    /// back nothing is in memory. For a list that was just created the home
    /// workspace is new and in memory.
    pub open spec fn initial(
        data: WorkspaceListView,
        created: bool,
        listing: Seq<MetadataView>,
    ) -> ManagerView {
        ManagerView {
            home: data.home,
            order: repaired_order(data.order, data.home, listing_ids(listing)),
            metadata: if created {
                listing_map(listing).insert(data.home, home_metadata(data.home))
            } else {
                listing_map(listing)
            },
            selected: data.selected,
            loaded: if created {
                Map::empty().insert(data.home, home_workspace(data.home))
            } else {
                Map::empty()
            },
            loading: Set::empty(),
        }
    }

    /// Whether opening `id` has to start a load: the workspace is not in
    /// memory, and nobody is reading it already.
    pub open spec fn must_load(self, id: u128) -> bool {
        &&& !self.loaded.dom().contains(id)
        &&& !self.loading.contains(id)
    }

    /// The manager after `id` was opened: `id` is the selected workspace,
    /// whatever it is; of the workspaces in memory it alone is on screen;
    /// and it is marked as being read where a load has to start.
    pub open spec fn open(self, id: u128) -> ManagerView {
        ManagerView {
            selected: id,
            loaded: switched(self.loaded, id),
            loading: if self.must_load(id) {
                self.loading.insert(id)
            } else {
                self.loading
            },
            ..self
        }
    }

    /// What opening `id` asks of the host: to hide and show the views of
    /// the workspaces in memory, and then one load where a load has to
    /// start.
    pub open spec fn open_effects(self, id: u128) -> Seq<Effect> {
        let load = if self.must_load(id) {
            seq![Effect::LoadWorkspace { workspace: id_of(id) }]
        } else {
            Seq::empty()
        };
        switched_effects(self.loaded, self.order, id) + load
    }

    /// The manager after a workspace that the order did not name was
    /// added: the workspace goes to the front of the order and into memory.
    pub open spec fn with_workspace(self, workspace: WorkspaceView) -> ManagerView {
        ManagerView {
            order: self.order.insert(0, workspace.id),
            metadata: self.metadata.insert(workspace.id, metadata_of(workspace)),
            loaded: self.loaded.insert(workspace.id, workspace),
            loading: self.loading.remove(workspace.id),
            ..self
        }
    }

    /// The manager after a workspace of the order other than the home
    /// workspace was removed. If it was the selected workspace, the home
    /// workspace is selected afterwards.
    pub open spec fn without(self, id: u128) -> ManagerView {
        ManagerView {
            home: self.home,
            order: self.order.remove(self.order.index_of(id)),
            metadata: self.metadata.remove(id),
            selected: if self.selected == id {
                self.home
            } else {
                self.selected
            },
            loaded: self.loaded.remove(id),
            loading: self.loading.remove(id),
        }
    }

    /// The manager with the loaded workspace `id` replaced by `workspace`.
    pub open spec fn with_loaded(self, id: u128, workspace: WorkspaceView) -> ManagerView {
        ManagerView { loaded: self.loaded.insert(id, workspace), ..self }
    }

    /// The manager after the load of `id` ended without a workspace.
    pub open spec fn load_failed(self, id: u128) -> ManagerView {
        ManagerView { loading: self.loading.remove(id), ..self }
    }

    /// The workspace that the load of `id` gives for a descriptor and a
    /// file tree: it goes by the identifier that was asked for, whatever
    /// the descriptor holds, and it is on screen where `id` is the selected
    /// workspace.
    pub open spec fn loaded_workspace(
        self,
        id: u128,
        data: WorkspaceDataView,
        files: Seq<FileSystemItem>,
    ) -> WorkspaceView {
        WorkspaceView::loaded_from(WorkspaceDataView { id, ..data }, files).with_hidden(
            id != self.selected,
        )
    }

    /// The manager after the load of `id` ended with `workspace`: the
    /// workspace is in memory, its summary is the one just read, and the
    /// order names it, at its end where it did not before.
    pub open spec fn load_done(self, id: u128, workspace: WorkspaceView) -> ManagerView {
        ManagerView {
            order: if self.order.contains(id) {
                self.order
            } else {
                self.order.push(id)
            },
            loading: self.loading.remove(id),
            loaded: self.loaded.insert(id, workspace),
            metadata: self.metadata.insert(id, metadata_of(workspace)),
            ..self
        }
    }

    /// What a finished load asks of the host: a view for every tab, the
    /// calls that show the selected tab, and, where the workspace is not
    /// the selected one, the calls that hide every tab again.
    pub open spec fn load_effects(
        self,
        id: u128,
        data: WorkspaceDataView,
        bounds: WebViewBounds,
    ) -> Seq<Effect> {
        let hide = if id != self.selected {
            switch_effects(data.tab_order, None)
        } else {
            Seq::empty()
        };
        create_effects(data.tab_order, bounds) + switch_effects(data.tab_order, data.selected)
            + hide
    }

    /// The manager after the loaded workspace `id` was given a new name, in
    /// the workspace and in its summary.
    pub open spec fn rename(self, id: u128, name: Seq<char>) -> ManagerView {
        ManagerView {
            metadata: self.metadata.insert(id, MetadataView { name, ..self.metadata[id] }),
            loaded: self.loaded.insert(id, WorkspaceView { name, ..self.loaded[id] }),
            ..self
        }
    }

    /// What a resize asks of the host for the workspaces in `order`: for
    /// each one that is in memory, in order, a call for each of its tabs.
    pub open spec fn resize_effects(self, order: Seq<u128>, bounds: WebViewBounds) -> Seq<Effect>
        decreases order.len(),
    {
        if order.len() == 0 {
            Seq::empty()
        } else {
            let last = order.last();
            let rest = self.resize_effects(order.drop_last(), bounds);
            if self.loaded.dom().contains(last) {
                rest + crate::workspace::resize_effects(self.loaded[last].tab_order, bounds)
            } else {
                rest
            }
        }
    }

    /// Whether `workspace` is in memory and has the tab `tab`.
    pub open spec fn has_tab(self, workspace: u128, tab: u128) -> bool {
        self.loaded.dom().contains(workspace) && self.loaded[workspace].tabs.dom().contains(tab)
    }

    /// What a request to remove `id` comes to: the manager afterwards, and
    /// the reason where the request is refused.
    pub open spec fn remove(self, id: u128) -> (ManagerView, Option<WorkspaceError>) {
        if id == self.home {
            (self, Some(WorkspaceError::CannotRemoveHome))
        } else if !self.order.contains(id) {
            (self, Some(WorkspaceError::NotFound))
        } else {
            (self.without(id), None)
        }
    }

    /// What destroying the workspace `id` asks of the host: to close the
    /// view of every tab, if the workspace is in memory, and then to remove
    /// its directory from the disk.
    pub open spec fn destroy_effects(self, id: u128) -> Seq<Effect> {
        let close = if self.loaded.dom().contains(id) {
            close_effects(self.loaded[id].tab_order)
        } else {
            Seq::empty()
        };
        close + seq![Effect::DeleteWorkspace { workspace: id_of(id) }]
    }

    /// The list under which the manager is stored.
    pub open spec fn to_data(self) -> WorkspaceListView {
        WorkspaceListView { home: self.home, order: self.order, selected: self.selected }
    }
}

/// The manager at the start of the process meets its invariant, whatever
/// the list and the listing are.
pub proof fn lemma_initial_wf(data: WorkspaceListView, created: bool, listing: Seq<MetadataView>)
    ensures
        ManagerView::initial(data, created, listing).wf(),
{
    let manager = ManagerView::initial(data, created, listing);
    let home = home_workspace(data.home);
    lemma_repaired_order(data.order, data.home, listing_ids(listing));
    lemma_listing_map(listing);
    assert(manager.order.to_set().contains(data.home));
    assert(manager.loading.disjoint(manager.loaded.dom()));
    assert(home.tab_order.to_set() =~= home.tabs.dom());
    assert(home.wf());
    if created {
        assert(manager.metadata.dom() =~= listing_map(listing).dom().insert(data.home));
        assert(manager.loaded.dom() =~= Set::empty().insert(data.home));
    } else {
        assert(manager.loaded.dom() =~= Set::empty());
    }
}

/// Putting a workspace on screen keeps the invariant of the manager.
pub proof fn lemma_switched_keeps_wf(manager: ManagerView, id: u128)
    requires
        manager.wf(),
    ensures
        (ManagerView { loaded: switched(manager.loaded, id), ..manager }).wf(),
        switched(manager.loaded, id).dom() == manager.loaded.dom(),
{
    let after = switched(manager.loaded, id);
    assert(after.dom() =~= manager.loaded.dom());
    assert forall|key: u128| #[trigger] after.dom().contains(key) implies after[key].id == key
        && after[key].wf() && manager.metadata[key] == metadata_of(after[key]) by {
        lemma_with_hidden_keeps_wf(manager.loaded[key], key != id);
    }
}

/// The workspace manager. It is made once per process from what is on disk,
/// answers questions about every known workspace without loading any, and
/// loads a workspace when it is first opened.
pub struct WorkspaceManager {
    home: Id<WorkspaceMarker>,
    order: Vec<Id<WorkspaceMarker>>,
    workspaces: HashMap<u128, WorkspaceMetadata>,
    loaded: HashMap<u128, Workspace>,
    loading: HashSet<u128>,
    selected: Id<WorkspaceMarker>,
}

impl View for WorkspaceManager {
    type V = ManagerView;

    closed spec fn view(&self) -> ManagerView {
        ManagerView {
            home: self.home@,
            order: id_values(self.order@),
            metadata: metadata_views(self.workspaces@),
            selected: self.selected@,
            loaded: workspace_views(self.loaded@),
            loading: self.loading@,
        }
    }
}

/// Puts the summaries of a listing into a map, each under its identifier.
fn index_listing(listing: &Vec<WorkspaceMetadata>) -> (map: HashMap<u128, WorkspaceMetadata>)
    ensures
        metadata_views(map@) == listing_map(listing_views(listing@)),
{
    let ghost views = listing_views(listing@);
    let mut map: HashMap<u128, WorkspaceMetadata> = HashMap::new();
    let mut index: usize = 0;
    proof {
        assert(views.take(0) =~= Seq::empty());
        assert(metadata_views(map@) =~= listing_map(views.take(0)));
    }
    while index < listing.len()
        invariant
            index <= listing.len(),
            views == listing_views(listing@),
            metadata_views(map@) == listing_map(views.take(index as int)),
        decreases listing.len() - index,
    {
        let summary = listing[index].clone();
        let key = summary.id().value();
        let ghost before = metadata_views(map@);
        proof {
            assert(views[index as int] == summary@);
            assert(views.take(index + 1).drop_last() =~= views.take(index as int));
            assert(views.take(index + 1).last() == summary@);
        }
        map.insert(key, summary);
        proof {
            assert(metadata_views(map@) =~= before.insert(key, summary@));
        }
        index += 1;
    }
    proof {
        assert(views.take(index as int) =~= views);
    }
    map
}

/// The identifiers of the summaries of a listing, in the same order.
fn found_ids(listing: &Vec<WorkspaceMetadata>) -> (ids: Vec<Id<WorkspaceMarker>>)
    ensures
        id_values(ids@) == listing_ids(listing_views(listing@)),
{
    let ghost target = listing_ids(listing_views(listing@));
    let mut ids: Vec<Id<WorkspaceMarker>> = Vec::new();
    let mut index: usize = 0;
    while index < listing.len()
        invariant
            index <= listing.len(),
            target == listing_ids(listing_views(listing@)),
            id_values(ids@) == target.take(index as int),
        decreases listing.len() - index,
    {
        let ghost before = id_values(ids@);
        let id = listing[index].id();
        ids.push(id);
        proof {
            assert(target[index as int] == id@);
            assert(id_values(ids@) =~= before.push(id@));
            assert(target.take(index + 1) =~= target.take(index as int).push(id@));
        }
        index += 1;
    }
    proof {
        assert(target.take(index as int) =~= target);
    }
    ids
}

/// Puts the workspace `id` on screen and takes every other workspace in
/// memory off it, visiting each workspace once, in order.
fn switch_workspaces(
    loaded: &mut HashMap<u128, Workspace>,
    order: &Vec<Id<WorkspaceMarker>>,
    token: UIThreadMarker,
    id: Id<WorkspaceMarker>,
) -> (effects: Vec<Effect>)
    requires
        id_values(order@).no_duplicates(),
        old(loaded)@.dom().subset_of(id_values(order@).to_set()),
        forall|key: u128| #[trigger] old(loaded)@.dom().contains(key) ==> old(loaded)@[key]@.wf(),
    ensures
        workspace_views(final(loaded)@) == switched(workspace_views(old(loaded)@), id@),
        effects@ == switched_effects(workspace_views(old(loaded)@), id_values(order@), id@),
{
    let ghost before = workspace_views(loaded@);
    let ghost keys = id_values(order@);
    let mut effects: Vec<Effect> = Vec::new();
    let mut index: usize = 0;
    proof {
        assert(before.dom() =~= loaded@.dom());
        assert(keys.take(0) =~= Seq::empty());
    }
    while index < order.len()
        invariant
            index <= order.len(),
            keys == id_values(order@),
            keys.no_duplicates(),
            before == workspace_views(old(loaded)@),
            before.dom().subset_of(keys.to_set()),
            forall|key: u128| #[trigger] before.dom().contains(key) ==> before[key].wf(),
            loaded@.dom() == before.dom(),
            forall|done: int|
                0 <= done < index && before.dom().contains(keys[done]) ==> (
                #[trigger] loaded@[keys[done]])@ == before[keys[done]].with_hidden(keys[done] != id@),
            forall|left: int|
                index <= left < keys.len() && before.dom().contains(keys[left]) ==> (
                #[trigger] loaded@[keys[left]])@ == before[keys[left]],
            effects@ == switched_effects(before, keys.take(index as int), id@),
        decreases order.len() - index,
    {
        let current = order[index];
        let key = current.value();
        let ghost previous = loaded@;
        proof {
            assert(keys[index as int] == key);
            assert(keys.take(index + 1).drop_last() =~= keys.take(index as int));
            assert(keys.take(index + 1).last() == key);
        }
        match loaded.remove(&key) {
            Some(mut workspace) => {
                let mut part = workspace.set_hidden(token, !current.same(&id));
                effects.append(&mut part);
                loaded.insert(key, workspace);
                proof {
                    assert(loaded@.dom() =~= before.dom());
                }
            },
            None => {
                proof {
                    assert(loaded@ =~= previous);
                }
            },
        }
        proof {
            assert forall|done: int|
                0 <= done < index + 1 && before.dom().contains(keys[done]) implies (
            #[trigger] loaded@[keys[done]])@ == before[keys[done]].with_hidden(
                keys[done] != id@,
            ) by {
                if done < index {
                    assert(keys[done] != key);
                    assert(loaded@[keys[done]] == previous[keys[done]]);
                }
            }
            assert forall|left: int|
                index + 1 <= left < keys.len() && before.dom().contains(keys[left]) implies (
            #[trigger] loaded@[keys[left]])@ == before[keys[left]] by {
                assert(keys[left] != key);
                assert(loaded@[keys[left]] == previous[keys[left]]);
            }
        }
        index += 1;
    }
    proof {
        assert(keys.take(index as int) =~= keys);
        assert(workspace_views(loaded@) =~= switched(before, id@)) by {
            assert forall|key: u128| before.dom().contains(key) implies workspace_views(
                loaded@,
            )[key] == switched(before, id@)[key] by {
                assert(keys.to_set().contains(key));
                let at = choose|at: int| 0 <= at < keys.len() && keys[at] == key;
                assert((loaded@[keys[at]])@ == before[keys[at]].with_hidden(keys[at] != id@));
            }
        }
    }
    effects
}

impl WorkspaceManager {
    /// Makes the manager from what came of reading the workspace list and
    /// of listing the workspaces on disk. Where either failed there is no
    /// workspace list to go on with, and that is fatal. Otherwise the
    /// manager is made, whatever the list and the listing hold.
    ///
    /// The manager has the home and the selection of the list, and the
    /// summary of every workspace of the listing. Its order is the order
    /// of the list, set right so that the invariant holds: the home
    /// workspace is put first where the order does not name it; a workspace
    /// that the order names again is named once; and a workspace found on
    /// disk that the order does not name is put at the end. An order that
    /// needs none of this stays as it was read. A workspace of the order
    /// that is not on disk stays in the order, and fails when it is opened.
    ///
    /// For a list that was read back nothing is loaded. For a list that
    /// was just created the home workspace is made, empty and in memory,
    /// and the host is asked to create it on disk.
    pub fn initialize(
        registry: Result<(WorkspaceListData, bool), WorkspaceError>,
        listing: Result<Vec<WorkspaceMetadata>, WorkspaceError>,
    ) -> (result: Result<(WorkspaceManager, Vec<Effect>), WorkspaceError>)
        ensures
            registry is Err || listing is Err ==> result is Err && result->Err_0
                == WorkspaceError::Fatal,
            registry is Ok && listing is Ok ==> result is Ok && ({
                let (data, created) = registry->Ok_0;
                let (manager, effects) = result->Ok_0;
                &&& manager@ == ManagerView::initial(data@, created, listing_views(listing->Ok_0@))
                &&& manager@.wf()
                &&& effects@ == if created {
                    seq![Effect::CreateWorkspace { workspace: id_of(data@.home) }]
                } else {
                    Seq::empty()
                }
            }),
    {
        let (data, created) = match registry {
            Ok(read) => read,
            Err(_) => {
                return Err(WorkspaceError::Fatal);
            },
        };
        let listing = match listing {
            Ok(listing) => listing,
            Err(_) => {
                return Err(WorkspaceError::Fatal);
            },
        };
        let ghost views = listing_views(listing@);
        let ghost after = ManagerView::initial(data@, created, views);
        let home = data.home;
        let key = home.value();
        let mut order: Vec<Id<WorkspaceMarker>> = Vec::new();
        let mut seen: HashSet<u128> = HashSet::new();
        if position_of(&data.order, home).is_none() {
            order.push(home);
            seen.insert(key);
            proof {
                assert(id_values(order@) =~= seq![key]);
                Seq::<u128>::empty().lemma_push_to_set_commute(key);
                assert(seq![key] =~= Seq::<u128>::empty().push(key));
                assert(Seq::<u128>::empty().to_set() =~= Set::empty());
            }
        } else {
            proof {
                assert(id_values(order@) =~= Seq::empty());
                assert(id_values(order@).to_set() =~= Set::empty());
            }
        }
        push_distinct(&mut order, &mut seen, &data.order);
        let found = found_ids(&listing);
        push_distinct(&mut order, &mut seen, &found);
        let mut workspaces = index_listing(&listing);
        let mut loaded: HashMap<u128, Workspace> = HashMap::new();
        let mut effects: Vec<Effect> = Vec::new();
        if created {
            let workspace = Workspace::new(home, "Home".to_owned(), WorkspaceIconData::Home);
            let summary = WorkspaceMetadata::new(home, WorkspaceIconData::Home, "Home".to_owned());
            workspaces.insert(key, summary);
            loaded.insert(key, workspace);
            effects.push(Effect::CreateWorkspace { workspace: home });
        }
        let manager = WorkspaceManager {
            home,
            order,
            workspaces,
            loaded,
            loading: HashSet::new(),
            selected: data.selected,
        };
        proof {
            assert(manager@.metadata =~= after.metadata);
            assert(manager@.loaded =~= after.loaded);
            assert(manager@.loading =~= after.loading);
            assert(manager@.order == after.order);
            lemma_initial_wf(data@, created, views);
            if created {
                assert(effects@ =~= seq![Effect::CreateWorkspace { workspace: id_of(data@.home) }]);
            }
        }
        Ok((manager, effects))
    }

    /// The workspaces of the list, in the order in which they are shown.
    pub fn order(&self) -> (order: &Vec<Id<WorkspaceMarker>>)
        ensures
            id_values(order@) == self@.order,
    {
        &self.order
    }

    /// The summary of every workspace that was found on disk or added, by
    /// the value of its identifier.
    pub fn list_metadata(&self) -> (metadata: &HashMap<u128, WorkspaceMetadata>)
        ensures
            metadata_views(metadata@) == self@.metadata,
    {
        &self.workspaces
    }

    pub fn home(&self) -> (home: Id<WorkspaceMarker>)
        ensures
            home@ == self@.home,
    {
        self.home
    }

    pub fn selected(&self) -> (selected: Id<WorkspaceMarker>)
        ensures
            selected@ == self@.selected,
    {
        self.selected
    }

    /// The loaded workspace with the given identifier, if it is in memory.
    pub fn get(&self, id: Id<WorkspaceMarker>) -> (workspace: Option<&Workspace>)
        ensures
            workspace is Some == self@.loaded.dom().contains(id@),
            workspace is Some ==> workspace->0@ == self@.loaded[id@],
    {
        self.loaded.get(&id.value())
    }

    /// The selected workspace, if it is in memory.
    pub fn current(&self) -> (workspace: Option<&Workspace>)
        ensures
            workspace is Some == self@.loaded.dom().contains(self@.selected),
            workspace is Some ==> workspace->0@ == self@.loaded[self@.selected],
    {
        self.loaded.get(&self.selected.value())
    }

    pub fn is_loaded(&self, id: Id<WorkspaceMarker>) -> (loaded: bool)
        ensures
            loaded == self@.loaded.dom().contains(id@),
    {
        proof {
            assert(workspace_views(self.loaded@).dom() =~= self.loaded@.dom());
        }
        self.loaded.contains_key(&id.value())
    }

    /// Whether the workspace is being read from disk.
    pub fn is_loading(&self, id: Id<WorkspaceMarker>) -> (loading: bool)
        ensures
            loading == self@.loading.contains(id@),
    {
        self.loading.contains(&id.value())
    }

    /// The list under which the manager is stored.
    pub fn to_data(&self) -> (data: WorkspaceListData)
        ensures
            data@ == self@.to_data(),
    {
        WorkspaceListData { home: self.home, order: copy_ids(&self.order), selected: self.selected }
    }

    /// Takes the workspace kept under `key` out of the memory.
    fn take(&mut self, key: u128) -> (workspace: Option<Workspace>)
        requires
            old(self)@.wf(),
        ensures
            final(self)@.wf(),
            final(self)@ == (ManagerView { loaded: old(self)@.loaded.remove(key), ..old(self)@ }),
            workspace is Some == old(self)@.loaded.dom().contains(key),
            workspace is Some ==> workspace->0@ == old(self)@.loaded[key],
    {
        proof {
            assert(workspace_views(self.loaded@).dom() =~= self.loaded@.dom());
        }
        let workspace = self.loaded.remove(&key);
        proof {
            assert(workspace_views(self.loaded@) =~= old(self)@.loaded.remove(key));
        }
        workspace
    }

    /// Puts a workspace into the memory, under `key`.
    fn put(&mut self, key: u128, workspace: Workspace)
        requires
            old(self)@.wf(),
            workspace@.wf(),
            workspace@.id == key,
            old(self)@.metadata.dom().contains(key),
            old(self)@.metadata[key] == metadata_of(workspace@),
            !old(self)@.loading.contains(key),
        ensures
            final(self)@.wf(),
            final(self)@ == old(self)@.with_loaded(key, workspace@),
    {
        self.loaded.insert(key, workspace);
        proof {
            assert(workspace_views(self.loaded@) =~= old(self)@.loaded.insert(key, workspace@));
            assert(self@.loaded.dom() =~= old(self)@.loaded.dom().insert(key));
        }
    }

    /// Opens the workspace `id`: it becomes the selected workspace,
    /// whatever it is and whatever comes of its load. Of the workspaces in
    /// memory it alone is put on screen, and shows its selected tab; every
    /// other one is taken off the screen. If the workspace is neither in
    /// memory nor being read, it is marked as being read and the host is
    /// asked to load it; a second call before that load has ended asks for
    /// no load. A workspace that cannot be loaded comes back as a failure of
    /// `finish_load`.
    pub fn open(&mut self, token: UIThreadMarker, id: Id<WorkspaceMarker>) -> (effects: Vec<Effect>)
        requires
            old(self)@.wf(),
        ensures
            final(self)@.wf(),
            final(self)@ == old(self)@.open(id@),
            final(self)@.selected == id@,
            effects@ == old(self)@.open_effects(id@),
    {
        let key = id.value();
        let ghost before = self@;
        proof {
            assert(workspace_views(self.loaded@).dom() =~= self.loaded@.dom());
        }
        self.selected = id;
        let mut effects = switch_workspaces(&mut self.loaded, &self.order, token, id);
        proof {
            assert(self@.loaded.dom() =~= before.loaded.dom());
            assert(workspace_views(self.loaded@).dom() =~= self.loaded@.dom());
        }
        if !self.loaded.contains_key(&key) && !self.loading.contains(&key) {
            self.loading.insert(key);
            effects.push(Effect::LoadWorkspace { workspace: id });
        }
        proof {
            assert(effects@ =~= before.open_effects(id@));
            assert(self@.loading =~= before.open(id@).loading);
            lemma_switched_keeps_wf(before, id@);
        }
        effects
    }

    /// Adds a workspace that the order does not name yet: it goes to the
    /// front of the order, its summary is kept, and it is in memory. A
    /// workspace whose identifier the order names already is refused.
    pub fn add(&mut self, workspace: Workspace) -> (result: Result<(), WorkspaceError>)
        requires
            old(self)@.wf(),
            workspace@.wf(),
        ensures
            final(self)@.wf(),
            old(self)@.order.contains(workspace@.id) ==> result == Err::<(), WorkspaceError>(
                WorkspaceError::AlreadyExists,
            ) && final(self)@ == old(self)@,
            !old(self)@.order.contains(workspace@.id) ==> result == Ok::<(), WorkspaceError>(())
                && final(self)@ == old(self)@.with_workspace(workspace@),
    {
        let id = workspace.id();
        let key = id.value();
        let ghost before = self@;
        proof {
            assert(metadata_views(self.workspaces@).dom() =~= self.workspaces@.dom());
            assert(workspace_views(self.loaded@).dom() =~= self.loaded@.dom());
        }
        if position_of(&self.order, id).is_some() {
            return Err(WorkspaceError::AlreadyExists);
        }
        let summary = WorkspaceMetadata::from_workspace(&workspace);
        self.order.insert(0, id);
        self.workspaces.insert(key, summary);
        self.loaded.insert(key, workspace);
        self.loading.remove(&key);
        proof {
            let after = before.with_workspace(workspace@);
            assert(!before.order.contains(key));
            lemma_order_with_front(before.order, key);
            assert(self@.order =~= after.order);
            assert(self@.metadata =~= after.metadata);
            assert(self@.loaded =~= after.loaded);
            assert(self@.loading =~= after.loading);
            assert(after.metadata.dom() =~= before.metadata.dom().insert(key));
            assert(after.loaded.dom() =~= before.loaded.dom().insert(key));
            assert(after.order.to_set() == before.order.to_set().insert(key));
            assert(before.order.to_set().contains(before.home));
            assert(after.order.to_set().contains(after.home));
        }
        Ok(())
    }

    /// Removes the workspace `id` from the order, the summaries and the
    /// memory, and hands back the workspace if it was in memory, so that the
    /// caller can destroy it. What is on disk stays. If the workspace was
    /// the selected one, the home workspace is selected afterwards. The
    /// home workspace is never removed, and a workspace that the order does
    /// not name is refused.
    pub fn remove(&mut self, id: Id<WorkspaceMarker>) -> (result: Result<
        Option<Workspace>,
        WorkspaceError,
    >)
        requires
            old(self)@.wf(),
        ensures
            final(self)@.wf(),
            final(self)@ == old(self)@.remove(id@).0,
            match result {
                Ok(workspace) => {
                    &&& old(self)@.remove(id@).1 is None
                    &&& workspace is Some == old(self)@.loaded.dom().contains(id@)
                    &&& workspace is Some ==> workspace->0@ == old(self)@.loaded[id@]
                },
                Err(error) => old(self)@.remove(id@).1 == Some(error),
            },
    {
        let key = id.value();
        let ghost before = self@;
        proof {
            assert(metadata_views(self.workspaces@).dom() =~= self.workspaces@.dom());
            assert(workspace_views(self.loaded@).dom() =~= self.loaded@.dom());
        }
        if self.home.same(&id) {
            return Err(WorkspaceError::CannotRemoveHome);
        }
        let position = match position_of(&self.order, id) {
            Some(position) => position,
            None => {
                return Err(WorkspaceError::NotFound);
            },
        };
        proof {
            lemma_order_without(before.order, position as int);
        }
        self.order.remove(position);
        self.workspaces.remove(&key);
        let workspace = self.loaded.remove(&key);
        self.loading.remove(&key);
        if self.selected.same(&id) {
            self.selected = self.home;
        }
        proof {
            let after = before.without(key);
            assert(self@.order =~= after.order);
            assert(self@.metadata =~= after.metadata);
            assert(self@.loaded =~= after.loaded);
            assert(self@.loading =~= after.loading);
            assert(after.metadata.dom() =~= before.metadata.dom().remove(key));
            assert(after.loaded.dom() =~= before.loaded.dom().remove(key));
            assert(after.order.to_set() == before.order.to_set().remove(key));
            assert(before.order.to_set().contains(before.home));
            assert(after.order.to_set().contains(after.home));
        }
        Ok(workspace)
    }

    /// Removes the workspace `id` as `remove` does, and destroys it: the
    /// host is asked to close the view of every tab, if the workspace was
    /// in memory, and then to remove its directory from the disk.
    pub fn destroy(&mut self, token: UIThreadMarker, id: Id<WorkspaceMarker>) -> (result: Result<
        Vec<Effect>,
        WorkspaceError,
    >)
        requires
            old(self)@.wf(),
        ensures
            final(self)@.wf(),
            final(self)@ == old(self)@.remove(id@).0,
            match result {
                Ok(effects) => old(self)@.remove(id@).1 is None && effects@ == old(
                    self,
                )@.destroy_effects(id@),
                Err(error) => old(self)@.remove(id@).1 == Some(error),
            },
    {
        match self.remove(id) {
            Err(error) => Err(error),
            Ok(Some(workspace)) => Ok(workspace.destroy(token)),
            Ok(None) => {
                let mut effects: Vec<Effect> = Vec::new();
                effects.push(Effect::DeleteWorkspace { workspace: id });
                proof {
                    assert(effects@ =~= old(self)@.destroy_effects(id@));
                }
                Ok(effects)
            },
        }
    }

    /// Takes in what came of the load of `id` that `open` asked for.
    ///
    /// If the workspace is not marked as being read, because it was removed
    /// or added meanwhile, the outcome is dropped and nothing changes.
    /// Otherwise the mark is cleared. A well-formed descriptor is loaded
    /// into a workspace that goes into memory under `id`, whatever
    /// identifier the descriptor holds; its summary replaces the one on
    /// record, and the order names it from now on. If `id` is not the
    /// selected workspace any more, the workspace is taken off the screen.
    /// A failed load hands its error on, and a descriptor that breaks its
    /// invariant is refused as corrupt; in both cases the selection stays
    /// and the workspace is not in memory.
    pub fn finish_load(
        &mut self,
        token: UIThreadMarker,
        id: Id<WorkspaceMarker>,
        bounds: WebViewBounds,
        outcome: Result<(WorkspaceData, Vec<FileSystemItem>), WorkspaceError>,
    ) -> (result: Result<Vec<Effect>, WorkspaceError>)
        requires
            old(self)@.wf(),
        ensures
            final(self)@.wf(),
            final(self)@.selected == old(self)@.selected,
            !old(self)@.loading.contains(id@) ==> result is Ok && result->Ok_0@ == Seq::<
                Effect,
            >::empty() && final(self)@ == old(self)@,
            old(self)@.loading.contains(id@) ==> match outcome {
                Err(error) => result is Err && result->Err_0 == error && final(self)@ == old(
                    self,
                )@.load_failed(id@),
                Ok((data, files)) => if data@.wf() {
                    &&& result is Ok
                    &&& final(self)@ == old(self)@.load_done(
                        id@,
                        old(self)@.loaded_workspace(id@, data@, files@),
                    )
                    &&& result->Ok_0@ == old(self)@.load_effects(id@, data@, bounds)
                } else {
                    &&& result is Err
                    &&& result->Err_0 == WorkspaceError::Corrupt
                    &&& final(self)@ == old(self)@.load_failed(id@)
                },
            },
    {
        let key = id.value();
        let ghost before = self@;
        proof {
            assert(metadata_views(self.workspaces@).dom() =~= self.workspaces@.dom());
            assert(workspace_views(self.loaded@).dom() =~= self.loaded@.dom());
        }
        if !self.loading.contains(&key) {
            return Ok(Vec::new());
        }
        self.loading.remove(&key);
        proof {
            assert(self@.loading =~= before.load_failed(key).loading);
            assert(self@ == before.load_failed(key));
        }
        let (read, files) = match outcome {
            Ok(read) => read,
            Err(error) => {
                return Err(error);
            },
        };
        let ghost stored = read@;
        let ghost tree = files@;
        let mut data = read;
        data.id = id;
        proof {
            assert(data@ == (WorkspaceDataView { id: key, ..stored }));
        }
        match Workspace::load(token, bounds, data, files) {
            Err(_) => Err(WorkspaceError::Corrupt),
            Ok((mut workspace, mut effects)) => {
                if !self.selected.same(&id) {
                    let mut hide = workspace.set_hidden(token, true);
                    effects.append(&mut hide);
                } else {
                    proof {
                        let shown = workspace@;
                        assert(shown.with_hidden(false).tabs =~= shown.tabs);
                        assert(shown.with_hidden(false) == shown);
                    }
                }
                let summary = WorkspaceMetadata::from_workspace(&workspace);
                if position_of(&self.order, id).is_none() {
                    self.order.push(id);
                    proof {
                        assert(id_values(self.order@) =~= before.order.push(key));
                        before.order.lemma_push_to_set_commute(key);
                    }
                }
                self.workspaces.insert(key, summary);
                self.loaded.insert(key, workspace);
                proof {
                    let after = before.load_done(key, workspace@);
                    assert(workspace@ == before.loaded_workspace(key, stored, tree));
                    assert(self@.metadata =~= after.metadata);
                    assert(self@.loaded =~= after.loaded);
                    assert(self@.loading =~= after.loading);
                    assert(after.metadata.dom() =~= before.metadata.dom().insert(key));
                    assert(after.loaded.dom() =~= before.loaded.dom().insert(key));
                    assert(after.order.to_set().contains(key));
                    assert(before.order.to_set().contains(before.home));
                    assert(after.order.to_set().contains(after.home));
                    assert(effects@ =~= before.load_effects(key, stored, bounds));
                }
                Ok(effects)
            },
        }
    }

    /// Gives the loaded workspace `id` a new name, in the workspace and in
    /// its summary, and has the workspace written to disk. A workspace that
    /// is not in memory is refused and nothing changes.
    pub fn rename(&mut self, id: Id<WorkspaceMarker>, name: String) -> (result: Result<
        Vec<Effect>,
        WorkspaceError,
    >)
        requires
            old(self)@.wf(),
        ensures
            final(self)@.wf(),
            !old(self)@.loaded.dom().contains(id@) ==> result is Err && result->Err_0
                == WorkspaceError::NotFound && final(self)@ == old(self)@,
            old(self)@.loaded.dom().contains(id@) ==> result is Ok && final(self)@ == old(
                self,
            )@.rename(id@, name@) && result->Ok_0@ == seq![
                Effect::SaveWorkspace { workspace: id_of(id@) },
            ],
    {
        let key = id.value();
        let ghost before = self@;
        let mut workspace = match self.take(key) {
            Some(workspace) => workspace,
            None => {
                proof {
                    assert(self@.loaded =~= before.loaded);
                }
                return Err(WorkspaceError::NotFound);
            },
        };
        workspace.set_name(name);
        let summary = WorkspaceMetadata::from_workspace(&workspace);
        proof {
            assert(metadata_views(self.workspaces@).dom() =~= self.workspaces@.dom());
        }
        self.workspaces.insert(key, summary);
        proof {
            assert(self@.metadata =~= before.rename(key, name@).metadata);
            assert(self@.metadata.dom() =~= before.metadata.dom());
        }
        self.put(key, workspace);
        let mut effects: Vec<Effect> = Vec::new();
        effects.push(Effect::SaveWorkspace { workspace: id });
        proof {
            assert(self@.loaded =~= before.rename(key, name@).loaded);
            assert(effects@ =~= seq![Effect::SaveWorkspace { workspace: id_of(id@) }]);
        }
        Ok(effects)
    }

    /// Selects the tab `tab` of the loaded workspace `workspace`, as
    /// `Workspace::select` does. A workspace that is not in memory, or a
    /// tab that it does not have, is refused and nothing changes.
    pub fn select_tab(
        &mut self,
        token: UIThreadMarker,
        workspace: Id<WorkspaceMarker>,
        tab: Id<TabMarker>,
    ) -> (result: Result<Vec<Effect>, WorkspaceError>)
        requires
            old(self)@.wf(),
        ensures
            final(self)@.wf(),
            old(self)@.has_tab(workspace@, tab@) ==> result is Ok && final(self)@ == old(
                self,
            )@.with_loaded(workspace@, old(self)@.loaded[workspace@].select(tab@))
                && result->Ok_0@ == switch_effects(
                old(self)@.loaded[workspace@].tab_order,
                Some(tab@),
            ),
            !old(self)@.has_tab(workspace@, tab@) ==> result is Err && result->Err_0
                == WorkspaceError::NotFound && final(self)@ == old(self)@,
    {
        let key = workspace.value();
        let ghost before = self@;
        match self.take(key) {
            None => {
                proof {
                    assert(self@.loaded =~= before.loaded);
                }
                Err(WorkspaceError::NotFound)
            },
            Some(mut target) => {
                let result = target.select(token, tab);
                self.put(key, target);
                proof {
                    assert(self@.loaded =~= before.loaded.insert(key, target@));
                    if target@ == before.loaded[key] {
                        assert(self@.loaded =~= before.loaded);
                    }
                }
                result
            },
        }
    }

    /// Opens a new tab in the loaded workspace `workspace`, as
    /// `Workspace::create_tab` does, and returns its identifier with the
    /// effects. A workspace that is not in memory is refused as not found.
    /// Otherwise the request can only be refused where the workspace
    /// already has a tab under a version 7 identifier, and the draw hits it.
    pub fn create_tab(
        &mut self,
        token: UIThreadMarker,
        workspace: Id<WorkspaceMarker>,
        bounds: WebViewBounds,
        location: TabLocationData,
        make_visible: bool,
    ) -> (result: Result<(Id<TabMarker>, Vec<Effect>), WorkspaceError>)
        requires
            old(self)@.wf(),
        ensures
            final(self)@.wf(),
            !old(self)@.loaded.dom().contains(workspace@) ==> result is Err && result->Err_0
                == WorkspaceError::NotFound && final(self)@ == old(self)@,
            old(self)@.loaded.dom().contains(workspace@) ==> match result {
                Ok((tab, effects)) => {
                    let target = old(self)@.loaded[workspace@];
                    &&& !target.tabs.dom().contains(tab@)
                    &&& final(self)@ == old(self)@.with_loaded(
                        workspace@,
                        target.create_tab(tab@, location@, make_visible),
                    )
                    &&& effects@ == target.create_tab_effects(tab@, bounds, make_visible)
                },
                Err(error) => error == WorkspaceError::AlreadyExists && final(self)@ == old(self)@
                    && has_version_7_tab(old(self)@.loaded[workspace@].tabs),
            },
    {
        let key = workspace.value();
        let ghost before = self@;
        match self.take(key) {
            None => {
                proof {
                    assert(self@.loaded =~= before.loaded);
                }
                Err(WorkspaceError::NotFound)
            },
            Some(mut target) => {
                let result = target.create_tab(token, bounds, location, make_visible);
                self.put(key, target);
                proof {
                    assert(self@.loaded =~= before.loaded.insert(key, target@));
                    if target@ == before.loaded[key] {
                        assert(self@.loaded =~= before.loaded);
                    }
                }
                result
            },
        }
    }

    /// Closes the tab `tab` of the loaded workspace `workspace`, as
    /// `Workspace::close_tab` does. A workspace that is not in memory, or a
    /// tab that it does not have, is refused and nothing changes.
    pub fn close_tab(
        &mut self,
        token: UIThreadMarker,
        workspace: Id<WorkspaceMarker>,
        tab: Id<TabMarker>,
    ) -> (result: Result<Vec<Effect>, WorkspaceError>)
        requires
            old(self)@.wf(),
        ensures
            final(self)@.wf(),
            old(self)@.has_tab(workspace@, tab@) ==> result is Ok && final(self)@ == old(
                self,
            )@.with_loaded(workspace@, old(self)@.loaded[workspace@].without_tab(tab@))
                && result->Ok_0@ == seq![
                Effect::CloseView { tab: id_of(tab@) },
                Effect::SaveWorkspace { workspace: id_of(workspace@) },
            ],
            !old(self)@.has_tab(workspace@, tab@) ==> result is Err && result->Err_0
                == WorkspaceError::NotFound && final(self)@ == old(self)@,
    {
        let key = workspace.value();
        let ghost before = self@;
        match self.take(key) {
            None => {
                proof {
                    assert(self@.loaded =~= before.loaded);
                }
                Err(WorkspaceError::NotFound)
            },
            Some(mut target) => {
                let result = target.close_tab(token, tab);
                self.put(key, target);
                proof {
                    assert(self@.loaded =~= before.loaded.insert(key, target@));
                    if target@ == before.loaded[key] {
                        assert(self@.loaded =~= before.loaded);
                    }
                }
                result
            },
        }
    }

    /// Points the tab `tab` of the loaded workspace `workspace` at a new
    /// location, as `Workspace::navigate_tab` does. A workspace that is
    /// not in memory, or a tab that it does not have, is refused and
    /// nothing changes.
    pub fn navigate_tab(
        &mut self,
        workspace: Id<WorkspaceMarker>,
        tab: Id<TabMarker>,
        location: TabLocationData,
    ) -> (result: Result<Vec<Effect>, WorkspaceError>)
        requires
            old(self)@.wf(),
        ensures
            final(self)@.wf(),
            old(self)@.has_tab(workspace@, tab@) ==> result is Ok && final(self)@ == old(
                self,
            )@.with_loaded(
                workspace@,
                old(self)@.loaded[workspace@].navigate_tab(tab@, location@),
            ) && result->Ok_0@ == navigate_effects(id_of(tab@), true),
            !old(self)@.has_tab(workspace@, tab@) ==> result is Err && result->Err_0
                == WorkspaceError::NotFound && final(self)@ == old(self)@,
    {
        let key = workspace.value();
        let ghost before = self@;
        match self.take(key) {
            None => {
                proof {
                    assert(self@.loaded =~= before.loaded);
                }
                Err(WorkspaceError::NotFound)
            },
            Some(mut target) => {
                let result = target.navigate_tab(tab, location);
                self.put(key, target);
                proof {
                    assert(self@.loaded =~= before.loaded.insert(key, target@));
                    if target@ == before.loaded[key] {
                        assert(self@.loaded =~= before.loaded);
                    }
                }
                result
            },
        }
    }

    /// Passes over the tab `tab` of the loaded workspace `workspace` after
    /// the host could not create its view, as `Workspace::discard_tab`
    /// does. A workspace that is not in memory, or a tab that it does not
    /// have, is refused and nothing changes.
    pub fn discard_tab(
        &mut self,
        workspace: Id<WorkspaceMarker>,
        tab: Id<TabMarker>,
    ) -> (result: Result<(), WorkspaceError>)
        requires
            old(self)@.wf(),
        ensures
            final(self)@.wf(),
            old(self)@.has_tab(workspace@, tab@) ==> result == Ok::<(), WorkspaceError>(())
                && final(self)@ == old(self)@.with_loaded(
                workspace@,
                old(self)@.loaded[workspace@].without_tab(tab@),
            ),
            !old(self)@.has_tab(workspace@, tab@) ==> result is Err && result->Err_0
                == WorkspaceError::NotFound && final(self)@ == old(self)@,
    {
        let key = workspace.value();
        let ghost before = self@;
        match self.take(key) {
            None => {
                proof {
                    assert(self@.loaded =~= before.loaded);
                }
                Err(WorkspaceError::NotFound)
            },
            Some(mut target) => {
                let result = target.discard_tab(tab);
                self.put(key, target);
                proof {
                    assert(self@.loaded =~= before.loaded.insert(key, target@));
                    if target@ == before.loaded[key] {
                        assert(self@.loaded =~= before.loaded);
                    }
                }
                result
            },
        }
    }

    /// Takes note of the title that the view of the tab `tab` of the loaded
    /// workspace `workspace` reports. Returns whether there is such a tab;
    /// if not, nothing changes.
    pub fn on_tab_title_change(
        &mut self,
        workspace: Id<WorkspaceMarker>,
        tab: Id<TabMarker>,
        title: String,
    ) -> (known: bool)
        requires
            old(self)@.wf(),
        ensures
            final(self)@.wf(),
            known == old(self)@.has_tab(workspace@, tab@),
            final(self)@ == if known {
                old(self)@.with_loaded(
                    workspace@,
                    old(self)@.loaded[workspace@].with_tab_title(tab@, title@),
                )
            } else {
                old(self)@
            },
    {
        let key = workspace.value();
        let ghost before = self@;
        match self.take(key) {
            None => {
                proof {
                    assert(self@.loaded =~= before.loaded);
                }
                false
            },
            Some(mut target) => {
                let result = target.on_tab_title_change(tab, title);
                self.put(key, target);
                proof {
                    assert(self@.loaded =~= before.loaded.insert(key, target@));
                    if target@ == before.loaded[key] {
                        assert(self@.loaded =~= before.loaded);
                    }
                }
                result
            },
        }
    }

    /// Takes note of the URL at which the view of the tab `tab` of the
    /// loaded workspace `workspace` reports to be. Returns whether there is
    /// such a tab; if not, nothing changes.
    pub fn on_tab_url_change(
        &mut self,
        workspace: Id<WorkspaceMarker>,
        tab: Id<TabMarker>,
        url: String,
    ) -> (known: bool)
        requires
            old(self)@.wf(),
        ensures
            final(self)@.wf(),
            known == old(self)@.has_tab(workspace@, tab@),
            final(self)@ == if known {
                old(self)@.with_loaded(
                    workspace@,
                    old(self)@.loaded[workspace@].navigate_tab(
                        tab@,
                        LocationView::WebPage { url: url@ },
                    ),
                )
            } else {
                old(self)@
            },
    {
        let key = workspace.value();
        let ghost before = self@;
        match self.take(key) {
            None => {
                proof {
                    assert(self@.loaded =~= before.loaded);
                }
                false
            },
            Some(mut target) => {
                let result = target.on_tab_url_change(tab, url);
                self.put(key, target);
                proof {
                    assert(self@.loaded =~= before.loaded.insert(key, target@));
                    if target@ == before.loaded[key] {
                        assert(self@.loaded =~= before.loaded);
                    }
                }
                result
            },
        }
    }

    /// Gives the views of every workspace in memory new bounds: the
    /// workspaces in the order of the manager, the tabs of each in its own
    /// order, visible or not.
    pub fn resize(&self, token: UIThreadMarker, bounds: WebViewBounds) -> (effects: Vec<Effect>)
        requires
            self@.wf(),
        ensures
            effects@ == self@.resize_effects(self@.order, bounds),
    {
        let ghost keys = self@.order;
        let mut effects: Vec<Effect> = Vec::new();
        let mut index: usize = 0;
        proof {
            assert(workspace_views(self.loaded@).dom() =~= self.loaded@.dom());
        }
        while index < self.order.len()
            invariant
                index <= self.order.len(),
                self@.wf(),
                keys == id_values(self.order@),
                workspace_views(self.loaded@).dom() == self.loaded@.dom(),
                effects@ == self@.resize_effects(keys.take(index as int), bounds),
            decreases self.order.len() - index,
        {
            let id = self.order[index];
            proof {
                assert(keys[index as int] == id@);
                assert(keys.take(index + 1).drop_last() =~= keys.take(index as int));
                assert(keys.take(index + 1).last() == id@);
            }
            match self.loaded.get(&id.value()) {
                Some(workspace) => {
                    let mut part = workspace.resize(token, bounds);
                    effects.append(&mut part);
                },
                None => {},
            }
            index += 1;
        }
        proof {
            assert(keys.take(index as int) =~= keys);
        }
        effects
    }
}

impl WorkspaceListData {
    /// The list under which the manager is stored.
    pub fn from_state(list: &WorkspaceManager) -> (data: WorkspaceListData)
        ensures
            data@ == list@.to_data(),
    {
        list.to_data()
    }
}

/// A list that was read back and needs no repair, beside a listing in which
/// every workspace is one of the order, gives a manager with the home, the
/// order and the selection of the list and the summaries of the listing,
/// and nothing in memory; and the list that it stores again is the list
/// that it was made from. Where no workspace is found twice, the summary of
/// each is the one of the listing.
pub proof fn lemma_initial_keeps_list_and_listing(
    data: WorkspaceListView,
    listing: Seq<MetadataView>,
)
    requires
        data.order.no_duplicates(),
        data.order.contains(data.home),
        listing_ids(listing).to_set().subset_of(data.order.to_set()),
    ensures
        ({
            let manager = ManagerView::initial(data, false, listing);
            &&& manager.wf()
            &&& manager.home == data.home
            &&& manager.order == data.order
            &&& manager.selected == data.selected
            &&& manager.to_data() == data
            &&& manager.metadata.dom() == listing_ids(listing).to_set()
            &&& listing_ids(listing).no_duplicates() ==> forall|at: int|
                0 <= at < listing.len() ==> manager.metadata[#[trigger] listing[at].id]
                    == listing[at]
            &&& manager.loaded == Map::<u128, WorkspaceView>::empty()
            &&& manager.loading == Set::<u128>::empty()
        }),
{
    lemma_initial_wf(data, false, listing);
    lemma_repaired_order(data.order, data.home, listing_ids(listing));
    lemma_listing_map(listing);
    if listing_ids(listing).no_duplicates() {
        lemma_listing_map_of_distinct(listing);
    }
}

/// Whatever list and listing the manager is made from, it keeps the home
/// and the selection of the list and the summary of every workspace of the
/// listing, and its order names the home workspace, every workspace that
/// the list named and every workspace of the listing.
pub proof fn lemma_initial_keeps_what_was_read(
    data: WorkspaceListView,
    created: bool,
    listing: Seq<MetadataView>,
)
    ensures
        ({
            let manager = ManagerView::initial(data, created, listing);
            &&& manager.wf()
            &&& manager.home == data.home
            &&& manager.selected == data.selected
            &&& manager.order.contains(data.home)
            &&& data.order.to_set().subset_of(manager.order.to_set())
            &&& listing_ids(listing).to_set().subset_of(manager.metadata.dom())
            &&& listing_ids(listing).to_set().subset_of(manager.order.to_set())
        }),
{
    lemma_initial_wf(data, created, listing);
    lemma_repaired_order(data.order, data.home, listing_ids(listing));
    lemma_listing_map(listing);
}

/// While a workspace is being read from disk, opening it again asks the
/// host for no load: of any number of calls to open it before its load has
/// ended, only the first one asks for the load, and the later ones ask for
/// nothing but to hide and to show views.
pub proof fn lemma_open_loads_at_most_once(manager: ManagerView, id: u128)
    requires
        manager.wf(),
    ensures
        manager.open(id).wf(),
        manager.open(id).selected == id,
        !manager.open(id).must_load(id),
        forall|at: int|
            0 <= at < manager.open(id).open_effects(id).len() ==> #[trigger] manager.open(
                id,
            ).open_effects(id)[at] is SetHidden,
        manager.must_load(id) ==> manager.open_effects(id).last() == (Effect::LoadWorkspace {
            workspace: id_of(id),
        }) && manager.open(id).loading.contains(id),
{
    let once = manager.open(id);
    lemma_switched_keeps_wf(manager, id);
    assert(once.loaded.dom() =~= manager.loaded.dom());
    lemma_switched_effects_only_hide_and_show(once.loaded, once.order, id);
    assert(once.open_effects(id) =~= switched_effects(once.loaded, once.order, id));
}

/// The home workspace is never removed: whatever the manager holds, a
/// request to remove it is refused, and the manager stays as it was.
pub proof fn lemma_home_is_never_removed(manager: ManagerView)
    requires
        manager.wf(),
    ensures
        manager.remove(manager.home) == (manager, Some(WorkspaceError::CannotRemoveHome)),
{
}

} // verus!
