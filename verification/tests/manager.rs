use memex_core::data::{
    TabData, TabLocationData, WorkspaceData, WorkspaceIconData, WorkspaceListData,
    WorkspaceMetadata,
};
use memex_core::effect::Effect;
use memex_core::error::WorkspaceError;
use memex_core::file_tree::FileSystemItem;
use memex_core::geometry::{WebViewBounds, WindowSize};
use memex_core::id::{Id, TabMarker, WorkspaceMarker};
use memex_core::manager::WorkspaceManager;
use memex_core::store::{read_registry, Stored};
use memex_core::token::UIThreadMarker;
use memex_core::workspace::Workspace;

const HOME: u128 = 0x1;
const NOTES: u128 = 0x2;
const WORK: u128 = 0x3;
const OTHER: u128 = 0x9;

fn token() -> UIThreadMarker {
    UIThreadMarker::new(true).unwrap()
}

fn bounds() -> WebViewBounds {
    WebViewBounds {
        x: 0,
        y: 0,
        width: 640,
        height: 480,
        window_size: WindowSize { width: 640, height: 480 },
    }
}

fn ws(value: u128) -> Id<WorkspaceMarker> {
    Id::from_value(value)
}

fn tab_id(value: u128) -> Id<TabMarker> {
    Id::from_value(value)
}

fn summary(value: u128, name: &str) -> WorkspaceMetadata {
    WorkspaceMetadata::new(ws(value), WorkspaceIconData::Default, name.to_owned())
}

fn list(order: &[u128], selected: u128) -> WorkspaceListData {
    WorkspaceListData {
        home: ws(HOME),
        order: order.iter().map(|value| ws(*value)).collect(),
        selected: ws(selected),
    }
}

fn manager() -> WorkspaceManager {
    let listing = vec![summary(NOTES, "Notes"), summary(HOME, "Home"), summary(WORK, "Work")];
    WorkspaceManager::initialize(Ok((list(&[HOME, NOTES, WORK], NOTES), false)), Ok(listing)).unwrap().0
}

fn descriptor(value: u128, name: &str, tabs: &[u128], selected: Option<u128>) -> WorkspaceData {
    let mut data = WorkspaceData::new(ws(value), name.to_owned());
    for tab in tabs {
        data.tabs.insert(
            *tab,
            TabData {
                id: tab_id(*tab),
                location: TabLocationData::WebPage { url: "https://example.com".to_owned() },
            },
        );
        data.tab_order.push(tab_id(*tab));
    }
    data.selected = selected.map(tab_id);
    data
}

fn order_of(manager: &WorkspaceManager) -> Vec<u128> {
    manager.order().iter().map(|id| id.value()).collect()
}

#[test]
fn fresh_root_gets_a_home_workspace() {
    let (data, created) = read_registry(Stored::Missing).unwrap();
    assert!(created);
    assert!(data.order.is_empty());
    assert_eq!(data.selected, data.home);
    let home = data.home;

    let (manager, effects) =
        WorkspaceManager::initialize(Ok((data, created)), Ok(Vec::new())).unwrap();
    assert_eq!(manager.home(), home);
    assert_eq!(manager.order(), &vec![home]);
    assert_eq!(manager.selected(), home);
    assert_eq!(effects, vec![Effect::CreateWorkspace { workspace: home }]);

    let summary = manager.list_metadata().get(&home.value()).unwrap();
    assert_eq!(summary.name(), "Home");
    assert_eq!(summary.icon(), &WorkspaceIconData::Home);

    let on_disk = manager.get(home).unwrap().to_data();
    assert_eq!(on_disk.id, home);
    assert_eq!(on_disk.name, "Home");
    assert!(on_disk.tabs.is_empty());
    assert!(on_disk.tab_order.is_empty());
    assert_eq!(on_disk.selected, None);
}

#[test]
fn initialize_from_a_stored_list_loads_nothing() {
    let listing = vec![summary(NOTES, "Notes"), summary(HOME, "Home")];
    let (manager, effects) =
        WorkspaceManager::initialize(Ok((list(&[HOME, NOTES], NOTES), false)), Ok(listing)).unwrap();
    assert!(effects.is_empty());
    assert_eq!(order_of(&manager), vec![HOME, NOTES]);
    assert_eq!(manager.home(), ws(HOME));
    assert_eq!(manager.selected(), ws(NOTES));
    assert_eq!(manager.list_metadata().len(), 2);
    assert_eq!(manager.list_metadata().get(&NOTES).unwrap().name(), "Notes");
    assert_eq!(manager.list_metadata().get(&NOTES).unwrap().id(), ws(NOTES));
    assert!(manager.get(ws(NOTES)).is_none());
    assert!(manager.current().is_none());
    assert!(!manager.is_loaded(ws(HOME)));
    assert!(!manager.is_loading(ws(HOME)));
}

#[test]
fn initialize_fails_fatal_where_reading_or_listing_failed() {
    let listing = || vec![summary(HOME, "Home")];
    assert_eq!(
        WorkspaceManager::initialize(Err(WorkspaceError::Corrupt), Ok(listing())).err(),
        Some(WorkspaceError::Fatal)
    );
    assert_eq!(
        WorkspaceManager::initialize(Ok((list(&[HOME], HOME), false)), Err(WorkspaceError::Corrupt))
            .err(),
        Some(WorkspaceError::Fatal)
    );
    assert_eq!(
        WorkspaceManager::initialize(Err(WorkspaceError::NotFound), Err(WorkspaceError::NotFound))
            .err(),
        Some(WorkspaceError::Fatal)
    );
}

#[test]
fn initialize_keeps_a_list_that_needs_no_repair() {
    let listing = vec![summary(WORK, "Work"), summary(HOME, "Home"), summary(NOTES, "Notes")];
    let (manager, effects) =
        WorkspaceManager::initialize(Ok((list(&[NOTES, HOME, WORK], WORK), false)), Ok(listing))
            .unwrap();
    assert!(effects.is_empty());
    assert_eq!(manager.home(), ws(HOME));
    assert_eq!(order_of(&manager), vec![NOTES, HOME, WORK]);
    assert_eq!(manager.selected(), ws(WORK));
    assert_eq!(manager.list_metadata().len(), 3);
    assert_eq!(manager.to_data(), list(&[NOTES, HOME, WORK], WORK));
    for value in [HOME, NOTES, WORK] {
        assert!(manager.get(ws(value)).is_none());
    }
}

#[test]
fn list_first_written_and_read_back_starts() {
    // the list as a first start writes it, read back before the home
    // workspace was created on disk
    let (written, created) = read_registry(Stored::Missing).unwrap();
    assert!(created);
    let home = written.home;
    let (read, created) = read_registry(Stored::Found(written)).unwrap();
    assert!(!created);
    let (mut manager, effects) =
        WorkspaceManager::initialize(Ok((read, created)), Ok(Vec::new())).unwrap();
    assert!(effects.is_empty());
    assert_eq!(manager.order(), &vec![home]);
    assert_eq!(manager.selected(), home);
    assert!(manager.list_metadata().is_empty());
    assert_eq!(manager.open(token(), home), vec![Effect::LoadWorkspace { workspace: home }]);
}

#[test]
fn initialize_sets_the_order_right() {
    let on_disk = || vec![summary(HOME, "Home"), summary(NOTES, "Notes")];
    // the order does not name the home workspace: it is put first
    let (manager, _) =
        WorkspaceManager::initialize(Ok((list(&[NOTES], NOTES), false)), Ok(on_disk())).unwrap();
    assert_eq!(order_of(&manager), vec![HOME, NOTES]);
    assert_eq!(manager.selected(), ws(NOTES));
    // the order names a workspace twice: it is named once, at its first place
    let (manager, _) = WorkspaceManager::initialize(
        Ok((list(&[NOTES, HOME, NOTES, HOME], HOME), false)),
        Ok(on_disk()),
    )
    .unwrap();
    assert_eq!(order_of(&manager), vec![NOTES, HOME]);
    // the order names nothing
    let (manager, _) =
        WorkspaceManager::initialize(Ok((list(&[], HOME), false)), Ok(on_disk())).unwrap();
    assert_eq!(order_of(&manager), vec![HOME, NOTES]);
    assert_eq!(manager.list_metadata().len(), 2);
    // the selected workspace is taken as read, known or not
    let (manager, _) =
        WorkspaceManager::initialize(Ok((list(&[HOME], OTHER), false)), Ok(on_disk())).unwrap();
    assert_eq!(manager.selected(), ws(OTHER));
    assert_eq!(order_of(&manager), vec![HOME, NOTES]);
}

#[test]
fn workspace_of_the_order_that_is_not_on_disk_stays_and_fails_when_opened() {
    let listing = vec![summary(HOME, "Home")];
    let (mut manager, effects) =
        WorkspaceManager::initialize(Ok((list(&[HOME, NOTES], HOME), false)), Ok(listing)).unwrap();
    assert!(effects.is_empty());
    assert_eq!(order_of(&manager), vec![HOME, NOTES]);
    assert_eq!(manager.list_metadata().len(), 1);
    assert!(manager.list_metadata().get(&NOTES).is_none());

    assert_eq!(
        manager.open(token(), ws(NOTES)),
        vec![Effect::LoadWorkspace { workspace: ws(NOTES) }]
    );
    assert_eq!(manager.selected(), ws(NOTES));
    assert_eq!(
        manager.finish_load(token(), ws(NOTES), bounds(), Err(WorkspaceError::NotFound)),
        Err(WorkspaceError::NotFound)
    );
    assert!(!manager.is_loaded(ws(NOTES)));
    assert!(manager.get(ws(NOTES)).is_none());
    assert_eq!(manager.selected(), ws(NOTES));
    assert_eq!(order_of(&manager), vec![HOME, NOTES]);
    assert_eq!(manager.list_metadata().len(), 1);
}

#[test]
fn workspace_on_disk_that_the_order_does_not_name_joins_the_order() {
    let listing = vec![summary(OTHER, "Found"), summary(HOME, "Home"), summary(NOTES, "Notes")];
    let (mut manager, _) =
        WorkspaceManager::initialize(Ok((list(&[NOTES, HOME], HOME), false)), Ok(listing)).unwrap();
    assert_eq!(order_of(&manager), vec![NOTES, HOME, OTHER]);
    assert_eq!(manager.list_metadata().len(), 3);
    assert_eq!(manager.list_metadata().get(&OTHER).unwrap().name(), "Found");
    assert_eq!(
        manager.open(token(), ws(OTHER)),
        vec![Effect::LoadWorkspace { workspace: ws(OTHER) }]
    );
    assert_eq!(manager.selected(), ws(OTHER));
}

#[test]
fn of_two_summaries_of_one_workspace_the_later_counts() {
    let listing = vec![summary(HOME, "Home"), summary(NOTES, "Earlier"), summary(NOTES, "Later")];
    let (manager, _) =
        WorkspaceManager::initialize(Ok((list(&[HOME, NOTES], HOME), false)), Ok(listing)).unwrap();
    assert_eq!(manager.list_metadata().len(), 2);
    assert_eq!(manager.list_metadata().get(&NOTES).unwrap().name(), "Later");
    assert_eq!(order_of(&manager), vec![HOME, NOTES]);
}

#[test]
fn list_that_was_just_created_gets_its_home_and_keeps_what_is_on_disk() {
    let listing = vec![summary(NOTES, "Found")];
    let (manager, effects) =
        WorkspaceManager::initialize(Ok((list(&[], HOME), true)), Ok(listing)).unwrap();
    assert_eq!(effects, vec![Effect::CreateWorkspace { workspace: ws(HOME) }]);
    assert_eq!(order_of(&manager), vec![HOME, NOTES]);
    assert_eq!(manager.selected(), ws(HOME));
    assert_eq!(manager.list_metadata().len(), 2);
    assert_eq!(manager.list_metadata().get(&HOME).unwrap().name(), "Home");
    assert_eq!(manager.list_metadata().get(&NOTES).unwrap().name(), "Found");
    assert!(manager.is_loaded(ws(HOME)));
    assert!(!manager.is_loaded(ws(NOTES)));
}

#[test]
fn open_selects_whatever_is_asked_for() {
    let mut manager = manager();
    // a workspace that nobody knows: it is selected, and its load is tried
    assert_eq!(
        manager.open(token(), ws(OTHER)),
        vec![Effect::LoadWorkspace { workspace: ws(OTHER) }]
    );
    assert_eq!(manager.selected(), ws(OTHER));
    assert!(manager.is_loading(ws(OTHER)));
    assert_eq!(manager.open(token(), ws(OTHER)), Vec::new());
    // the load fails: the selection stays, nothing is left in memory
    assert_eq!(
        manager.finish_load(token(), ws(OTHER), bounds(), Err(WorkspaceError::NotFound)),
        Err(WorkspaceError::NotFound)
    );
    assert_eq!(manager.selected(), ws(OTHER));
    assert!(manager.get(ws(OTHER)).is_none());
    assert!(!manager.is_loading(ws(OTHER)));
    assert_eq!(order_of(&manager), vec![HOME, NOTES, WORK]);
    assert_eq!(manager.list_metadata().len(), 3);

    // it is on disk after all: it is loaded and joins the order at its end
    manager.open(token(), ws(OTHER));
    let read = descriptor(OTHER, "Other", &[0xa], Some(0xa));
    manager.finish_load(token(), ws(OTHER), bounds(), Ok((read, Vec::new()))).unwrap();
    assert!(manager.is_loaded(ws(OTHER)));
    assert_eq!(order_of(&manager), vec![HOME, NOTES, WORK, OTHER]);
    assert_eq!(manager.list_metadata().get(&OTHER).unwrap().name(), "Other");
}

#[test]
fn open_puts_one_workspace_on_screen() {
    let mut manager = manager();
    for (value, tabs, selected) in [(WORK, vec![0xa_u128, 0xb], 0xb_u128), (NOTES, vec![0xc], 0xc)] {
        manager.open(token(), ws(value));
        let read = descriptor(value, "Loaded", &tabs, Some(selected));
        manager.finish_load(token(), ws(value), bounds(), Ok((read, Vec::new()))).unwrap();
    }
    let visible = |manager: &WorkspaceManager, value: u128| -> Vec<u128> {
        let workspace = manager.get(ws(value)).unwrap();
        workspace
            .tab_order()
            .iter()
            .filter(|id| workspace.get_tab(**id).unwrap().is_visible())
            .map(|id| id.value())
            .collect()
    };
    // the workspace opened last is on screen, the other one is not
    assert_eq!(manager.selected(), ws(NOTES));
    assert_eq!(visible(&manager, NOTES), vec![0xc]);
    assert_eq!(visible(&manager, WORK), Vec::<u128>::new());
    assert!(manager.get(ws(WORK)).unwrap().is_hidden());
    assert_eq!(manager.get(ws(WORK)).unwrap().selected_tab(), Some(tab_id(0xb)));

    // going back: the workspaces are visited in the order of the manager
    assert_eq!(
        manager.open(token(), ws(WORK)),
        vec![
            Effect::SetHidden { tab: tab_id(0xc), hidden: true },
            Effect::SetHidden { tab: tab_id(0xa), hidden: true },
            Effect::SetHidden { tab: tab_id(0xb), hidden: false },
        ]
    );
    assert_eq!(visible(&manager, WORK), vec![0xb]);
    assert_eq!(visible(&manager, NOTES), Vec::<u128>::new());
    assert!(!manager.get(ws(WORK)).unwrap().is_hidden());

    // a workspace that is not in memory: everything in memory goes off screen
    assert_eq!(
        manager.open(token(), ws(HOME)),
        vec![
            Effect::SetHidden { tab: tab_id(0xc), hidden: true },
            Effect::SetHidden { tab: tab_id(0xa), hidden: true },
            Effect::SetHidden { tab: tab_id(0xb), hidden: true },
            Effect::LoadWorkspace { workspace: ws(HOME) },
        ]
    );
    assert_eq!(visible(&manager, WORK), Vec::<u128>::new());

    // a load that ends after the user went elsewhere comes in off screen
    manager.open(token(), ws(WORK));
    let read = descriptor(HOME, "Home", &[0xd], Some(0xd));
    let effects =
        manager.finish_load(token(), ws(HOME), bounds(), Ok((read, Vec::new()))).unwrap();
    assert_eq!(
        effects,
        vec![
            Effect::CreateView { tab: tab_id(0xd), bounds: bounds() },
            Effect::SetHidden { tab: tab_id(0xd), hidden: false },
            Effect::SetHidden { tab: tab_id(0xd), hidden: true },
        ]
    );
    assert_eq!(visible(&manager, HOME), Vec::<u128>::new());
    assert_eq!(visible(&manager, WORK), vec![0xb]);
}

#[test]
fn destroy_removes_and_asks_for_the_deletion() {
    let mut manager = manager();
    // not in memory: only the directory is to go
    assert_eq!(
        manager.destroy(token(), ws(NOTES)),
        Ok(vec![Effect::DeleteWorkspace { workspace: ws(NOTES) }])
    );
    assert_eq!(order_of(&manager), vec![HOME, WORK]);
    assert_eq!(manager.selected(), ws(HOME));

    // in memory: its views are closed first
    manager.open(token(), ws(WORK));
    let read = descriptor(WORK, "Work", &[0xa, 0xb], Some(0xa));
    manager.finish_load(token(), ws(WORK), bounds(), Ok((read, Vec::new()))).unwrap();
    assert_eq!(
        manager.destroy(token(), ws(WORK)),
        Ok(vec![
            Effect::CloseView { tab: tab_id(0xa) },
            Effect::CloseView { tab: tab_id(0xb) },
            Effect::DeleteWorkspace { workspace: ws(WORK) },
        ])
    );
    assert_eq!(order_of(&manager), vec![HOME]);
    assert!(!manager.is_loaded(ws(WORK)));

    assert_eq!(manager.destroy(token(), ws(HOME)), Err(WorkspaceError::CannotRemoveHome));
    assert_eq!(manager.destroy(token(), ws(OTHER)), Err(WorkspaceError::NotFound));
    assert_eq!(order_of(&manager), vec![HOME]);
}

#[test]
fn loaded_workspace_keeps_the_file_tree_it_was_loaded_with() {
    let mut manager = manager();
    manager.open(token(), ws(WORK));
    let read = descriptor(WORK, "Work", &[0xa], Some(0xa));
    let tree = || {
        vec![
            FileSystemItem::Dir {
                path: "knowledges/papers".to_owned(),
                children: vec![FileSystemItem::File("knowledges/papers/a.pdf".to_owned())],
            },
            FileSystemItem::File("knowledges/notes.md".to_owned()),
        ]
    };
    let files = tree();
    manager.finish_load(token(), ws(WORK), bounds(), Ok((read, tree()))).unwrap();
    assert_eq!(manager.get(ws(WORK)).unwrap().files(), &files);

    manager.select_tab(token(), ws(WORK), tab_id(0xa)).unwrap();
    manager.create_tab(token(), ws(WORK), bounds(), TabLocationData::NativeHomePage, false).unwrap();
    manager.rename(ws(WORK), "Office".to_owned()).unwrap();
    manager.close_tab(token(), ws(WORK), tab_id(0xa)).unwrap();
    assert_eq!(manager.get(ws(WORK)).unwrap().files(), &files);

    let removed = manager.remove(ws(WORK)).unwrap().unwrap();
    assert_eq!(removed.files(), &files);
}

#[test]
fn create_tab_succeeds_where_no_draw_can_collide() {
    let mut manager = manager();
    manager.open(token(), ws(WORK));
    // none of the tabs is kept under a version 7 identifier
    let read = descriptor(WORK, "Work", &[0xa, 0xb], Some(0xa));
    manager.finish_load(token(), ws(WORK), bounds(), Ok((read, Vec::new()))).unwrap();
    let created = manager.create_tab(token(), ws(WORK), bounds(), TabLocationData::NativeHomePage, true);
    assert!(created.is_ok());
    let (tab, _) = created.unwrap();
    assert_eq!((tab.value() >> 76) & 0xf, 7);
    assert_eq!(manager.get(ws(WORK)).unwrap().tab_order().len(), 3);
}

#[test]
fn open_selects_and_asks_for_one_load() {
    let mut manager = manager();
    assert_eq!(
        manager.open(token(), ws(WORK)),
        vec![Effect::LoadWorkspace { workspace: ws(WORK) }]
    );
    assert_eq!(manager.selected(), ws(WORK));
    assert!(manager.is_loading(ws(WORK)));
    assert!(!manager.is_loaded(ws(WORK)));
    // a second call before the load has ended asks for nothing
    assert_eq!(manager.open(token(), ws(WORK)), Vec::new());
    assert_eq!(manager.open(token(), ws(WORK)), Vec::new());
    assert!(manager.is_loading(ws(WORK)));
}

#[test]
fn finished_load_puts_the_workspace_into_memory() {
    let mut manager = manager();
    manager.open(token(), ws(WORK));
    let read = descriptor(WORK, "Work (renamed)", &[0xa, 0xb], Some(0xb));
    let effects = manager.finish_load(token(), ws(WORK), bounds(), Ok((read, Vec::new()))).unwrap();
    assert_eq!(
        effects,
        vec![
            Effect::CreateView { tab: tab_id(0xa), bounds: bounds() },
            Effect::CreateView { tab: tab_id(0xb), bounds: bounds() },
            Effect::SetHidden { tab: tab_id(0xa), hidden: true },
            Effect::SetHidden { tab: tab_id(0xb), hidden: false },
        ]
    );
    assert!(manager.is_loaded(ws(WORK)));
    assert!(!manager.is_loading(ws(WORK)));
    assert_eq!(manager.current().unwrap().id(), ws(WORK));
    assert_eq!(manager.get(ws(WORK)).unwrap().selected_tab(), Some(tab_id(0xb)));
    assert_eq!(manager.list_metadata().get(&WORK).unwrap().name(), "Work (renamed)");
    // the cache is used from now on: no load is asked for
    assert_eq!(
        manager.open(token(), ws(WORK)),
        vec![
            Effect::SetHidden { tab: tab_id(0xa), hidden: true },
            Effect::SetHidden { tab: tab_id(0xb), hidden: false },
        ]
    );
}

#[test]
fn failed_load_keeps_the_selection() {
    let mut manager = manager();
    manager.open(token(), ws(WORK));
    assert_eq!(
        manager.finish_load(token(), ws(WORK), bounds(), Err(WorkspaceError::NotFound)),
        Err(WorkspaceError::NotFound)
    );
    assert_eq!(manager.selected(), ws(WORK));
    assert!(!manager.is_loaded(ws(WORK)));
    assert!(!manager.is_loading(ws(WORK)));
    // the next call tries again
    assert_eq!(
        manager.open(token(), ws(WORK)),
        vec![Effect::LoadWorkspace { workspace: ws(WORK) }]
    );
}

#[test]
fn load_of_a_corrupt_descriptor_is_refused() {
    let mut manager = manager();
    manager.open(token(), ws(WORK));
    let corrupt = descriptor(WORK, "Work", &[0xa], Some(0xb));
    assert_eq!(
        manager.finish_load(token(), ws(WORK), bounds(), Ok((corrupt, Vec::new()))),
        Err(WorkspaceError::Corrupt)
    );
    assert!(!manager.is_loaded(ws(WORK)));
    assert!(!manager.is_loading(ws(WORK)));
    assert_eq!(manager.selected(), ws(WORK));
}

#[test]
fn loaded_workspace_goes_by_the_identifier_that_was_asked_for() {
    let mut manager = manager();
    manager.open(token(), ws(WORK));
    let other = descriptor(NOTES, "Copied", &[0xa], None);
    assert!(manager.finish_load(token(), ws(WORK), bounds(), Ok((other, Vec::new()))).is_ok());
    let workspace = manager.get(ws(WORK)).unwrap();
    assert_eq!(workspace.id(), ws(WORK));
    assert_eq!(workspace.name(), "Copied");
    assert_eq!(manager.list_metadata().get(&WORK).unwrap().id(), ws(WORK));
    assert!(!manager.is_loaded(ws(NOTES)));
}

#[test]
fn load_that_nobody_waits_for_is_dropped() {
    let mut manager = manager();
    manager.open(token(), ws(WORK));
    assert!(manager.remove(ws(WORK)).unwrap().is_none());
    let read = descriptor(WORK, "Work", &[0xa], None);
    assert_eq!(
        manager.finish_load(token(), ws(WORK), bounds(), Ok((read, Vec::new()))),
        Ok(Vec::new())
    );
    assert!(!manager.is_loaded(ws(WORK)));
    assert_eq!(order_of(&manager), vec![HOME, NOTES]);
}

#[test]
fn added_workspace_goes_to_the_front() {
    let mut manager = manager();
    let workspace = Workspace::new(ws(OTHER), "Other".to_owned(), WorkspaceIconData::Emoji("🗒".to_owned()));
    assert_eq!(manager.add(workspace), Ok(()));
    assert_eq!(order_of(&manager), vec![OTHER, HOME, NOTES, WORK]);
    assert!(manager.is_loaded(ws(OTHER)));
    let summary = manager.list_metadata().get(&OTHER).unwrap();
    assert_eq!(summary.name(), "Other");
    assert_eq!(summary.icon(), &WorkspaceIconData::Emoji("🗒".to_owned()));
    assert_eq!(manager.selected(), ws(NOTES));
}

#[test]
fn adding_a_known_workspace_fails_already_exists() {
    let mut manager = manager();
    let again = Workspace::new(ws(NOTES), "Copy".to_owned(), WorkspaceIconData::Default);
    assert_eq!(manager.add(again), Err(WorkspaceError::AlreadyExists));
    assert_eq!(order_of(&manager), vec![HOME, NOTES, WORK]);
    assert_eq!(manager.list_metadata().get(&NOTES).unwrap().name(), "Notes");
    assert!(!manager.is_loaded(ws(NOTES)));
}

#[test]
fn removing_the_home_workspace_always_fails() {
    let mut manager = manager();
    assert_eq!(manager.remove(ws(HOME)).err(), Some(WorkspaceError::CannotRemoveHome));
    assert_eq!(order_of(&manager), vec![HOME, NOTES, WORK]);

    let (data, created) = read_registry(Stored::Missing).unwrap();
    let home = data.home;
    let mut fresh = WorkspaceManager::initialize(Ok((data, created)), Ok(Vec::new())).unwrap().0;
    assert_eq!(fresh.remove(home).err(), Some(WorkspaceError::CannotRemoveHome));
    assert!(fresh.is_loaded(home));
    assert_eq!(fresh.order(), &vec![home]);
}

#[test]
fn removing_an_unknown_workspace_fails_not_found() {
    let mut manager = manager();
    assert_eq!(manager.remove(ws(OTHER)).err(), Some(WorkspaceError::NotFound));
    assert_eq!(order_of(&manager), vec![HOME, NOTES, WORK]);
}

#[test]
fn removed_workspace_leaves_order_summaries_and_memory() {
    let mut manager = manager();
    manager.add(Workspace::new(ws(OTHER), "Other".to_owned(), WorkspaceIconData::Default)).unwrap();
    let removed = manager.remove(ws(OTHER)).unwrap();
    assert_eq!(removed.map(|workspace| workspace.id()), Some(ws(OTHER)));
    assert_eq!(order_of(&manager), vec![HOME, NOTES, WORK]);
    assert!(manager.list_metadata().get(&OTHER).is_none());
    assert!(!manager.is_loaded(ws(OTHER)));
    assert_eq!(manager.selected(), ws(NOTES));
}

#[test]
fn removing_the_selected_workspace_selects_home() {
    let mut manager = manager();
    assert_eq!(manager.selected(), ws(NOTES));
    assert!(manager.remove(ws(NOTES)).unwrap().is_none());
    assert_eq!(manager.selected(), ws(HOME));
    assert_eq!(order_of(&manager), vec![HOME, WORK]);
}

#[test]
fn stored_list_is_home_order_and_selection() {
    let mut manager = manager();
    manager.open(token(), ws(WORK));
    let data = manager.to_data();
    assert_eq!(data, list(&[HOME, NOTES, WORK], WORK));
}

#[test]
fn rename_reaches_summary_and_workspace() {
    let mut manager = manager();
    // a workspace that is not in memory cannot be renamed
    assert_eq!(manager.rename(ws(NOTES), "Journal".to_owned()), Err(WorkspaceError::NotFound));
    assert_eq!(manager.list_metadata().get(&NOTES).unwrap().name(), "Notes");

    manager.add(Workspace::new(ws(OTHER), "Other".to_owned(), WorkspaceIconData::Home)).unwrap();
    assert_eq!(
        manager.rename(ws(OTHER), "Else".to_owned()),
        Ok(vec![Effect::SaveWorkspace { workspace: ws(OTHER) }])
    );
    assert_eq!(manager.list_metadata().get(&OTHER).unwrap().name(), "Else");
    assert_eq!(manager.list_metadata().get(&OTHER).unwrap().icon(), &WorkspaceIconData::Home);
    assert_eq!(manager.get(ws(OTHER)).unwrap().name(), "Else");
    assert_eq!(manager.rename(ws(0x55), "Nobody".to_owned()), Err(WorkspaceError::NotFound));
}

#[test]
fn tab_intents_go_to_the_loaded_workspace() {
    let mut manager = manager();
    manager.open(token(), ws(WORK));
    let read = descriptor(WORK, "Work", &[0xa, 0xb], Some(0xa));
    manager.finish_load(token(), ws(WORK), bounds(), Ok((read, Vec::new()))).unwrap();

    assert_eq!(
        manager.select_tab(token(), ws(WORK), tab_id(0xb)),
        Ok(vec![
            Effect::SetHidden { tab: tab_id(0xa), hidden: true },
            Effect::SetHidden { tab: tab_id(0xb), hidden: false },
        ])
    );
    assert_eq!(manager.get(ws(WORK)).unwrap().selected_tab(), Some(tab_id(0xb)));

    let (created, _) = manager
        .create_tab(token(), ws(WORK), bounds(), TabLocationData::NativeHomePage, true)
        .unwrap();
    assert_eq!(manager.get(ws(WORK)).unwrap().selected_tab(), Some(created));
    assert_eq!(manager.get(ws(WORK)).unwrap().tab_order().len(), 3);

    assert_eq!(
        manager.close_tab(token(), ws(WORK), created),
        Ok(vec![
            Effect::CloseView { tab: created },
            Effect::SaveWorkspace { workspace: ws(WORK) },
        ])
    );
    assert_eq!(manager.get(ws(WORK)).unwrap().selected_tab(), None);

    let there = TabLocationData::WebPage { url: "https://example.org".to_owned() };
    assert_eq!(
        manager.navigate_tab(ws(WORK), tab_id(0xa), there),
        Ok(vec![Effect::SaveTab { tab: tab_id(0xa) }, Effect::Navigate { tab: tab_id(0xa) }])
    );
}

#[test]
fn tab_intents_fail_not_found_without_workspace_or_tab() {
    let mut manager = manager();
    assert_eq!(
        manager.select_tab(token(), ws(WORK), tab_id(0xa)),
        Err(WorkspaceError::NotFound)
    );
    assert_eq!(
        manager.close_tab(token(), ws(WORK), tab_id(0xa)),
        Err(WorkspaceError::NotFound)
    );
    assert_eq!(
        manager
            .create_tab(token(), ws(WORK), bounds(), TabLocationData::NativeHomePage, true)
            .err(),
        Some(WorkspaceError::NotFound)
    );
    assert_eq!(
        manager.navigate_tab(ws(WORK), tab_id(0xa), TabLocationData::NativeHomePage),
        Err(WorkspaceError::NotFound)
    );
    manager.add(Workspace::new(ws(OTHER), "Other".to_owned(), WorkspaceIconData::Default)).unwrap();
    assert_eq!(
        manager.select_tab(token(), ws(OTHER), tab_id(0xa)),
        Err(WorkspaceError::NotFound)
    );
    assert_eq!(
        manager.close_tab(token(), ws(OTHER), tab_id(0xa)),
        Err(WorkspaceError::NotFound)
    );
}

#[test]
fn resize_reaches_every_loaded_workspace_in_order() {
    let mut manager = manager();
    assert!(manager.resize(token(), bounds()).is_empty());
    for (value, tabs) in [(WORK, vec![0xc_u128]), (HOME, vec![0xa, 0xb])] {
        manager.open(token(), ws(value));
        let read = descriptor(value, "Loaded", &tabs, None);
        manager.finish_load(token(), ws(value), bounds(), Ok((read, Vec::new()))).unwrap();
    }
    assert_eq!(
        manager.resize(token(), bounds()),
        vec![
            Effect::Resize { tab: tab_id(0xa), bounds: bounds() },
            Effect::Resize { tab: tab_id(0xb), bounds: bounds() },
            Effect::Resize { tab: tab_id(0xc), bounds: bounds() },
        ]
    );
}

#[test]
fn error_messages() {
    assert_eq!(WorkspaceError::NotFound.message(), "the workspace, tab or file does not exist");
    assert_eq!(WorkspaceError::AlreadyExists.message(), "the workspace or tab exists already");
    assert_eq!(WorkspaceError::Corrupt.message(), "the stored workspace is damaged");
    assert_eq!(WorkspaceError::AlreadyLoaded.message(), "the tab is loaded already");
    assert_eq!(
        WorkspaceError::CannotRemoveHome.message(),
        "the home workspace cannot be removed"
    );
    assert_eq!(WorkspaceError::Fatal.message(), "the workspace list could not be set up");
}

#[test]
fn reports_and_failures_of_a_view_reach_the_loaded_workspace() {
    let mut manager = manager();
    manager.open(token(), ws(WORK));
    let read = descriptor(WORK, "Work", &[0xa, 0xb], Some(0xa));
    manager.finish_load(token(), ws(WORK), bounds(), Ok((read, Vec::new()))).unwrap();

    assert!(manager.on_tab_title_change(ws(WORK), tab_id(0xa), "Example".to_owned()));
    assert!(manager.on_tab_url_change(ws(WORK), tab_id(0xa), "https://example.net".to_owned()));
    assert!(!manager.on_tab_title_change(ws(WORK), tab_id(0xc), "Nobody".to_owned()));
    assert!(!manager.on_tab_url_change(ws(NOTES), tab_id(0xa), "https://example.net".to_owned()));
    let tab = manager.get(ws(WORK)).unwrap().get_tab(tab_id(0xa)).unwrap();
    assert_eq!(tab.title(), "Example");
    assert_eq!(
        tab.location(),
        TabLocationData::WebPage { url: "https://example.net".to_owned() }
    );

    // the view of a tab could not be created: the tab is passed over
    assert_eq!(manager.discard_tab(ws(WORK), tab_id(0xa)), Ok(()));
    let workspace = manager.get(ws(WORK)).unwrap();
    assert_eq!(workspace.tab_order(), &vec![tab_id(0xb)]);
    assert_eq!(workspace.selected_tab(), None);
    assert_eq!(manager.discard_tab(ws(WORK), tab_id(0xa)), Err(WorkspaceError::NotFound));
    assert_eq!(manager.discard_tab(ws(NOTES), tab_id(0xb)), Err(WorkspaceError::NotFound));
}
