use memex_core::data::{get_url, TabData, TabLocationData, WorkspaceIconData};
use memex_core::effect::Effect;
use memex_core::error::WorkspaceError;
use memex_core::geometry::{WebViewBounds, WindowSize};
use memex_core::id::{Id, TabMarker};
use memex_core::tab::{Tab, TabLocation};
use memex_core::token::UIThreadMarker;

fn token() -> UIThreadMarker {
    UIThreadMarker::new(true).unwrap()
}

fn bounds() -> WebViewBounds {
    WebViewBounds {
        x: 10,
        y: 20,
        width: 300,
        height: 200,
        window_size: WindowSize { width: 310, height: 220 },
    }
}

fn web(url: &str) -> TabLocationData {
    TabLocationData::WebPage { url: url.to_owned() }
}

fn tab(value: u128, url: &str) -> Tab {
    Tab::new(TabData { id: Id::from_value(value), location: web(url) })
}

#[test]
fn marker_is_handed_out_only_on_the_ui_thread() {
    assert!(UIThreadMarker::new(true).is_some());
    assert!(UIThreadMarker::new(false).is_none());
}

#[test]
fn location_type_tags() {
    assert_eq!(web("https://example.com").type_tag(), "WebPage");
    assert_eq!(
        TabLocationData::FileViewer { path: "/tmp/a.txt".to_owned() }.type_tag(),
        "FileViewer"
    );
    assert_eq!(TabLocationData::NativeHomePage.type_tag(), "NativeHomePage");
}

#[test]
fn location_sources() {
    assert_eq!(web("https://example.com").source(), Some("https://example.com".to_owned()));
    assert_eq!(
        TabLocationData::FileViewer { path: "/tmp/a.txt".to_owned() }.source(),
        Some("/tmp/a.txt".to_owned())
    );
    assert_eq!(TabLocationData::NativeHomePage.source(), None);
}

#[test]
fn start_url_of_a_location() {
    assert_eq!(get_url(&web("https://example.com/a")), "https://example.com/a");
    assert_eq!(get_url(&TabLocationData::NativeHomePage), "https://www.google.com");
}

#[test]
fn default_icon_is_the_default_variant() {
    assert_eq!(WorkspaceIconData::default(), WorkspaceIconData::Default);
}

#[test]
fn new_tab_is_unloaded_and_keeps_its_location() {
    let tab = tab(1, "https://example.com");
    assert_eq!(tab.id().value(), 1);
    assert!(!tab.is_loaded());
    assert!(!tab.is_visible());
    assert_eq!(tab.location(), web("https://example.com"));
    assert_eq!(tab.title(), "Untitled");
}

#[test]
fn load_creates_a_hidden_view() {
    let mut tab = tab(1, "https://example.com");
    let effect = tab.load(token(), bounds());
    assert_eq!(effect, Ok(Effect::CreateView { tab: Id::from_value(1), bounds: bounds() }));
    assert!(tab.is_loaded());
    assert!(!tab.is_visible());
}

#[test]
fn load_twice_fails_already_loaded() {
    let mut tab = tab(1, "https://example.com");
    assert!(tab.load(token(), bounds()).is_ok());
    assert_eq!(tab.load(token(), bounds()), Err(WorkspaceError::AlreadyLoaded));
    assert!(tab.is_loaded());
}

#[test]
fn set_hidden_toggles_visibility() {
    let mut tab = tab(2, "https://example.com");
    tab.load(token(), bounds()).unwrap();
    assert_eq!(
        tab.set_hidden(token(), false),
        Effect::SetHidden { tab: Id::from_value(2), hidden: false }
    );
    assert!(tab.is_visible());
    assert_eq!(
        tab.set_hidden(token(), true),
        Effect::SetHidden { tab: Id::from_value(2), hidden: true }
    );
    assert!(!tab.is_visible());
    assert!(tab.is_loaded());
}

#[test]
fn navigate_unloaded_only_stores_the_location() {
    let mut tab = tab(3, "https://example.com");
    let effects = tab.navigate(web("https://example.org"));
    assert_eq!(effects, vec![Effect::SaveTab { tab: Id::from_value(3) }]);
    assert_eq!(tab.location(), web("https://example.org"));
    assert!(!tab.is_loaded());
}

#[test]
fn navigate_loaded_sends_the_view_there() {
    let mut tab = tab(3, "https://example.com");
    tab.load(token(), bounds()).unwrap();
    let effects = tab.navigate(web("https://example.org"));
    assert_eq!(
        effects,
        vec![
            Effect::SaveTab { tab: Id::from_value(3) },
            Effect::Navigate { tab: Id::from_value(3) }
        ]
    );
    assert_eq!(tab.location(), web("https://example.org"));
}

#[test]
fn close_releases_the_view_and_keeps_the_location() {
    let mut tab = tab(4, "https://example.com");
    tab.load(token(), bounds()).unwrap();
    tab.set_hidden(token(), false);
    tab.on_title_change("Example".to_owned());
    assert_eq!(tab.close(token()), Effect::CloseView { tab: Id::from_value(4) });
    assert!(!tab.is_loaded());
    assert!(!tab.is_visible());
    assert_eq!(tab.title(), "Untitled");
    assert_eq!(tab.location(), web("https://example.com"));
    assert!(tab.load(token(), bounds()).is_ok());
}

#[test]
fn title_is_the_reported_one_while_loaded() {
    let mut tab = tab(5, "https://example.com");
    tab.on_title_change("Ignored".to_owned());
    assert_eq!(tab.title(), "Untitled");
    tab.load(token(), bounds()).unwrap();
    assert_eq!(tab.title(), "Untitled");
    tab.on_title_change("Example Domain".to_owned());
    assert_eq!(tab.title(), "Example Domain");
}

#[test]
fn reported_url_becomes_the_location_of_a_loaded_tab() {
    let mut tab = Tab::new(TabData {
        id: Id::from_value(6),
        location: TabLocationData::NativeHomePage,
    });
    tab.on_url_change("https://ignored.example".to_owned());
    assert_eq!(tab.location(), TabLocationData::NativeHomePage);
    tab.load(token(), bounds()).unwrap();
    tab.on_url_change("https://www.google.com/search".to_owned());
    assert_eq!(tab.location(), web("https://www.google.com/search"));
}

#[test]
fn resize_reaches_only_a_loaded_tab() {
    let mut tab = tab(7, "https://example.com");
    assert_eq!(tab.resize(token(), bounds()), None);
    tab.load(token(), bounds()).unwrap();
    assert_eq!(
        tab.resize(token(), bounds()),
        Some(Effect::Resize { tab: Id::from_value(7), bounds: bounds() })
    );
}

#[test]
fn tab_descriptor_holds_identifier_and_location() {
    let mut tab = tab(8, "https://example.com");
    tab.navigate(web("https://example.net"));
    let data = tab.to_data();
    assert_eq!(data, TabData { id: Id::<TabMarker>::from_value(8), location: web("https://example.net") });
}

#[test]
fn tab_at_the_built_in_home_page() {
    let mut home = Tab::new(TabData { id: Id::from_value(9), location: TabLocationData::NativeHomePage });
    assert!(home.is_native_homepage());
    assert!(!tab(1, "https://example.com").is_native_homepage());
    home.navigate(web("https://example.com"));
    assert!(!home.is_native_homepage());
}

#[test]
fn location_given_by_hand_becomes_a_stored_location() {
    assert_eq!(
        TabLocation::WebPage { url: "https://example.com".to_owned() }.into_data(),
        web("https://example.com")
    );
    assert_eq!(
        TabLocation::FileViewer { path: "/tmp/a.txt".to_owned() }.into_data(),
        TabLocationData::FileViewer { path: "/tmp/a.txt".to_owned() }
    );
}
