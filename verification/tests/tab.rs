use file_search::panel::{Counter, Panel, PanelPage};
use file_search::tab::{TabControl, TabHeader, TabItem, TabItemView, TabMessages};
use file_search::{Command, DirEntry, Listed, Message, SearchMessage, SearchUi};

struct TM;

impl TabMessages<Message> for TM {
    fn tab_selected(id: i16) -> Message {
        Message::TabSelected(id)
    }
}

fn three_tabs() -> TabControl<Panel> {
    let mut tabs = TabControl::new();
    tabs.add("Search", Panel::Search(SearchUi::with_page_size(1)));
    tabs.add("Test 1", Panel::Counter(Counter::default()));
    tabs.add("Test 2", Panel::Counter(Counter::default()));
    tabs
}

fn count_of(tabs: &TabControl<Panel>) -> Option<i32> {
    match tabs.view::<TM>().content {
        Some(PanelPage::Counter(cnt)) => Some(cnt),
        _ => None,
    }
}

fn file(path: &str) -> Listed {
    Ok(DirEntry { path: path.to_string(), directory: Some(false) })
}

#[test]
fn empty_container_shows_nothing() {
    let tabs: TabControl<Panel> = TabControl::new();
    assert_eq!(tabs.len(), 0);
    assert_eq!(tabs.selected(), None);
    let page = tabs.view::<TM>();
    assert!(page.tabs.is_empty());
    assert_eq!(page.content, None);
}

#[test]
fn first_panel_added_becomes_active() {
    let mut tabs: TabControl<Panel> = TabControl::new();
    tabs.add("One", Panel::Counter(Counter { cnt: 7 }));
    assert_eq!(tabs.selected(), Some(0));
    tabs.add("Two", Panel::Counter(Counter { cnt: 9 }));
    assert_eq!(tabs.selected(), Some(0));
    assert_eq!(tabs.len(), 2);
    assert_eq!(count_of(&tabs), Some(7));
}

#[test]
fn headers_come_in_the_order_of_insertion() {
    let tabs = three_tabs();
    let page = tabs.view::<TM>();
    assert_eq!(
        page.tabs,
        vec![
            TabHeader { label: "Search".to_string(), active: true, on_press: Message::TabSelected(0) },
            TabHeader { label: "Test 1".to_string(), active: false, on_press: Message::TabSelected(1) },
            TabHeader { label: "Test 2".to_string(), active: false, on_press: Message::TabSelected(2) },
        ]
    );
    assert!(matches!(page.content, Some(PanelPage::Search(_))));
}

#[test]
fn select_tab_changes_the_active_panel() {
    let mut tabs = three_tabs();
    tabs.select_tab(2);
    assert_eq!(tabs.selected(), Some(2));
    let page = tabs.view::<TM>();
    assert!(!page.tabs[0].active);
    assert!(!page.tabs[1].active);
    assert!(page.tabs[2].active);
    assert_eq!(page.content, Some(PanelPage::Counter(0)));
}

#[test]
fn select_of_an_unknown_tab_shows_no_panel() {
    let mut tabs = three_tabs();
    tabs.select_tab(17);
    assert_eq!(tabs.selected(), Some(17));
    let page = tabs.view::<TM>();
    assert_eq!(page.content, None);
    assert_eq!(page.tabs.len(), 3);
    assert!(page.tabs.iter().all(|tab| !tab.active));

    tabs.select_tab(-1);
    assert_eq!(tabs.view::<TM>().content, None);

    tabs.select_tab(3);
    assert_eq!(tabs.view::<TM>().content, None);
}

#[test]
fn update_with_an_unknown_tab_changes_nothing() {
    let mut tabs = three_tabs();
    tabs.select_tab(9);
    assert_eq!(tabs.update(Message::Inc), Command::Idle);
    tabs.select_tab(1);
    assert_eq!(count_of(&tabs), Some(0));
    tabs.select_tab(2);
    assert_eq!(count_of(&tabs), Some(0));
}

#[test]
fn update_of_an_empty_container_is_idle() {
    let mut tabs: TabControl<Panel> = TabControl::new();
    assert_eq!(tabs.update(Message::Inc), Command::Idle);
    assert_eq!(tabs.len(), 0);
}

#[test]
fn update_reaches_the_active_panel_only() {
    let mut tabs = three_tabs();
    tabs.select_tab(1);
    assert_eq!(tabs.update(Message::Inc), Command::Idle);
    assert_eq!(tabs.update(Message::Inc), Command::Idle);
    assert_eq!(count_of(&tabs), Some(2));
    tabs.select_tab(2);
    assert_eq!(count_of(&tabs), Some(0));
    tabs.update(Message::Inc);
    assert_eq!(count_of(&tabs), Some(1));
    tabs.select_tab(1);
    assert_eq!(count_of(&tabs), Some(2));
}

#[test]
fn search_on_an_inactive_tab_is_frozen() {
    let mut tabs = three_tabs();
    tabs.update(Message::SearchMsg(SearchMessage::InputChanged("a".to_string())));
    assert_eq!(
        tabs.update(Message::SearchMsg(SearchMessage::SearchPressed("a".to_string()))),
        Command::Search("a".to_string())
    );
    tabs.select_tab(1);
    assert_eq!(tabs.update(Message::Listing(Ok(vec![file("/a1"), file("/a2"), file("/a3")]))), Command::Idle);
    assert_eq!(tabs.update(Message::SearchMsg(SearchMessage::InputChanged("zzz".to_string()))), Command::Idle);
    assert_eq!(count_of(&tabs), Some(0));

    tabs.select_tab(0);
    match tabs.view::<TM>().content {
        Some(PanelPage::Search(page)) => {
            assert!(page.searching);
            assert_eq!(page.search_text, "a");
            assert!(page.results.is_empty());
        }
        other => panic!("no search page: {:?}", other),
    }
    assert_eq!(tabs.update(Message::Listing(Ok(vec![file("/a1"), file("/a2"), file("/a3")]))), Command::Idle);
    match tabs.view::<TM>().content {
        Some(PanelPage::Search(page)) => {
            assert!(!page.searching);
            assert_eq!(page.results.len(), 2);
            assert!(page.show_more);
        }
        other => panic!("no search page: {:?}", other),
    }
}

#[test]
fn update_hands_the_command_of_the_panel_on() {
    let mut tabs = three_tabs();
    assert_eq!(
        tabs.update(Message::SearchMsg(SearchMessage::ItemSelected("/f".to_string()))),
        Command::OpenFile("/f".to_string())
    );
}

#[test]
fn tab_header_carries_label_and_message() {
    let tab = TabItem::new("Files", 4);
    assert_eq!(
        tab.tab_header::<Message, TM>(true),
        TabHeader { label: "Files".to_string(), active: true, on_press: Message::TabSelected(4) }
    );
    assert!(!tab.tab_header::<Message, TM>(false).active);
}

#[test]
fn counter_counts_presses() {
    let mut counter = Counter::default();
    assert_eq!(counter.view(), 0);
    assert_eq!(counter.update(Message::Inc), Command::Idle);
    assert_eq!(counter.update(Message::Inc), Command::Idle);
    assert_eq!(counter.view(), 2);
    assert_eq!(counter.update(Message::TabSelected(0)), Command::Idle);
    assert_eq!(counter.cnt, 2);
}

#[test]
fn counter_wraps_after_the_largest_count() {
    let mut counter = Counter { cnt: i32::MAX };
    counter.update(Message::Inc);
    assert_eq!(counter.cnt, i32::MIN);
    counter.update(Message::Inc);
    assert_eq!(counter.cnt, i32::MIN + 1);
}
