use file_search::tab::TabItemView;
use file_search::{
    Command, DirEntry, Listed, Message, Pull, ResultItem, Search, SearchError, SearchMessage,
    SearchUi, PAGE_SIZE,
};

fn file(path: &str) -> Listed {
    Ok(DirEntry { path: path.to_string(), directory: Some(false) })
}

fn dir(path: &str) -> Listed {
    Ok(DirEntry { path: path.to_string(), directory: Some(true) })
}

fn list(path: &str) -> Result<Vec<Listed>, SearchError> {
    match path {
        "/root" => Ok(vec![dir("/root/sub"), file("/root/a.txt")]),
        "/root/sub" => Ok(vec![file("/root/sub/b.txt"), dir("/root/sub/deep")]),
        "/root/sub/deep" => Ok(vec![file("/root/sub/deep/c.txt")]),
        "/lot" => Ok(vec![
            file("/lot/m1"),
            file("/lot/x"),
            file("/lot/m2"),
            Err(SearchError::General),
            file("/lot/m3"),
            dir("/lot/d"),
            file("/lot/m6"),
        ]),
        "/lot/d" => Ok(vec![file("/lot/d/m4"), file("/lot/d/m5")]),
        _ => Err(SearchError::General),
    }
}

fn page(session: &mut SearchUi) {
    loop {
        match session.load_more_page() {
            Pull::Open(path) => session.descend(list(&path)),
            Pull::Ready => return,
        }
    }
}

fn found(session: &SearchUi) -> Vec<String> {
    session.results().iter().map(|item| item.path.clone()).collect()
}

fn item(path: &str) -> ResultItem {
    ResultItem { path: path.to_string() }
}

#[test]
fn fresh_session_is_idle() {
    let session = SearchUi::with_page_size(3);
    assert_eq!(session.query(), "");
    assert!(session.results().is_empty());
    assert!(!session.more_available());
    assert!(!session.is_active());
    assert!(!session.has_traversal());
    assert_eq!(session.page_size(), 3);
}

#[test]
fn default_session_has_the_default_page_size() {
    let session = SearchUi::default();
    assert_eq!(PAGE_SIZE, 50);
    assert_eq!(session.page_size(), 50);
    assert!(!session.has_traversal());
}

#[test]
fn default_result_item_is_empty() {
    assert_eq!(ResultItem::default(), item(""));
}

#[test]
fn one_match_in_a_small_tree() {
    let mut session = SearchUi::with_page_size(1);
    assert_eq!(session.start(list("/root"), "b.txt".to_string()), Ok(()));
    assert!(session.has_traversal());
    page(&mut session);
    assert_eq!(found(&session), vec!["/root/sub/b.txt"]);
    assert!(!session.more_available());
    assert!(!session.has_traversal());

    page(&mut session);
    assert_eq!(found(&session), vec!["/root/sub/b.txt"]);
    assert!(!session.more_available());
}

#[test]
fn query_is_matched_against_directory_names_too() {
    let mut session = SearchUi::with_page_size(1);
    assert_eq!(session.start(list("/root"), "b".to_string()), Ok(()));
    page(&mut session);
    assert_eq!(found(&session), vec!["/root/sub/b.txt", "/root/sub/deep/c.txt"]);
    assert!(session.more_available());
    assert!(session.has_traversal());

    page(&mut session);
    assert_eq!(found(&session), vec!["/root/sub/b.txt", "/root/sub/deep/c.txt"]);
    assert!(!session.more_available());
    assert!(!session.has_traversal());

    page(&mut session);
    assert_eq!(found(&session), vec!["/root/sub/b.txt", "/root/sub/deep/c.txt"]);
    assert!(!session.more_available());
}

#[test]
fn start_on_a_missing_root_returns_the_error() {
    let mut session = SearchUi::with_page_size(1);
    session.set_query("b".to_string());
    assert_eq!(session.start(list("/missing"), "b".to_string()), Err(SearchError::General));
    assert_eq!(session.query(), "b");
    assert!(session.results().is_empty());
    assert!(!session.more_available());
    assert!(!session.has_traversal());
    assert!(!session.is_active());
    assert_eq!(session.page_size(), 1);
}

#[test]
fn start_passes_the_kind_of_error_on() {
    let mut session = SearchUi::with_page_size(1);
    assert_eq!(
        session.start(Err(SearchError::InvalidPath), String::new()),
        Err(SearchError::InvalidPath)
    );
}

#[test]
fn failed_start_drops_the_search_before() {
    let mut session = SearchUi::with_page_size(0);
    session.start(list("/lot"), "m".to_string()).unwrap();
    page(&mut session);
    assert_eq!(found(&session), vec!["/lot/m1"]);
    assert!(session.more_available());
    assert_eq!(session.start(list("/missing"), "m".to_string()), Err(SearchError::General));
    assert!(session.results().is_empty());
    assert!(!session.more_available());
    assert!(!session.has_traversal());
    page(&mut session);
    assert!(session.results().is_empty());
}

#[test]
fn page_holds_one_match_more_than_the_page_size() {
    let mut session = SearchUi::with_page_size(1);
    session.start(list("/lot"), "m".to_string()).unwrap();
    page(&mut session);
    assert_eq!(found(&session), vec!["/lot/m1", "/lot/m2"]);
    assert!(session.more_available());
    assert!(session.has_traversal());
    assert!(!session.is_active());

    page(&mut session);
    assert_eq!(found(&session), vec!["/lot/m1", "/lot/m2", "/lot/m3", "/lot/d/m4"]);
    assert!(session.more_available());

    page(&mut session);
    assert_eq!(
        found(&session),
        vec!["/lot/m1", "/lot/m2", "/lot/m3", "/lot/d/m4", "/lot/d/m5", "/lot/m6"]
    );
    assert!(session.more_available());
    assert!(session.has_traversal());

    page(&mut session);
    assert_eq!(session.results().len(), 6);
    assert!(!session.more_available());
    assert!(!session.has_traversal());
}

#[test]
fn page_of_size_zero_holds_one_match() {
    let mut session = SearchUi::with_page_size(0);
    session.start(list("/lot"), "m".to_string()).unwrap();
    for expected in 1..=6 {
        page(&mut session);
        assert_eq!(session.results().len(), expected);
        assert!(session.more_available());
    }
    page(&mut session);
    assert_eq!(session.results().len(), 6);
    assert!(!session.more_available());
}

#[test]
fn large_page_takes_everything_at_once() {
    let mut session = SearchUi::with_page_size(usize::MAX);
    session.start(list("/lot"), "m".to_string()).unwrap();
    page(&mut session);
    assert_eq!(session.results().len(), 6);
    assert!(!session.more_available());
    assert!(!session.has_traversal());
}

#[test]
fn pull_stops_at_a_directory_and_goes_on_with_the_same_page() {
    let mut session = SearchUi::with_page_size(10);
    session.start(list("/lot"), "m".to_string()).unwrap();
    assert_eq!(session.load_more_page(), Pull::Open("/lot/d".to_string()));
    assert!(session.is_active());
    assert_eq!(found(&session), vec!["/lot/m1", "/lot/m2", "/lot/m3"]);
    session.descend(list("/lot/d"));
    assert_eq!(session.load_more_page(), Pull::Ready);
    assert!(!session.is_active());
    assert_eq!(session.results().len(), 6);
}

#[test]
fn empty_query_finds_every_file() {
    let mut session = SearchUi::with_page_size(2);
    session.start(list("/root"), String::new()).unwrap();
    while session.has_traversal() {
        page(&mut session);
    }
    assert_eq!(found(&session), vec!["/root/sub/b.txt", "/root/sub/deep/c.txt", "/root/a.txt"]);
    assert!(!session.more_available());
}

#[test]
fn results_do_not_depend_on_the_page_size() {
    let mut expected = SearchUi::with_page_size(usize::MAX);
    expected.start(list("/lot"), "m".to_string()).unwrap();
    page(&mut expected);
    for size in 0..8 {
        let mut session = SearchUi::with_page_size(size);
        session.start(list("/lot"), "m".to_string()).unwrap();
        while session.has_traversal() {
            page(&mut session);
        }
        assert_eq!(found(&session), found(&expected));
    }
}

#[test]
fn matching_ignores_case() {
    let root = vec![file("/Docs/README.TXT"), file("/docs/notes.md"), file("/src/readme.rs")];
    let mut session = SearchUi::with_page_size(10);
    session.start(Ok(root), "ReadMe".to_string()).unwrap();
    page(&mut session);
    assert_eq!(found(&session), vec!["/Docs/README.TXT", "/src/readme.rs"]);
}

#[test]
fn upper_case_query_matches_lower_case_path() {
    let mut session = SearchUi::with_page_size(10);
    session.start(list("/root"), "B.TXT".to_string()).unwrap();
    page(&mut session);
    assert_eq!(found(&session), vec!["/root/sub/b.txt"]);
}

#[test]
fn matching_looks_at_the_whole_path() {
    let mut session = SearchUi::with_page_size(10);
    session.start(list("/root"), "sub/".to_string()).unwrap();
    page(&mut session);
    assert_eq!(found(&session), vec!["/root/sub/b.txt", "/root/sub/deep/c.txt"]);
}

#[test]
fn entry_errors_are_passed_over_and_not_counted() {
    let root = vec![Err(SearchError::General), Err(SearchError::InvalidPath), file("/m1"), file("/m2")];
    let mut session = SearchUi::with_page_size(1);
    session.start(Ok(root), "m".to_string()).unwrap();
    page(&mut session);
    assert_eq!(found(&session), vec!["/m1", "/m2"]);
    assert!(session.more_available());
    page(&mut session);
    assert_eq!(session.results().len(), 2);
    assert!(!session.more_available());
}

#[test]
fn load_more_page_without_a_walk_changes_nothing() {
    let mut session = SearchUi::with_page_size(1);
    session.set_query("q".to_string());
    assert_eq!(session.load_more_page(), Pull::Ready);
    assert_eq!(session.query(), "q");
    assert!(session.results().is_empty());
    assert!(!session.more_available());
    assert!(!session.has_traversal());
    assert!(!session.is_active());
}

#[test]
fn descend_without_a_walk_changes_nothing() {
    let mut session = SearchUi::with_page_size(1);
    session.descend(list("/root"));
    assert!(!session.has_traversal());
    assert_eq!(session.load_more_page(), Pull::Ready);
    assert!(session.results().is_empty());
}

#[test]
fn set_query_applies_to_what_is_pulled_afterwards() {
    let mut session = SearchUi::with_page_size(0);
    session.start(list("/lot"), "m".to_string()).unwrap();
    page(&mut session);
    assert_eq!(found(&session), vec!["/lot/m1"]);
    session.set_query("x".to_string());
    assert_eq!(session.query(), "x");
    assert_eq!(found(&session), vec!["/lot/m1"]);
    assert!(session.has_traversal());
    page(&mut session);
    assert_eq!(found(&session), vec!["/lot/m1", "/lot/x"]);
}

#[test]
fn start_clears_the_results_of_the_search_before() {
    let mut session = SearchUi::with_page_size(10);
    session.start(list("/lot"), "m".to_string()).unwrap();
    page(&mut session);
    assert_eq!(session.results().len(), 6);
    session.start(list("/root"), "c".to_string()).unwrap();
    assert!(session.results().is_empty());
    assert_eq!(session.query(), "c");
    page(&mut session);
    assert_eq!(found(&session), vec!["/root/sub/deep/c.txt"]);
}

#[test]
fn select_asks_to_open_the_file() {
    let mut session = SearchUi::with_page_size(1);
    session.start(list("/root"), "b".to_string()).unwrap();
    assert_eq!(session.select("/root/a.txt".to_string()), Command::OpenFile("/root/a.txt".to_string()));
    assert!(session.has_traversal());
    assert!(session.results().is_empty());
}

#[test]
fn search_new_keeps_its_arguments() {
    let search = Search::new("needle".to_string(), "/home".to_string());
    assert_eq!(search.query, "needle");
    assert_eq!(search.path, "/home");
}

#[test]
fn run_collects_the_matches() {
    let walked =
        vec![file("/a/One.TXT"), file("/a/two.txt"), Err(SearchError::General), file("/a/three.txt")];
    let search = Search::new("E.Txt".to_string(), "/a".to_string());
    assert_eq!(search.run(Ok(walked)), Ok(vec![item("/a/One.TXT"), item("/a/three.txt")]));
}

#[test]
fn run_on_nothing_finds_nothing() {
    let search = Search::new("x".to_string(), "/a".to_string());
    assert_eq!(search.run(Ok(Vec::new())), Ok(Vec::new()));
}

#[test]
fn run_fails_where_the_root_failed() {
    let search = Search::new("x".to_string(), "/a".to_string());
    assert_eq!(search.run(Err(SearchError::General)), Err(SearchError::General));
    let search = Search::new("x".to_string(), "/a".to_string());
    assert_eq!(search.run(Err(SearchError::InvalidPath)), Err(SearchError::General));
}

#[test]
fn run_fails_on_a_path_that_is_no_text() {
    let walked = vec![file("/a/x1"), Err(SearchError::InvalidPath), file("/a/x2")];
    let search = Search::new("x".to_string(), "/a".to_string());
    assert_eq!(search.run(Ok(walked)), Err(SearchError::InvalidPath));
}

#[test]
fn input_changed_replaces_the_query() {
    let mut panel = SearchUi::with_page_size(1);
    let command = panel.handle_message(SearchMessage::InputChanged("abc".to_string()));
    assert_eq!(command, Command::Idle);
    assert_eq!(panel.query(), "abc");
    assert!(!panel.is_active());
}

#[test]
fn item_selected_asks_to_open_the_file() {
    let mut panel = SearchUi::with_page_size(1);
    let command = panel.handle_message(SearchMessage::ItemSelected("/root/a.txt".to_string()));
    assert_eq!(command, Command::OpenFile("/root/a.txt".to_string()));
    assert!(!panel.is_active());
    assert!(panel.results().is_empty());
}

#[test]
fn search_pressed_clears_and_asks_for_the_root() {
    let mut panel = SearchUi::with_page_size(0);
    panel.start(list("/lot"), "m".to_string()).unwrap();
    page(&mut panel);
    assert!(panel.more_available());
    let command = panel.handle_message(SearchMessage::SearchPressed("m".to_string()));
    assert_eq!(command, Command::Search("m".to_string()));
    assert!(panel.is_active());
    assert!(panel.results().is_empty());
    assert!(!panel.more_available());
    assert!(!panel.has_traversal());
    assert_eq!(panel.query(), "m");
}

#[test]
fn listings_drive_a_search_to_its_first_page() {
    let mut panel = SearchUi::with_page_size(1);
    assert_eq!(panel.update(Message::SearchMsg(SearchMessage::InputChanged("c".to_string()))), Command::Idle);
    assert_eq!(
        panel.update(Message::SearchMsg(SearchMessage::SearchPressed("c".to_string()))),
        Command::Search("c".to_string())
    );
    assert_eq!(panel.update(Message::Listing(list("/root"))), Command::List("/root/sub".to_string()));
    assert!(panel.is_active());
    assert_eq!(
        panel.update(Message::Listing(list("/root/sub"))),
        Command::List("/root/sub/deep".to_string())
    );
    assert_eq!(panel.update(Message::Listing(list("/root/sub/deep"))), Command::Idle);
    assert!(!panel.is_active());
    assert_eq!(found(&panel), vec!["/root/sub/deep/c.txt"]);
    assert!(!panel.more_available());
    assert!(!panel.has_traversal());
}

#[test]
fn show_more_pulls_the_next_page() {
    let mut panel = SearchUi::with_page_size(2);
    panel.update(Message::SearchMsg(SearchMessage::InputChanged("m".to_string())));
    panel.update(Message::SearchMsg(SearchMessage::SearchPressed("m".to_string())));
    assert_eq!(panel.update(Message::Listing(list("/lot"))), Command::Idle);
    assert_eq!(found(&panel), vec!["/lot/m1", "/lot/m2", "/lot/m3"]);
    assert!(panel.more_available());
    assert_eq!(
        panel.update(Message::SearchMsg(SearchMessage::ShowMore)),
        Command::List("/lot/d".to_string())
    );
    assert!(panel.is_active());
    assert_eq!(panel.update(Message::SearchMsg(SearchMessage::ShowMore)), Command::Idle);
    assert_eq!(panel.results().len(), 3);
    assert_eq!(panel.update(Message::Listing(list("/lot/d"))), Command::Idle);
    assert_eq!(panel.results().len(), 6);
    assert!(panel.more_available());
    assert_eq!(panel.update(Message::SearchMsg(SearchMessage::ShowMore)), Command::Idle);
    assert_eq!(panel.results().len(), 6);
    assert!(!panel.more_available());
    assert!(!panel.has_traversal());
}

#[test]
fn root_that_cannot_be_listed_ends_the_search() {
    let mut panel = SearchUi::with_page_size(2);
    panel.update(Message::SearchMsg(SearchMessage::SearchPressed("m".to_string())));
    assert!(panel.is_active());
    assert_eq!(panel.update(Message::Listing(list("/missing"))), Command::Idle);
    assert!(!panel.is_active());
    assert!(panel.results().is_empty());
    assert!(!panel.has_traversal());
    assert!(!panel.more_available());
}

#[test]
fn listing_that_nobody_waits_for_is_dropped() {
    let mut panel = SearchUi::with_page_size(2);
    assert_eq!(panel.update(Message::Listing(list("/lot"))), Command::Idle);
    assert!(!panel.has_traversal());
    assert!(panel.results().is_empty());
}

#[test]
fn search_result_is_appended() {
    let mut panel = SearchUi::with_page_size(2);
    panel.update(Message::SearchMsg(SearchMessage::SearchPressed("x".to_string())));
    assert!(panel.is_active());
    assert_eq!(panel.update(Message::SearchResult(Ok(vec![item("/x1"), item("/x2")]))), Command::Idle);
    assert!(!panel.is_active());
    assert_eq!(found(&panel), vec!["/x1", "/x2"]);
    panel.update(Message::SearchResult(Ok(vec![item("/x3")])));
    assert_eq!(found(&panel), vec!["/x1", "/x2", "/x3"]);
}

#[test]
fn failed_search_result_leaves_no_results() {
    let mut panel = SearchUi::with_page_size(2);
    panel.update(Message::SearchMsg(SearchMessage::SearchPressed("x".to_string())));
    assert_eq!(panel.update(Message::SearchResult(Err(SearchError::General))), Command::Idle);
    assert!(!panel.is_active());
    assert!(panel.results().is_empty());
}

#[test]
fn other_messages_change_nothing() {
    let mut panel = SearchUi::with_page_size(2);
    panel.start(list("/root"), "a".to_string()).unwrap();
    assert_eq!(panel.update(Message::Inc), Command::Idle);
    assert_eq!(panel.update(Message::TabSelected(3)), Command::Idle);
    assert!(panel.has_traversal());
    assert!(panel.is_active());
    assert_eq!(panel.query(), "a");
}

#[test]
fn page_shows_results_when_no_search_is_under_way() {
    let mut panel = SearchUi::with_page_size(0);
    panel.start(list("/lot"), "m".to_string()).unwrap();
    let searching = panel.view();
    assert!(searching.searching);
    assert!(searching.results.is_empty());
    assert!(!searching.show_more);
    assert_eq!(searching.search_text, "m");

    page(&mut panel);
    let ready = panel.search_page();
    assert!(!ready.searching);
    assert_eq!(ready.results, vec![item("/lot/m1")]);
    assert!(ready.show_more);
    assert_eq!(ready.search_text, "m");
}

#[test]
fn search_pressed_sets_the_query() {
    let mut panel = SearchUi::with_page_size(5);
    panel.handle_message(SearchMessage::InputChanged("old".to_string()));
    assert_eq!(
        panel.handle_message(SearchMessage::SearchPressed("new".to_string())),
        Command::Search("new".to_string())
    );
    assert_eq!(panel.query(), "new");
    assert_eq!(panel.update(Message::Listing(Ok(vec![file("/old"), file("/new")]))), Command::Idle);
    assert_eq!(found(&panel), vec!["/new"]);
}
