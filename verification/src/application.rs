//! The application: one tab container, with the search panel and two
//! counters.

use vstd::prelude::*;
use crate::panel::{Counter, Panel, PanelPage};
use crate::message::{Command, CommandView, Message, SearchMessage};
use crate::search::{SearchUi, PAGE_SIZE};
use crate::tab::{TabControl, TabItemView, TabMessages, TabView, TabsModel};

verus! {

/// The application state.
pub struct FileSearch {
    tab: TabControl<Panel>,
}

impl FileSearch {
    /// The tabs of the application.
    pub closed spec fn tabs(&self) -> TabsModel<Panel> {
        self.tab.model()
    }

    /// Whether the application is valid: its tab container is.
    pub closed spec fn wf(&self) -> bool {
        self.tab.wf()
    }

    /// Whether `panel` is a search panel on which no search was started.
    pub open spec fn fresh_search(panel: Panel) -> bool {
        match panel {
            Panel::Search(session) => session.model() == SearchUi::idle(PAGE_SIZE as nat),
            Panel::Counter(_) => false,
        }
    }

    /// The application at its start: the search panel, which is active, and
    /// two counters at zero.
    pub fn new() -> (r: FileSearch)
        ensures
            r.wf(),
            r.tabs().labels == seq!["Search"@, "Test 1"@, "Test 2"@],
            r.tabs().active == Some(0i16),
            r.tabs().panels.dom() == set![0i16, 1i16, 2i16],
            FileSearch::fresh_search(r.tabs().panels[0]),
            r.tabs().panels[1] == Panel::Counter(Counter { cnt: 0 }),
            r.tabs().panels[2] == Panel::Counter(Counter { cnt: 0 }),
    {
        let mut tc: TabControl<Panel> = TabControl::new();
        tc.add("Search", Panel::Search(SearchUi::default()));
        tc.add("Test 1", Panel::Counter(Counter::default()));
        tc.add("Test 2", Panel::Counter(Counter::default()));
        assert(tc.model().labels =~= seq!["Search"@, "Test 1"@, "Test 2"@]);
        assert(tc.model().panels.dom() =~= set![0i16, 1i16, 2i16]);
        FileSearch { tab: tc }
    }

    /// The title of the window.
    pub fn title(&self) -> (title: String)
        ensures
            title@ == "Search"@,
    {
        "Search".to_owned()
    }

    /// What a message asks of the application besides what the active panel
    /// asks: a request for a search starts one, whichever panel is active.
    pub open spec fn asks(message: Message, of_panel: CommandView) -> CommandView {
        match message {
            Message::TabSelected(_) => CommandView::Idle,
            Message::SearchMsg(SearchMessage::SearchPressed(query)) => CommandView::Search(query@),
            _ => of_panel,
        }
    }

    /// Applies a message. The choice of a tab makes that tab the active
    /// one; every other message goes to the active panel.
    pub fn update(&mut self, message: Message) -> (command: Command)
        ensures
            old(self).wf() ==> final(self).wf(),
            final(self).tabs().labels == old(self).tabs().labels,
            match message {
                Message::TabSelected(id) => {
                    &&& final(self).tabs() == (TabsModel { active: Some(id), ..old(self).tabs() })
                    &&& command@ == CommandView::Idle
                },
                _ => {
                    &&& final(self).tabs().active == old(self).tabs().active
                    &&& match old(self).tabs().active_panel() {
                        Some(panel) => {
                            let id = old(self).tabs().active.unwrap();
                            &&& final(self).tabs().panels == old(self).tabs().panels.insert(
                                id,
                                final(self).tabs().panels[id],
                            )
                            &&& exists|of_panel: Command|
                                {
                                    &&& Panel::updates(
                                        panel,
                                        message,
                                        final(self).tabs().panels[id],
                                        of_panel,
                                    )
                                    &&& command@ == FileSearch::asks(message, of_panel@)
                                }
                        },
                        None => {
                            &&& final(self).tabs() == old(self).tabs()
                            &&& command@ == FileSearch::asks(message, CommandView::Idle)
                        },
                    }
                },
            },
    {
        match message {
            Message::TabSelected(id) => {
                self.tab.select_tab(id);
                Command::Idle
            },
            Message::SearchMsg(SearchMessage::SearchPressed(search)) => {
                let query = search.clone();
                let _of_panel = self.tab.update(
                    Message::SearchMsg(SearchMessage::SearchPressed(search)),
                );
                Command::Search(query)
            },
            msg => self.tab.update(msg),
        }
    }

    /// The headers of all tabs and what the active panel shows. A press on
    /// a header sends the message that `S` makes for the place of the tab.
    pub fn view<S: TabMessages<Message>>(&self) -> (page: TabView<Message, PanelPage>)
        ensures
            page.tabs@.len() == self.tabs().labels.len(),
            forall|i: int|
                0 <= i < page.tabs@.len() ==> (#[trigger] page.tabs@[i]).label@
                    == self.tabs().labels[i],
            self.wf() ==> forall|i: int|
                0 <= i < page.tabs@.len() ==> (#[trigger] page.tabs@[i]).active == (
                self.tabs().active == Some(i as i16)),
            self.wf() ==> forall|i: int|
                0 <= i < page.tabs@.len() ==> call_ensures(
                    S::tab_selected,
                    (i as i16,),
                    (#[trigger] page.tabs@[i]).on_press,
                ),
            match self.tabs().active_panel() {
                Some(panel) => page.content is Some && panel.shows(page.content.unwrap()),
                None => page.content is None,
            },
    {
        let page = self.tab.view::<S>();
        proof {
            if self.tab.wf() {
                self.tab.lemma_tab_ids();
            }
        }
        page
    }
}

} // verus!
