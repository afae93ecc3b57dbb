//! The tab container: named panels in the order they were added, one of them
//! active. Messages and rendering go to the active panel alone.

use std::collections::HashMap;
use vstd::prelude::*;
use crate::message::{Command, CommandView};

verus! {

/// What a panel can do: show itself, and apply a message.
pub trait TabItemView: Sized {
    /// The messages that the panel takes.
    type Message;

    /// What the panel hands to the renderer.
    type View;

    /// Whether `page` is what the panel shows.
    spec fn shows(&self, page: Self::View) -> bool;

    /// Whether `message` takes the panel from `before` to `after` and asks
    /// for `command`.
    spec fn updates(before: Self, message: Self::Message, after: Self, command: Command) -> bool;

    fn view(&self) -> (page: Self::View)
        ensures
            self.shows(page),
    ;

    fn update(&mut self, message: Self::Message) -> (command: Command)
        ensures
            Self::updates(*old(self), message, *final(self), command),
    ;
}

/// Makes the message that tells the application that a tab was picked.
pub trait TabMessages<T> {
    fn tab_selected(id: i16) -> T;
}

/// The header of one tab, as handed to the renderer.
#[derive(Debug, PartialEq, Eq)]
pub struct TabHeader<T> {
    pub label: String,
    /// Whether this is the tab whose panel is shown.
    pub active: bool,
    /// The message to send when the header is pressed.
    pub on_press: T,
}

/// One tab: its identifier and its label.
#[derive(Debug)]
pub struct TabItem {
    id: i16,
    label: String,
}

impl TabItem {
    pub fn new(label: &str, id: i16) -> (r: TabItem)
        ensures
            r.id() == id,
            r.label() == label@,
    {
        TabItem { id, label: label.to_owned() }
    }

    /// The identifier of the tab.
    pub closed spec fn id(&self) -> i16 {
        self.id
    }

    /// The label of the tab.
    pub closed spec fn label(&self) -> Seq<char> {
        self.label@
    }

    /// The header of the tab. The message that a press sends is the one
    /// that the `TabMessages` at hand makes for the identifier of the tab.
    pub fn tab_header<T, S: TabMessages<T>>(&self, active: bool) -> (header: TabHeader<T>)
        ensures
            header.label@ == self.label(),
            header.active == active,
            call_ensures(S::tab_selected, (self.id(),), header.on_press),
    {
        TabHeader { label: self.label.clone(), active, on_press: S::tab_selected(self.id) }
    }
}

/// What the container hands to the renderer.
#[derive(Debug, PartialEq, Eq)]
pub struct TabView<T, V> {
    /// The headers, in tab order.
    pub tabs: Vec<TabHeader<T>>,
    /// What the active panel shows; `None` where no panel is active.
    pub content: Option<V>,
}

/// What a tab container stands for.
pub ghost struct TabsModel<P> {
    /// The panels, by identifier.
    pub panels: Map<i16, P>,
    /// The labels in tab order. A tab's place in this order is its
    /// identifier.
    pub labels: Seq<Seq<char>>,
    /// The identifier of the active tab.
    pub active: Option<i16>,
}

impl<P> TabsModel<P> {
    /// Identifiers are handed out in order and every tab has its panel; a
    /// container that holds a panel has an active tab.
    pub open spec fn wf(self) -> bool {
        &&& self.labels.len() <= i16::MAX + 1
        &&& forall|id: i16| self.panels.contains_key(id) <==> 0 <= id < self.labels.len()
        &&& self.labels.len() > 0 ==> self.active is Some
    }

    /// The panel that messages and rendering go to, if there is one.
    pub open spec fn active_panel(self) -> Option<P> {
        match self.active {
            Some(id) => if self.panels.contains_key(id) {
                Some(self.panels[id])
            } else {
                None
            },
            None => None,
        }
    }
}

/// The tab container.
pub struct TabControl<P: TabItemView> {
    tab_items: HashMap<i16, P>,
    tab_header: Vec<TabItem>,
    selected_tab: Option<i16>,
}

impl<P: TabItemView> TabControl<P> {
    /// What the container stands for.
    pub closed spec fn model(&self) -> TabsModel<P> {
        TabsModel {
            panels: self.tab_items@,
            labels: self.tab_header@.map_values(|tab: TabItem| tab.label()),
            active: self.selected_tab,
        }
    }

    /// Whether the container is valid: its model is well formed and each tab
    /// carries its place as identifier.
    pub closed spec fn wf(&self) -> bool {
        &&& self.model().wf()
        &&& forall|i: int| 0 <= i < self.tab_header@.len() ==> (#[trigger] self.tab_header@[i]).id() == i
    }

    /// An empty container.
    pub fn new() -> (r: TabControl<P>)
        ensures
            r.wf(),
            r.model().panels == Map::<i16, P>::empty(),
            r.model().labels == Seq::<Seq<char>>::empty(),
            r.model().active is None,
    {
        let r = TabControl { tab_items: HashMap::new(), tab_header: Vec::new(), selected_tab: None };
        assert(r.model().labels =~= Seq::<Seq<char>>::empty());
        r
    }

    /// How many tabs there are.
    pub fn len(&self) -> (n: usize)
        ensures
            n == self.model().labels.len(),
    {
        self.tab_header.len()
    }

    /// The identifier of the active tab.
    pub fn selected(&self) -> (id: Option<i16>)
        ensures
            id == self.model().active,
    {
        self.selected_tab
    }

    /// Adds a panel as the last tab. Its identifier is its place in tab
    /// order; the first panel added becomes the active one.
    pub fn add(&mut self, label: &str, view: P)
        requires
            old(self).wf(),
            old(self).model().labels.len() <= i16::MAX,
        ensures
            final(self).wf(),
            final(self).model().labels == old(self).model().labels.push(label@),
            final(self).model().panels == old(self).model().panels.insert(
                old(self).model().labels.len() as i16,
                view,
            ),
            final(self).model().active == (if old(self).model().active is None {
                Some(old(self).model().labels.len() as i16)
            } else {
                old(self).model().active
            }),
    {
        broadcast use vstd::std_specs::hash::group_hash_axioms;

        let ghost labels = self.model().labels;
        let id = self.tab_header.len() as i16;
        self.tab_header.push(TabItem::new(label, id));
        self.tab_items.insert(id, view);
        if self.selected_tab.is_none() {
            self.selected_tab = Some(id);
        }
        assert(self.model().labels =~= labels.push(label@));
        assert(self.tab_items@ == old(self).tab_items@.insert(id, view));
        assert forall|k: i16|
            self.model().panels.contains_key(k) <==> 0 <= k < self.model().labels.len() by {
            assert(old(self).model().panels.contains_key(k) <==> 0 <= k < labels.len());
        }
        assert forall|i: int| 0 <= i < self.tab_header@.len() implies (
        #[trigger] self.tab_header@[i]).id() == i by {
            if i < labels.len() {
                assert(self.tab_header@[i] == old(self).tab_header@[i]);
            }
        }
    }

    /// Makes `id` the active tab, whether or not a tab has that identifier.
    /// With an identifier that no tab has, no panel is active.
    pub fn select_tab(&mut self, id: i16)
        ensures
            final(self).model() == (TabsModel { active: Some(id), ..old(self).model() }),
            !old(self).model().panels.contains_key(id) ==> final(self).model().active_panel()
                is None,
            old(self).wf() ==> final(self).wf(),
    {
        self.selected_tab = Some(id);
    }

    /// The headers of all tabs and what the active panel shows.
    pub fn view<S: TabMessages<P::Message>>(&self) -> (page: TabView<P::Message, P::View>)
        ensures
            page.tabs@.len() == self.model().labels.len(),
            forall|i: int|
                0 <= i < page.tabs@.len() ==> (#[trigger] page.tabs@[i]).label@
                    == self.model().labels[i],
            forall|i: int|
                0 <= i < page.tabs@.len() ==> (#[trigger] page.tabs@[i]).active == (
                self.model().active == Some(self.tab_id_at(i))),
            forall|i: int|
                0 <= i < page.tabs@.len() ==> call_ensures(
                    S::tab_selected,
                    (self.tab_id_at(i),),
                    (#[trigger] page.tabs@[i]).on_press,
                ),
            match self.model().active_panel() {
                Some(panel) => page.content is Some && panel.shows(page.content.unwrap()),
                None => page.content is None,
            },
    {
        broadcast use vstd::std_specs::hash::group_hash_axioms;

        let mut tabs: Vec<TabHeader<P::Message>> = Vec::new();
        let mut i: usize = 0;
        while i < self.tab_header.len()
            invariant
                i <= self.tab_header.len(),
                tabs@.len() == i,
                forall|j: int|
                    0 <= j < i ==> (#[trigger] tabs@[j]).label@ == self.tab_header@[j].label(),
                forall|j: int|
                    0 <= j < i ==> (#[trigger] tabs@[j]).active == (self.selected_tab == Some(
                        self.tab_header@[j].id(),
                    )),
                forall|j: int|
                    0 <= j < i ==> call_ensures(
                        S::tab_selected,
                        (self.tab_header@[j].id(),),
                        (#[trigger] tabs@[j]).on_press,
                    ),
            decreases self.tab_header.len() - i,
        {
            let tab = &self.tab_header[i];
            let active = match self.selected_tab {
                Some(active_tab_id) => active_tab_id == tab.id,
                None => false,
            };
            tabs.push(tab.tab_header::<P::Message, S>(active));
            i += 1;
        }
        let content = match self.selected_tab {
            Some(selected_tab_id) => match self.tab_items.get(&selected_tab_id) {
                Some(selected_tab) => Some(selected_tab.view()),
                None => None,
            },
            None => None,
        };
        TabView { tabs, content }
    }

    /// The identifier that the tab at place `i` carries.
    pub closed spec fn tab_id_at(&self, i: int) -> i16 {
        self.tab_header@[i].id()
    }

    /// In a valid container each tab carries its place as identifier.
    pub proof fn lemma_tab_ids(&self)
        requires
            self.wf(),
        ensures
            forall|i: int|
                0 <= i < self.model().labels.len() ==> #[trigger] self.tab_id_at(i) == i,
    {
    }

    /// Hands a message to the active panel and returns what that panel asks
    /// for. No other panel changes. Without an active panel nothing changes.
    pub fn update(&mut self, message: P::Message) -> (command: Command)
        ensures
            old(self).wf() ==> final(self).wf(),
            final(self).model().labels == old(self).model().labels,
            final(self).model().active == old(self).model().active,
            forall|other: i16|
                old(self).model().active != Some(other) ==> {
                    &&& final(self).model().panels.contains_key(other) == old(
                        self,
                    ).model().panels.contains_key(other)
                    &&& final(self).model().panels[other] == old(self).model().panels[other]
                },
            match old(self).model().active_panel() {
                Some(panel) => {
                    let id = old(self).model().active.unwrap();
                    &&& final(self).model().panels.contains_key(id)
                    &&& P::updates(panel, message, final(self).model().panels[id], command)
                    &&& final(self).model().panels == old(self).model().panels.insert(
                        id,
                        final(self).model().panels[id],
                    )
                },
                None => final(self).model() == old(self).model() && command@ == CommandView::Idle,
            },
    {
        broadcast use vstd::std_specs::hash::group_hash_axioms;

        if let Some(selected_tab_id) = self.selected_tab {
            match self.tab_items.remove(&selected_tab_id) {
                Some(selected_tab) => {
                    let mut selected_tab = selected_tab;
                    let command = selected_tab.update(message);
                    self.tab_items.insert(selected_tab_id, selected_tab);
                    assert(self.tab_items@ =~= old(self).tab_items@.insert(
                        selected_tab_id,
                        selected_tab,
                    ));
                    return command;
                },
                None => {
                    assert(self.tab_items@ =~= old(self).tab_items@);
                },
            }
        }
        Command::Idle
    }
}

} // verus!
