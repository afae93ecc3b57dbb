//! The panels that the application ships with.

use vstd::prelude::*;
use crate::message::{Command, CommandView, Message};
use crate::search::{SearchPage, SearchUi};
use crate::tab::TabItemView;

verus! {

/// A panel that counts the presses of its button.
#[derive(Debug, Clone, Copy, PartialEq, Eq, Structural)]
pub struct Counter {
    pub cnt: i32,
}

impl Default for Counter {
    fn default() -> (r: Counter)
        ensures
            r.cnt == 0,
    {
        Counter { cnt: 0 }
    }
}

impl Counter {
    /// The count after one more press. After the largest count comes the
    /// smallest.
    pub open spec fn next_count(cnt: i32) -> i32 {
        if cnt == i32::MAX {
            i32::MIN
        } else {
            (cnt + 1) as i32
        }
    }
}

impl TabItemView for Counter {
    type Message = Message;

    type View = i32;

    open spec fn shows(&self, page: i32) -> bool {
        page == self.cnt
    }

    open spec fn updates(before: Counter, message: Message, after: Counter, command: Command) -> bool {
        &&& command@ == CommandView::Idle
        &&& after.cnt == (match message {
            Message::Inc => Counter::next_count(before.cnt),
            _ => before.cnt,
        })
    }

    fn view(&self) -> (page: i32) {
        self.cnt
    }

    fn update(&mut self, message: Message) -> (command: Command) {
        match message {
            Message::Inc => {
                self.cnt = if self.cnt == i32::MAX {
                    i32::MIN
                } else {
                    self.cnt + 1
                };
            },
            _ => (),
        }
        Command::Idle
    }
}

/// One panel of the application.
pub enum Panel {
    Search(SearchUi),
    Counter(Counter),
}

/// What a `Panel` hands to the renderer.
#[derive(Debug, PartialEq, Eq)]
pub enum PanelPage {
    Search(SearchPage),
    Counter(i32),
}

impl TabItemView for Panel {
    type Message = Message;

    type View = PanelPage;

    open spec fn shows(&self, page: PanelPage) -> bool {
        match (*self, page) {
            (Panel::Search(panel), PanelPage::Search(inner)) => panel.shows(inner),
            (Panel::Counter(panel), PanelPage::Counter(inner)) => panel.shows(inner),
            _ => false,
        }
    }

    open spec fn updates(before: Panel, message: Message, after: Panel, command: Command) -> bool {
        match (before, after) {
            (Panel::Search(b), Panel::Search(a)) => SearchUi::updates(b, message, a, command),
            (Panel::Counter(b), Panel::Counter(a)) => Counter::updates(b, message, a, command),
            _ => false,
        }
    }

    fn view(&self) -> (page: PanelPage) {
        match self {
            Panel::Search(panel) => PanelPage::Search(panel.view()),
            Panel::Counter(panel) => PanelPage::Counter(panel.view()),
        }
    }

    fn update(&mut self, message: Message) -> (command: Command) {
        match self {
            Panel::Search(panel) => panel.update(message),
            Panel::Counter(panel) => panel.update(message),
        }
    }
}

} // verus!
