//! The messages that the application passes round, and what a panel may ask
//! of the application in return.

use vstd::prelude::*;
use crate::find::ResultItem;
use crate::walk::{Listed, SearchError};

verus! {

/// What the search panel is told by its own controls.
#[derive(Debug, Clone, PartialEq, Eq)]
pub enum SearchMessage {
    /// The text of the query was edited.
    InputChanged(String),
    /// A search for this text was requested.
    SearchPressed(String),
    /// A match was picked.
    ItemSelected(String),
    /// The next page was requested.
    ShowMore,
}

/// Every message that the application passes round.
#[derive(Debug, Clone, PartialEq, Eq)]
pub enum Message {
    /// A tab was picked.
    TabSelected(i16),
    /// The counter's button was pressed.
    Inc,
    /// A search that ran to its end has finished.
    SearchResult(Result<Vec<ResultItem>, SearchError>),
    /// A directory that the search panel asked for was listed.
    Listing(Result<Vec<Listed>, SearchError>),
    /// A message of the search panel's own controls.
    SearchMsg(SearchMessage),
}

/// What a panel asks the application to do after a message.
#[derive(Debug, PartialEq, Eq)]
pub enum Command {
    /// Nothing.
    Idle,
    /// List the root directory of the search and send the listing back.
    Search(String),
    /// List this directory and send the listing back.
    List(String),
    /// Open this file in the application that the host associates with it.
    OpenFile(String),
}

/// What a `Command` stands for.
pub ghost enum CommandView {
    Idle,
    Search(Seq<char>),
    List(Seq<char>),
    OpenFile(Seq<char>),
}

impl View for Command {
    type V = CommandView;

    open spec fn view(&self) -> CommandView {
        match *self {
            Command::Idle => CommandView::Idle,
            Command::Search(query) => CommandView::Search(query@),
            Command::List(path) => CommandView::List(path@),
            Command::OpenFile(path) => CommandView::OpenFile(path@),
        }
    }
}

/// `Result::clone`, which the derived `Clone` of `Message` calls. Nothing is
/// claimed of its result.
pub assume_specification<T, E>[ <Result<T, E> as Clone>::clone ](r: &Result<T, E>) -> Result<T, E>
    where
        T: Clone,
        E: Clone,
;

} // verus!
