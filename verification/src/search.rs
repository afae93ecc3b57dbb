//! The search session: a query, the matches found so far, and the walk that
//! feeds it, pulled one page at a time.

use vstd::prelude::*;
use crate::find::{paths_of, ResultItem};
use crate::message::{Command, CommandView, Message, SearchMessage};
use crate::tab::TabItemView;
use crate::text::{
    contains, lemma_empty_occurs, lowercase, matches_all, path_matches, to_lowercase,
};
use crate::walk::{
    answer_view, walk_descend, walk_next, Listed, ListedView, RecursiveDirIterator,
    SearchError, Walk, WalkView,
};

verus! {

/// What a page pull asks of the caller.
#[derive(Debug, PartialEq, Eq)]
pub enum Pull {
    /// The page is not complete: list this directory, hand the listing to
    /// `descend` and pull again.
    Open(String),
    /// The page is complete.
    Ready,
}

/// What a `Pull` stands for.
pub ghost enum PullView {
    Open(Seq<char>),
    Ready,
}

impl View for Pull {
    type V = PullView;

    open spec fn view(&self) -> PullView {
        match *self {
            Pull::Open(path) => PullView::Open(path@),
            Pull::Ready => PullView::Ready,
        }
    }
}

/// What a search session stands for.
pub ghost struct SessionView {
    /// The text that paths are matched against.
    pub query: Seq<char>,
    /// The paths found so far, in the order of discovery.
    pub results: Seq<Seq<char>>,
    /// The items that the walk has still to visit, the next one first; `None`
    /// where no walk is open.
    pub traversal: Option<Seq<ListedView>>,
    /// How many matches a page holds before one more ends it.
    pub page_size: nat,
    /// Whether the last page ended because it was full.
    pub more_available: bool,
    /// Whether the session waits for a directory listing.
    pub active: bool,
    /// How many matches the page being pulled has so far.
    pub pulled: nat,
}

impl SessionView {
    /// Whether the session is valid: the page being pulled holds no more
    /// matches than a page has room for, and a further page is on offer only
    /// while the walk is kept.
    pub open spec fn wf(self) -> bool {
        &&& self.pulled <= self.page_size
        &&& self.more_available ==> self.traversal is Some
    }

    /// The session as `start` leaves it, given the listing of the root.
    pub open spec fn start(self, root: Result<Seq<ListedView>, SearchError>, query: Seq<char>) -> SessionView {
        SessionView {
            query,
            results: Seq::empty(),
            traversal: match root {
                Ok(items) => Some(items),
                Err(_) => None,
            },
            more_available: false,
            active: root is Ok,
            pulled: 0,
            ..self
        }
    }

    /// The session after a directory listing was handed in.
    pub open spec fn descend(self, listing: Result<Seq<ListedView>, SearchError>) -> SessionView {
        match self.traversal {
            Some(pending) => SessionView { traversal: Some(walk_descend(pending, listing)), ..self },
            None => self,
        }
    }

    /// The session with the walk moved on to `rest`.
    pub open spec fn moved(self, rest: Seq<ListedView>) -> SessionView {
        SessionView { traversal: Some(rest), ..self }
    }

    /// The session after its walk ran out.
    pub open spec fn exhausted(self) -> SessionView {
        SessionView { traversal: None, more_available: false, active: false, pulled: 0, ..self }
    }

    /// The session after a page was filled.
    pub open spec fn filled(self) -> SessionView {
        SessionView { more_available: true, active: false, pulled: 0, ..self }
    }

    /// The session with one more match on the page.
    pub open spec fn found(self, path: Seq<char>) -> SessionView {
        SessionView { results: self.results.push(path), ..self }
    }

    /// One page pull: the session after it, and what it asks of the caller.
    ///
    /// Items are taken from the walk one at a time. A path that matches the
    /// query is appended; the pull ends once more than `page_size` matches
    /// were appended to the page, or when the walk runs out. An error item is
    /// passed over. At a directory the pull stops for its listing and goes on
    /// with the same page afterwards.
    pub open spec fn pull(self) -> (SessionView, PullView)
        decreases
            match self.traversal {
                Some(pending) => pending.len(),
                None => 0,
            },
    {
        match self.traversal {
            None => (self, PullView::Ready),
            Some(pending) => {
                let (step, rest) = walk_next(pending);
                match step {
                    WalkView::Done => (self.exhausted(), PullView::Ready),
                    WalkView::Open(path) => (
                        SessionView { active: true, ..self.moved(rest) },
                        PullView::Open(path),
                    ),
                    WalkView::Item(Err(_)) => self.moved(rest).pull(),
                    WalkView::Item(Ok(entry)) => if path_matches(self.query, entry.path) {
                        if self.pulled >= self.page_size {
                            (self.moved(rest).found(entry.path).filled(), PullView::Ready)
                        } else {
                            SessionView {
                                pulled: self.pulled + 1,
                                ..self.moved(rest).found(entry.path)
                            }.pull()
                        }
                    } else {
                        self.moved(rest).pull()
                    },
                }
            },
        }
    }
}

/// What every page pull keeps to, whatever the walk holds. The matches
/// found before stay in place, and no more than `page_size + 1` are
/// appended: as many as the page has room for, plus one. A pull that stops
/// for a listing keeps count of what the page holds; one that completes the
/// page starts the count anew. A further page is on offer only where the
/// walk was kept.
pub proof fn lemma_pull_bound(s: SessionView)
    ensures
        ({
            let (t, p) = s.pull();
            &&& s.results.is_prefix_of(t.results)
            &&& t.results.len() - s.results.len() <= (if s.pulled <= s.page_size {
                s.page_size + 1 - s.pulled
            } else {
                1
            })
            &&& t.results.len() - s.results.len() <= s.page_size + 1
            &&& t.query == s.query
            &&& t.page_size == s.page_size
            &&& s.pulled <= s.page_size ==> t.pulled <= t.page_size
            &&& p is Open ==> {
                &&& t.active
                &&& t.traversal is Some
                &&& t.more_available == s.more_available
                &&& t.pulled == s.pulled + (t.results.len() - s.results.len())
            }
            &&& p is Ready && s.traversal is Some ==> {
                &&& !t.active
                &&& t.pulled == 0
                &&& t.more_available == t.traversal is Some
            }
            &&& s.traversal is None ==> t == s
        }),
    decreases
        match s.traversal {
            Some(pending) => pending.len(),
            None => 0,
        },
{
    match s.traversal {
        None => {},
        Some(pending) => {
            let (step, rest) = walk_next(pending);
            match step {
                WalkView::Done => {},
                WalkView::Open(_) => {},
                WalkView::Item(Err(_)) => {
                    lemma_pull_bound(s.moved(rest));
                },
                WalkView::Item(Ok(entry)) => {
                    if path_matches(s.query, entry.path) {
                        if s.pulled < s.page_size {
                            lemma_pull_bound(
                                SessionView {
                                    pulled: s.pulled + 1,
                                    ..s.moved(rest).found(entry.path)
                                },
                            );
                        }
                    } else {
                        lemma_pull_bound(s.moved(rest));
                    }
                },
            }
        },
    }
}

/// A search session.
pub struct SearchUi {
    query: String,
    results: Vec<ResultItem>,
    traversal: Option<RecursiveDirIterator>,
    page_size: usize,
    more_available: bool,
    active: bool,
    pulled: usize,
}

impl SearchUi {
    /// What the session stands for.
    pub closed spec fn model(&self) -> SessionView {
        SessionView {
            query: self.query@,
            results: paths_of(self.results@),
            traversal: match self.traversal {
                Some(walk) => Some(walk@),
                None => None,
            },
            page_size: self.page_size as nat,
            more_available: self.more_available,
            active: self.active,
            pulled: self.pulled as nat,
        }
    }
}

/// The page size of a session made by `default`.
pub const PAGE_SIZE: usize = 50;

impl Default for SearchUi {
    fn default() -> (r: SearchUi)
        ensures
            r.model() == SearchUi::idle(PAGE_SIZE as nat),
    {
        SearchUi::with_page_size(PAGE_SIZE)
    }
}

impl SearchUi {
    /// A session on which no search was started.
    pub open spec fn idle(page_size: nat) -> SessionView {
        SessionView {
            query: Seq::empty(),
            results: Seq::empty(),
            traversal: None,
            page_size,
            more_available: false,
            active: false,
            pulled: 0,
        }
    }

    /// A fresh session with the given page size.
    pub fn with_page_size(page_size: usize) -> (r: SearchUi)
        ensures
            r.model() == SearchUi::idle(page_size as nat),
    {
        let r = SearchUi {
            query: String::new(),
            results: Vec::new(),
            traversal: None,
            page_size,
            more_available: false,
            active: false,
            pulled: 0,
        };
        assert(paths_of(r.results@) =~= Seq::<Seq<char>>::empty());
        r
    }

    /// Starts a new search from the listing of the root directory: drops the
    /// matches and the walk of the search before, and opens a fresh walk.
    /// Where the root could not be opened the error is returned, and the
    /// session is left without a walk and without matches.
    pub fn start(&mut self, root: Result<Vec<Listed>, SearchError>, query: String) -> (r: Result<(), SearchError>)
        ensures
            final(self).model() == old(self).model().start(
                answer_view(root),
                query@,
            ),
            match root {
                Ok(_) => r is Ok,
                Err(e) => r == Err::<(), SearchError>(e),
            },
    {
        self.query = query;
        self.results = Vec::new();
        self.more_available = false;
        self.pulled = 0;
        assert(paths_of(self.results@) =~= Seq::<Seq<char>>::empty());
        match RecursiveDirIterator::new(root) {
            Ok(walk) => {
                self.traversal = Some(walk);
                self.active = true;
                Ok(())
            },
            Err(e) => {
                self.traversal = None;
                self.active = false;
                Err(e)
            },
        }
    }

    /// Replaces the query. Matches found before stay, and the walk goes on:
    /// the new query is applied to what is pulled from now on.
    pub fn set_query(&mut self, text: String)
        ensures
            final(self).model() == (SessionView { query: text@, ..old(self).model() }),
    {
        self.query = text;
    }

    /// Hands the listing of the directory that the last pull asked for to the
    /// walk. Without a walk nothing changes.
    pub fn descend(&mut self, listing: Result<Vec<Listed>, SearchError>)
        ensures
            final(self).model() == old(self).model().descend(
                answer_view(listing),
            ),
    {
        match self.traversal.take() {
            Some(walk) => {
                let mut walk = walk;
                walk.descend(listing);
                self.traversal = Some(walk);
            },
            None => {},
        }
    }

    /// Pulls the next page, as far as it can without a directory listing.
    /// Without a walk nothing changes. A single call appends no more than
    /// `page_size + 1` matches. Where the query is empty, every path is a
    /// match.
    pub fn load_more_page(&mut self) -> (pull: Pull)
        ensures
            (final(self).model(), pull@) == old(self).model().pull(),
            old(self).model().results.is_prefix_of(final(self).model().results),
            final(self).model().results.len() <= old(self).model().results.len() + old(
                self,
            ).model().page_size + 1,
            old(self).model().query.len() == 0 ==> matches_all(old(self).model().query),
    {
        let lowered = to_lowercase(self.query.as_str());
        proof {
            lemma_pull_bound(old(self).model());
            if self.query@.len() == 0 {
                assert forall|path: Seq<char>| path_matches(self.query@, path) by {
                    lemma_empty_occurs(lowercase(self.query@), lowercase(path));
                }
            }
        }
        let mut walk = match self.traversal.take() {
            Some(walk) => walk,
            None => {
                return Pull::Ready;
            },
        };
        loop
            invariant
                self.traversal is None,
                self.query == old(self).query,
                old(self).model().query.len() == 0 ==> matches_all(old(self).model().query),
                lowered@ == lowercase(self.query@),
                (SessionView { traversal: Some(walk@), ..self.model() }).pull() == old(self).model().pull(),
            decreases walk@.len(),
        {
            let ghost before = SessionView { traversal: Some(walk@), ..self.model() };
            match walk.next() {
                Walk::Done => {
                    self.more_available = false;
                    self.active = false;
                    self.pulled = 0;
                    assert(self.model() == before.exhausted());
                    proof {
                        lemma_pull_bound(old(self).model());
                    }
                    return Pull::Ready;
                },
                Walk::Open(path) => {
                    self.active = true;
                    self.traversal = Some(walk);
                    proof {
                        lemma_pull_bound(old(self).model());
                    }
                    return Pull::Open(path);
                },
                Walk::Item(Err(_)) => {},
                Walk::Item(Ok(entry)) => {
                    let folded = to_lowercase(entry.path.as_str());
                    if contains(folded.as_str(), lowered.as_str()) {
                        let ghost shown = paths_of(self.results@);
                        self.results.push(ResultItem { path: entry.path });
                        assert(paths_of(self.results@) =~= shown.push(entry.path@));
                        if self.pulled >= self.page_size {
                            self.more_available = true;
                            self.active = false;
                            self.pulled = 0;
                            self.traversal = Some(walk);
                            proof {
                                lemma_pull_bound(old(self).model());
                            }
                            return Pull::Ready;
                        }
                        self.pulled = self.pulled + 1;
                    }
                },
            }
        }
    }
}

/// What the search panel shows.
#[derive(Debug, PartialEq, Eq)]
pub struct SearchPage {
    /// The text in the query field.
    pub search_text: String,
    /// Whether a search is under way; no matches are shown meanwhile.
    pub searching: bool,
    /// The matches to show.
    pub results: Vec<ResultItem>,
    /// Whether to offer the next page.
    pub show_more: bool,
}

impl SessionView {
    /// The session after a request for a new search for `query`: matches and
    /// walk are dropped, and the session waits for the listing of the root.
    pub open spec fn requested(self, query: Seq<char>) -> SessionView {
        SessionView {
            query,
            results: Seq::empty(),
            traversal: None,
            more_available: false,
            active: true,
            pulled: 0,
            ..self
        }
    }

    /// The session after a directory listing arrived. A listing that the
    /// session does not wait for is dropped. The first listing after a
    /// request is that of the root and starts the walk; a later one is
    /// handed to the walk. Then the page is pulled further.
    pub open spec fn listed(self, listing: Result<Seq<ListedView>, SearchError>) -> (SessionView, PullView) {
        if !self.active {
            (self, PullView::Ready)
        } else if self.traversal is None {
            self.start(listing, self.query).pull()
        } else {
            self.descend(listing).pull()
        }
    }

    /// Whether `page` is what the panel shows: the query, and either that a
    /// search is under way or the matches found, with the offer of a next
    /// page where the last one was full.
    pub open spec fn page(self, page: SearchPage) -> bool {
        &&& page.search_text@ == self.query
        &&& page.searching == self.active
        &&& paths_of(page.results@) == (if self.active {
            Seq::<Seq<char>>::empty()
        } else {
            self.results
        })
        &&& page.show_more == (!self.active && self.more_available)
    }

    /// The session after a message of the panel's own controls, and what it
    /// asks of the application.
    pub open spec fn handled(self, message: SearchMessage) -> (SessionView, CommandView) {
        match message {
            SearchMessage::InputChanged(text) => (
                SessionView { query: text@, ..self },
                CommandView::Idle,
            ),
            SearchMessage::ItemSelected(path) => (self, CommandView::OpenFile(path@)),
            SearchMessage::SearchPressed(query) => (
                self.requested(query@),
                CommandView::Search(query@),
            ),
            SearchMessage::ShowMore => if self.active {
                (self, CommandView::Idle)
            } else {
                (self.pull().0, command_of(self.pull().1))
            },
        }
    }

    /// The session after any message, and what it asks of the application.
    pub open spec fn updated(self, message: Message) -> (SessionView, CommandView) {
        match message {
            Message::SearchResult(Ok(items)) => (
                SessionView {
                    active: false,
                    results: self.results + paths_of(items@),
                    ..self
                },
                CommandView::Idle,
            ),
            Message::SearchResult(Err(_)) => (
                SessionView { active: false, ..self },
                CommandView::Idle,
            ),
            Message::Listing(listing) => (
                self.listed(answer_view(listing)).0,
                command_of(self.listed(answer_view(listing)).1),
            ),
            Message::SearchMsg(inner) => self.handled(inner),
            _ => (self, CommandView::Idle),
        }
    }
}

/// A valid session stays valid under every operation and every message, and
/// a session on which no search was started is valid.
pub proof fn lemma_session_stays_valid(
    s: SessionView,
    listing: Result<Seq<ListedView>, SearchError>,
    query: Seq<char>,
    message: Message,
    control: SearchMessage,
)
    requires
        s.wf(),
    ensures
        SearchUi::idle(s.page_size).wf(),
        s.start(listing, query).wf(),
        s.descend(listing).wf(),
        s.pull().0.wf(),
        s.requested(query).wf(),
        s.listed(listing).0.wf(),
        s.handled(control).0.wf(),
        s.updated(message).0.wf(),
{
    lemma_pull_bound(s);
    lemma_pull_bound(s.start(listing, s.query));
    lemma_pull_bound(s.descend(listing));
    match message {
        Message::Listing(sent) => {
            lemma_pull_bound(s.start(answer_view(sent), s.query));
            lemma_pull_bound(s.descend(answer_view(sent)));
        },
        _ => {},
    }
}

/// The command that carries out what a page pull asks for.
pub open spec fn command_of(pull: PullView) -> CommandView {
    match pull {
        PullView::Open(path) => CommandView::List(path),
        PullView::Ready => CommandView::Idle,
    }
}

impl SearchUi {
    /// The request to open `path` in the application that the host
    /// associates with it. The session stays as it is.
    pub fn select(&self, path: String) -> (c: Command)
        ensures
            c@ == CommandView::OpenFile(path@),
    {
        Command::OpenFile(path)
    }

    /// Pulls the page further and turns what the pull asks for into a
    /// command.
    fn pull_command(&mut self) -> (c: Command)
        ensures
            final(self).model() == old(self).model().pull().0,
            c@ == command_of(old(self).model().pull().1),
    {
        match self.load_more_page() {
            Pull::Open(path) => Command::List(path),
            Pull::Ready => Command::Idle,
        }
    }

    /// Takes in a directory listing that the application sends back.
    fn listed(&mut self, listing: Result<Vec<Listed>, SearchError>) -> (c: Command)
        ensures
            final(self).model() == old(self).model().listed(
                answer_view(listing),
            ).0,
            c@ == command_of(
                old(self).model().listed(
                    answer_view(listing),
                ).1,
            ),
    {
        if !self.active {
            Command::Idle
        } else if self.traversal.is_none() {
            let query = self.query.clone();
            let _ = self.start(listing, query);
            self.pull_command()
        } else {
            self.descend(listing);
            self.pull_command()
        }
    }

    /// Applies a message of the panel's own controls.
    pub fn handle_message(&mut self, message: SearchMessage) -> (c: Command)
        ensures
            (final(self).model(), c@) == old(self).model().handled(message),
    {
        match message {
            SearchMessage::InputChanged(search_text) => {
                self.set_query(search_text);
                Command::Idle
            },
            SearchMessage::ItemSelected(item) => self.select(item),
            SearchMessage::SearchPressed(query) => {
                self.query = query.clone();
                self.results = Vec::new();
                self.traversal = None;
                self.more_available = false;
                self.pulled = 0;
                self.active = true;
                assert(paths_of(self.results@) =~= Seq::<Seq<char>>::empty());
                Command::Search(query)
            },
            SearchMessage::ShowMore => {
                if self.active {
                    Command::Idle
                } else {
                    self.pull_command()
                }
            },
        }
    }

    /// What the panel shows: the query, and either that a search is under
    /// way or the matches found, with the offer of a next page where the last
    /// one was full.
    pub fn search_page(&self) -> (page: SearchPage)
        ensures
            self.model().page(page),
    {
        let mut results: Vec<ResultItem> = Vec::new();
        assert(paths_of(results@) =~= Seq::<Seq<char>>::empty());
        if !self.active {
            let mut i: usize = 0;
            while i < self.results.len()
                invariant
                    i <= self.results.len(),
                    paths_of(results@) == paths_of(self.results@).subrange(0, i as int),
                decreases self.results.len() - i,
            {
                let ghost shown = paths_of(results@);
                let path = self.results[i].path.clone();
                results.push(ResultItem { path });
                assert(shown.len() == i);
                assert(paths_of(results@) =~= shown.push(path@));
                assert(paths_of(results@) =~= paths_of(self.results@).subrange(0, i + 1));
                i += 1;
            }
            assert(paths_of(self.results@).subrange(0, i as int) =~= paths_of(self.results@));
        }
        SearchPage {
            search_text: self.query.clone(),
            searching: self.active,
            results,
            show_more: !self.active && self.more_available,
        }
    }

    /// The query.
    pub fn query(&self) -> (q: &String)
        ensures
            q@ == self.model().query,
    {
        &self.query
    }

    /// The matches found so far, in the order of discovery.
    pub fn results(&self) -> (found: &Vec<ResultItem>)
        ensures
            paths_of(found@) == self.model().results,
    {
        &self.results
    }

    /// Whether the last page ended because it was full.
    pub fn more_available(&self) -> (b: bool)
        ensures
            b == self.model().more_available,
    {
        self.more_available
    }

    /// Whether the session waits for a directory listing.
    pub fn is_active(&self) -> (b: bool)
        ensures
            b == self.model().active,
    {
        self.active
    }

    /// Whether a walk is open.
    pub fn has_traversal(&self) -> (b: bool)
        ensures
            b == self.model().traversal is Some,
    {
        self.traversal.is_some()
    }

    /// How many matches a page holds before one more ends it.
    pub fn page_size(&self) -> (n: usize)
        ensures
            n == self.model().page_size,
    {
        self.page_size
    }
}

impl TabItemView for SearchUi {
    type Message = Message;

    type View = SearchPage;

    open spec fn shows(&self, page: SearchPage) -> bool {
        self.model().page(page)
    }

    open spec fn updates(before: SearchUi, message: Message, after: SearchUi, command: Command) -> bool {
        (after.model(), command@) == before.model().updated(message)
    }

    fn view(&self) -> (page: SearchPage) {
        self.search_page()
    }

    /// Applies a message. The results of a search that ran to its end are
    /// appended, and its failure leaves the session without a search under
    /// way. A message that is none of the panel's changes nothing.
    fn update(&mut self, message: Message) -> (c: Command) {
        match message {
            Message::SearchResult(Ok(search_result)) => {
                self.active = false;
                let ghost shown = paths_of(self.results@);
                let mut items = search_result;
                let ghost added = items@;
                self.results.append(&mut items);
                assert(paths_of(self.results@) =~= shown + paths_of(added));
                Command::Idle
            },
            Message::SearchResult(Err(_)) => {
                self.active = false;
                Command::Idle
            },
            Message::Listing(listing) => self.listed(listing),
            Message::SearchMsg(search_msg) => self.handle_message(search_msg),
            _ => Command::Idle,
        }
    }
}

} // verus!
