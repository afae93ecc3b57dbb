//! The traversal engine: a depth-first walk over a directory tree that yields
//! one entry at a time.
//!
//! The engine holds a stack of open directories, each with the entries that
//! were not visited yet, and drops a directory as soon as its last entry was
//! taken. It never lists a directory itself: when it reaches one, `next`
//! names it, and the caller hands the listing to `descend`.

use vstd::prelude::*;

verus! {

/// Why a search, or one entry of it, failed.
#[derive(Debug, Clone, Copy, PartialEq, Eq, Structural)]
pub enum SearchError {
    /// An I/O failure: a directory that cannot be opened, or an entry that
    /// cannot be read.
    General,
    /// A path that cannot be represented as text.
    InvalidPath,
}

/// One object found in a directory.
#[derive(Debug, Clone, PartialEq, Eq)]
pub struct DirEntry {
    /// The full path.
    pub path: String,
    /// Whether the object is a directory; `None` where that could not be
    /// determined.
    pub directory: Option<bool>,
}

/// What a `DirEntry` stands for.
pub ghost struct EntryView {
    pub path: Seq<char>,
    pub directory: Option<bool>,
}

impl View for DirEntry {
    type V = EntryView;

    open spec fn view(&self) -> EntryView {
        EntryView { path: self.path@, directory: self.directory }
    }
}

/// One item of a directory listing: an entry, or the error met while reading
/// it.
pub type Listed = Result<DirEntry, SearchError>;

/// What a `Listed` stands for.
pub type ListedView = Result<EntryView, SearchError>;

pub open spec fn listed_view(item: Listed) -> ListedView {
    match item {
        Ok(entry) => Ok(entry@),
        Err(e) => Err(e),
    }
}

/// A directory listing, item by item, in listing order.
pub open spec fn listing_view(items: Seq<Listed>) -> Seq<ListedView> {
    items.map_values(|item: Listed| listed_view(item))
}

/// What the answer to a request for a listing stands for: the listing, or
/// the error with which the directory failed to open.
pub open spec fn answer_view(listing: Result<Vec<Listed>, SearchError>) -> Result<
    Seq<ListedView>,
    SearchError,
> {
    match listing {
        Ok(items) => Ok(listing_view(items@)),
        Err(e) => Err(e),
    }
}

/// Whether the walk descends into an entry. An entry whose kind could not be
/// determined counts as no directory.
pub open spec fn is_directory(entry: EntryView) -> bool {
    entry.directory == Some(true)
}

/// What one step of the walk asks of the caller.
#[derive(Debug, PartialEq, Eq)]
pub enum Walk {
    /// The next item of the walk: a file, or the error met in place of an
    /// entry.
    Item(Listed),
    /// A directory was reached: list it and hand the listing to `descend`.
    Open(String),
    /// Nothing is left.
    Done,
}

/// What a `Walk` stands for.
pub ghost enum WalkView {
    Item(ListedView),
    Open(Seq<char>),
    Done,
}

impl View for Walk {
    type V = WalkView;

    open spec fn view(&self) -> WalkView {
        match *self {
            Walk::Item(item) => WalkView::Item(listed_view(item)),
            Walk::Open(path) => WalkView::Open(path@),
            Walk::Done => WalkView::Done,
        }
    }
}

/// One step over the items still to visit, the next one first: the step
/// taken, and the items left after it.
pub open spec fn walk_next(pending: Seq<ListedView>) -> (WalkView, Seq<ListedView>) {
    if pending.len() == 0 {
        (WalkView::Done, pending)
    } else {
        match pending[0] {
            Ok(entry) => if is_directory(entry) {
                (WalkView::Open(entry.path), pending.skip(1))
            } else {
                (WalkView::Item(Ok(entry)), pending.skip(1))
            },
            Err(e) => (WalkView::Item(Err(e)), pending.skip(1)),
        }
    }
}

/// The items to visit after a directory was listed: its items come before
/// all others. A directory that could not be opened adds nothing.
pub open spec fn walk_descend(pending: Seq<ListedView>, listing: Result<Seq<ListedView>, SearchError>) -> Seq<ListedView> {
    match listing {
        Ok(items) => items + pending,
        Err(_) => pending,
    }
}

/// True if the entry is known to be a directory.
pub fn is_dir(e: &DirEntry) -> (b: bool)
    ensures
        b == is_directory(e@),
{
    match e.directory {
        Some(d) => d,
        None => false,
    }
}

/// The items still to visit, the next one first, of a stack of open
/// directories: those of the directory opened last, then those of the one
/// opened before it, and so on. Each directory holds its unvisited items in
/// listing order; the directory opened last is the last of the stack.
pub open spec fn pending(stack: Seq<Seq<ListedView>>) -> Seq<ListedView>
    decreases stack.len(),
{
    if stack.len() == 0 {
        Seq::empty()
    } else {
        stack.last() + pending(stack.drop_last())
    }
}

/// The stack of open directories after one step: the first item of the
/// directory opened last is taken, and the directory is dropped with its
/// last item.
pub open spec fn stack_next(stack: Seq<Seq<ListedView>>) -> Seq<Seq<ListedView>> {
    if stack.len() == 0 {
        stack
    } else if stack.last().len() <= 1 {
        stack.drop_last()
    } else {
        stack.drop_last().push(stack.last().skip(1))
    }
}

/// The stack of open directories after a listing was handed in: a listing
/// that holds an item is opened on top.
pub open spec fn stack_descend(stack: Seq<Seq<ListedView>>, listing: Result<Seq<ListedView>, SearchError>) -> Seq<Seq<ListedView>> {
    match listing {
        Ok(items) => if items.len() > 0 {
            stack.push(items)
        } else {
            stack
        },
        Err(_) => stack,
    }
}

/// Whether every open directory still holds an item.
pub open spec fn none_drained(stack: Seq<Seq<ListedView>>) -> bool {
    forall|i: int| 0 <= i < stack.len() ==> (#[trigger] stack[i]).len() > 0
}

/// Directories that all hold an item hold at least as many items as there
/// are directories.
pub proof fn lemma_pending_covers(stack: Seq<Seq<ListedView>>)
    requires
        none_drained(stack),
    ensures
        pending(stack).len() >= stack.len(),
    decreases stack.len(),
{
    if stack.len() > 0 {
        lemma_pending_covers(stack.drop_last());
    }
}

/// A step over the stack of open directories is a step over the items
/// still to visit; so is the opening of a listing.
pub proof fn lemma_stack_tracks_pending(stack: Seq<Seq<ListedView>>, listing: Result<Seq<ListedView>, SearchError>)
    requires
        none_drained(stack),
    ensures
        pending(stack_next(stack)) == walk_next(pending(stack)).1,
        pending(stack_descend(stack, listing)) == walk_descend(pending(stack), listing),
        none_drained(stack_next(stack)),
        none_drained(stack_descend(stack, listing)),
{
    if stack.len() > 0 {
        let top = stack.last();
        let below = stack.drop_last();
        assert(pending(stack).skip(1) =~= top.skip(1) + pending(below));
        if top.len() <= 1 {
            assert(top.skip(1) + pending(below) =~= pending(below));
        } else {
            assert(below.push(top.skip(1)).drop_last() =~= below);
        }
    }
    match listing {
        Ok(items) => {
            if items.len() > 0 {
                assert(stack.push(items).drop_last() =~= stack);
            } else {
                assert(items + pending(stack) =~= pending(stack));
            }
        },
        Err(_) => {},
    }
}

/// A depth-first walk in progress.
pub struct RecursiveDirIterator {
    /// The open directories, the one opened last on top. Each holds its
    /// unvisited items, the next one last.
    stack: Vec<Vec<Listed>>,
}

impl View for RecursiveDirIterator {
    type V = Seq<ListedView>;

    /// The items still to visit, the next one first.
    open spec fn view(&self) -> Seq<ListedView> {
        pending(self.open())
    }
}

impl RecursiveDirIterator {
    /// No directory stays open once all its items were visited.
    #[verifier::type_invariant]
    spec fn no_drained_directory(&self) -> bool {
        forall|i: int| 0 <= i < self.stack@.len() ==> (#[trigger] self.stack@[i])@.len() > 0
    }

    /// The stack of open directories, the one opened last last, each with
    /// its unvisited items in listing order.
    pub closed spec fn open(&self) -> Seq<Seq<ListedView>> {
        self.stack@.map_values(|frame: Vec<Listed>| listing_view(frame@.reverse()))
    }

    /// How many directories are open.
    pub open spec fn depth(&self) -> nat {
        self.open().len()
    }

    /// Starts a walk from the listing of the root directory. Fails with the
    /// error of the listing where the root could not be opened.
    pub fn new(root: Result<Vec<Listed>, SearchError>) -> (r: Result<RecursiveDirIterator, SearchError>)
        ensures
            match root {
                Ok(items) => {
                    &&& r is Ok
                    &&& r.unwrap()@ == listing_view(items@)
                    &&& r.unwrap().open() == stack_descend(
                        Seq::empty(),
                        Ok(listing_view(items@)),
                    )
                },
                Err(e) => r == Err::<RecursiveDirIterator, SearchError>(e),
            },
    {
        match root {
            Ok(items) => {
                let mut walk = RecursiveDirIterator { stack: Vec::new() };
                assert(walk.open() =~= Seq::<Seq<ListedView>>::empty());
                walk.descend(Ok(items));
                assert(walk@ =~= listing_view(items@));
                Ok(walk)
            },
            Err(e) => Err(e),
        }
    }

    /// Takes one step: yields the next item, asks for a directory to be
    /// listed, or reports that the walk is over.
    pub fn next(&mut self) -> (step: Walk)
        ensures
            (step@, final(self)@) == walk_next(old(self)@),
            final(self).open() == stack_next(old(self).open()),
            none_drained(final(self).open()),
    {
        proof {
            use_type_invariant(&*self);
            assert(none_drained(self.open()));
            lemma_stack_tracks_pending(self.open(), Err(SearchError::General));
            lemma_pending_covers(self.open());
        }
        let mut stack: Vec<Vec<Listed>> = Vec::new();
        std::mem::swap(&mut self.stack, &mut stack);
        let ghost below = stack@.drop_last();
        let mut frame = match stack.pop() {
            Some(frame) => frame,
            None => {
                assert(self.open() =~= old(self).open());
                return Walk::Done;
            },
        };
        assert(stack@ == below);
        let ghost top = frame@;
        let item = match frame.pop() {
            Some(item) => item,
            None => {
                return Walk::Done;
            },
        };
        assert(top.reverse()[0] == item);
        assert(listing_view(top.reverse()).skip(1) =~= listing_view(frame@.reverse()));
        assert(old(self).open().last() == listing_view(top.reverse()));
        assert(old(self)@[0] == listed_view(item));
        if frame.len() > 0 {
            stack.push(frame);
            assert(stack@.drop_last() == below);
        }
        std::mem::swap(&mut self.stack, &mut stack);
        assert(self.open() =~= stack_next(old(self).open()));
        match item {
            Ok(entry) => {
                if is_dir(&entry) {
                    Walk::Open(entry.path)
                } else {
                    Walk::Item(Ok(entry))
                }
            },
            Err(e) => Walk::Item(Err(e)),
        }
    }

    /// Takes in the listing of the directory that `next` asked for. Its items
    /// are visited before all others; a directory that could not be opened is
    /// passed over, and so is one that holds nothing.
    pub fn descend(&mut self, listing: Result<Vec<Listed>, SearchError>)
        ensures
            final(self)@ == walk_descend(
                old(self)@,
                answer_view(listing),
            ),
            final(self).open() == stack_descend(
                old(self).open(),
                answer_view(listing),
            ),
            none_drained(final(self).open()),
    {
        proof {
            use_type_invariant(&*self);
            assert(none_drained(self.open()));
            lemma_stack_tracks_pending(
                self.open(),
                answer_view(listing),
            );
        }
        match listing {
            Ok(items) => {
                let ghost all = items@;
                let mut rest = items;
                let mut frame: Vec<Listed> = Vec::new();
                while rest.len() > 0
                    invariant
                        rest@.len() <= all.len(),
                        rest@ == all.subrange(0, rest@.len() as int),
                        frame@ == all.subrange(rest@.len() as int, all.len() as int).reverse(),
                    decreases rest.len(),
                {
                    let ghost m = rest@.len() as int;
                    match rest.pop() {
                        Some(item) => {
                            frame.push(item);
                            assert(item == all[m - 1]);
                            assert(frame@ =~= all.subrange(m - 1, all.len() as int).reverse());
                            assert(rest@ =~= all.subrange(0, m - 1));
                        },
                        None => {},
                    }
                }
                assert(all.subrange(0, all.len() as int) =~= all);
                assert(frame@.reverse() =~= all);
                if frame.len() > 0 {
                    let mut stack: Vec<Vec<Listed>> = Vec::new();
                    std::mem::swap(&mut self.stack, &mut stack);
                    stack.push(frame);
                    std::mem::swap(&mut self.stack, &mut stack);
                    assert(self.open() =~= old(self).open().push(listing_view(all)));
                }
            },
            Err(_) => {},
        }
    }

    /// True if nothing is left to visit: no directory is open.
    pub fn is_exhausted(&self) -> (b: bool)
        ensures
            b == (self@.len() == 0),
            b == (self.depth() == 0),
    {
        proof {
            use_type_invariant(self);
            assert(none_drained(self.open()));
            lemma_pending_covers(self.open());
        }
        self.stack.len() == 0
    }

    /// How many directories are open. Each of them still holds an item that
    /// was not visited.
    pub fn open_directories(&self) -> (n: usize)
        ensures
            n == self.depth(),
            none_drained(self.open()),
    {
        proof {
            use_type_invariant(self);
            assert(none_drained(self.open()));
        }
        self.stack.len()
    }
}

} // verus!
