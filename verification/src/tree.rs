//! A directory tree as a value, and what the walk makes of it.
//!
//! The walk itself sees one listing at a time. The laws here say what it
//! yields over a whole tree, whichever way the caller spaces its steps, and
//! what a search session has found once it was paged to the end.

use vstd::prelude::*;
use crate::find::{collect, hit, hits, lemma_hits_first};
use crate::search::{PullView, SessionView};
use crate::text::{matches_all, path_matches};
use crate::walk::{
    is_directory, walk_descend, walk_next, ListedView, SearchError, WalkView,
};

verus! {

/// One object of a directory tree.
pub ghost struct Node {
    /// What the listing of the directory around it gives for the object.
    pub item: ListedView,
    /// What listing the object itself gives. The walk asks for it only where
    /// the object is a directory.
    pub listing: Result<Seq<Node>, SearchError>,
}

impl Node {
    /// Whether the walk asks for the listing of this object.
    pub open spec fn descends(self) -> bool {
        match self.item {
            Ok(entry) => is_directory(entry),
            Err(_) => false,
        }
    }

    /// The listing that the caller hands to the walk for this object.
    pub open spec fn listed(self) -> Result<Seq<ListedView>, SearchError> {
        match self.listing {
            Ok(inner) => Ok(listing_of(inner)),
            Err(e) => Err(e),
        }
    }
}

/// The listing of a directory that holds `nodes`.
pub open spec fn listing_of(nodes: Seq<Node>) -> Seq<ListedView> {
    nodes.map_values(|node: Node| node.item)
}

/// Everything below `nodes` that is no directory, each object once, in
/// depth-first order: what a directory holds comes in the place of the
/// directory. A directory that cannot be opened holds nothing. The error
/// met in place of an entry counts as an object.
pub open spec fn files(nodes: Seq<Node>) -> Seq<ListedView>
    decreases nodes,
{
    if nodes.len() == 0 {
        Seq::empty()
    } else {
        let first = nodes[0];
        let head = if first.descends() {
            match first.listing {
                Ok(inner) => files(inner),
                Err(_) => Seq::empty(),
            }
        } else {
            seq![first.item]
        };
        head + files(nodes.skip(1))
    }
}

/// How many objects there are in and below `nodes`.
pub open spec fn weight(nodes: Seq<Node>) -> nat
    decreases nodes,
{
    if nodes.len() == 0 {
        0
    } else {
        let below = match nodes[0].listing {
            Ok(inner) => weight(inner),
            Err(_) => 0,
        };
        1 + below + weight(nodes.skip(1))
    }
}

/// The objects still to visit after the walk was handed the listing of the
/// first of them.
pub open spec fn opened(todo: Seq<Node>) -> Seq<Node> {
    match todo[0].listing {
        Ok(inner) => inner + todo.skip(1),
        Err(_) => todo.skip(1),
    }
}

/// Two lists of objects joined weigh what they weigh apart.
pub proof fn lemma_weight_concat(a: Seq<Node>, b: Seq<Node>)
    ensures
        weight(a + b) == weight(a) + weight(b),
    decreases a.len(),
{
    if a.len() == 0 {
        assert(a + b =~= b);
    } else {
        assert((a + b)[0] == a[0]);
        assert((a + b).skip(1) =~= a.skip(1) + b);
        lemma_weight_concat(a.skip(1), b);
    }
}

/// What is below two lists of objects joined is what is below the first,
/// then what is below the second.
pub proof fn lemma_files_concat(a: Seq<Node>, b: Seq<Node>)
    ensures
        files(a + b) == files(a) + files(b),
    decreases a.len(),
{
    if a.len() == 0 {
        assert(a + b =~= b);
        assert(files(a) + files(b) =~= files(b));
    } else {
        assert((a + b)[0] == a[0]);
        assert((a + b).skip(1) =~= a.skip(1) + b);
        lemma_files_concat(a.skip(1), b);
        let first = a[0];
        let head = if first.descends() {
            match first.listing {
                Ok(inner) => files(inner),
                Err(_) => Seq::empty(),
            }
        } else {
            seq![first.item]
        };
        assert(head + (files(a.skip(1)) + files(b)) =~= (head + files(a.skip(1))) + files(b));
    }
}

/// Handing the walk the listing of a directory leaves fewer objects.
pub proof fn lemma_opened_weighs_less(todo: Seq<Node>)
    requires
        todo.len() > 0,
    ensures
        weight(opened(todo)) < weight(todo),
        weight(todo.skip(1)) < weight(todo),
{
    match todo[0].listing {
        Ok(inner) => {
            lemma_weight_concat(inner, todo.skip(1));
        },
        Err(_) => {},
    }
}

/// What a walk yields when it is run to its end over the objects `todo`,
/// the caller answering each request for a listing from the tree.
pub open spec fn walk_all(todo: Seq<Node>) -> Seq<ListedView>
    decreases weight(todo),
{
    if todo.len() == 0 {
        Seq::empty()
    } else {
        proof {
            lemma_opened_weighs_less(todo);
        }
        match walk_next(listing_of(todo)).0 {
            WalkView::Item(item) => seq![item] + walk_all(todo.skip(1)),
            WalkView::Open(_) => walk_all(opened(todo)),
            WalkView::Done => Seq::empty(),
        }
    }
}

/// What the first `steps` steps of a walk over `todo` yield, and the objects
/// that are still to visit after them.
pub open spec fn walk_some(todo: Seq<Node>, steps: nat) -> (Seq<ListedView>, Seq<Node>)
    decreases steps,
{
    if steps == 0 || todo.len() == 0 {
        (Seq::empty(), todo)
    } else {
        match walk_next(listing_of(todo)).0 {
            WalkView::Item(item) => (
                seq![item] + walk_some(todo.skip(1), (steps - 1) as nat).0,
                walk_some(todo.skip(1), (steps - 1) as nat).1,
            ),
            WalkView::Open(_) => walk_some(opened(todo), (steps - 1) as nat),
            WalkView::Done => (Seq::empty(), todo),
        }
    }
}

/// The walk keeps in step with the tree: after a step over the objects
/// `todo` its items are the listing of the objects after the first, and a
/// step that asks for a listing is one at a directory; once the listing of
/// that directory is handed in, the items are the listing of `opened(todo)`.
pub proof fn lemma_walk_tracks_tree(todo: Seq<Node>)
    requires
        todo.len() > 0,
    ensures
        walk_next(listing_of(todo)).1 == listing_of(todo.skip(1)),
        walk_next(listing_of(todo)).0 is Open <==> todo[0].descends(),
        !todo[0].descends() ==> walk_next(listing_of(todo)).0 == WalkView::Item(todo[0].item),
        walk_descend(walk_next(listing_of(todo)).1, todo[0].listed()) == listing_of(opened(todo)),
{
    assert(listing_of(todo).skip(1) =~= listing_of(todo.skip(1)));
    match todo[0].listing {
        Ok(inner) => {
            assert(listing_of(inner) + listing_of(todo.skip(1)) =~= listing_of(
                inner + todo.skip(1),
            ));
        },
        Err(_) => {},
    }
}

/// A walk run to its end yields every object below its root that is no
/// directory, each exactly once.
pub proof fn lemma_walk_yields_files(todo: Seq<Node>)
    ensures
        walk_all(todo) == files(todo),
    decreases weight(todo),
{
    if todo.len() > 0 {
        lemma_walk_tracks_tree(todo);
        lemma_opened_weighs_less(todo);
        if todo[0].descends() {
            lemma_walk_yields_files(opened(todo));
            match todo[0].listing {
                Ok(inner) => {
                    lemma_files_concat(inner, todo.skip(1));
                },
                Err(_) => {
                    assert(Seq::<ListedView>::empty() + files(todo.skip(1)) =~= files(
                        todo.skip(1),
                    ));
                },
            }
        } else {
            lemma_walk_yields_files(todo.skip(1));
        }
    }
}

/// A walk that is stopped after any number of steps and taken up again
/// yields what a walk yields that runs to its end in one go.
pub proof fn lemma_walk_resumes(todo: Seq<Node>, steps: nat)
    ensures
        walk_some(todo, steps).0 + walk_all(walk_some(todo, steps).1) == walk_all(todo),
    decreases steps,
{
    if steps == 0 || todo.len() == 0 {
        assert(Seq::<ListedView>::empty() + walk_all(todo) =~= walk_all(todo));
    } else {
        let fewer = (steps - 1) as nat;
        match walk_next(listing_of(todo)).0 {
            WalkView::Item(item) => {
                lemma_walk_resumes(todo.skip(1), fewer);
                let (head, left) = walk_some(todo.skip(1), fewer);
                assert((seq![item] + head) + walk_all(left) =~= seq![item] + (head + walk_all(
                    left,
                )));
            },
            WalkView::Open(_) => {
                lemma_walk_resumes(opened(todo), fewer);
            },
            WalkView::Done => {
                assert(Seq::<ListedView>::empty() + walk_all(todo) =~= walk_all(todo));
            },
        }
    }
}

/// The objects still to visit where one pull of a session stops: at a
/// directory, after the match that fills the page, or at the end.
pub open spec fn pull_left(query: Seq<char>, pulled: nat, page_size: nat, todo: Seq<Node>) -> Seq<Node>
    decreases todo.len(),
{
    if todo.len() == 0 || todo[0].descends() {
        todo
    } else {
        match todo[0].item {
            Ok(entry) => if path_matches(query, entry.path) {
                if pulled >= page_size {
                    todo.skip(1)
                } else {
                    pull_left(query, pulled + 1, page_size, todo.skip(1))
                }
            } else {
                pull_left(query, pulled, page_size, todo.skip(1))
            },
            Err(_) => pull_left(query, pulled, page_size, todo.skip(1)),
        }
    }
}

/// Whether the walk of the session has exactly the objects `todo` to visit.
pub open spec fn walks(s: SessionView, todo: Seq<Node>) -> bool {
    s.traversal == Some(listing_of(todo))
}

/// What one pull does to a session whose walk has the objects `todo` to
/// visit. The matches found and the matches still to come stay the same in
/// sum; the pull appends no more than the page has room for, plus one; and
/// it stops where `pull_left` says.
pub proof fn lemma_pull(s: SessionView, todo: Seq<Node>)
    requires
        walks(s, todo),
        s.pulled <= s.page_size,
    ensures
        ({
            let (t, p) = s.pull();
            let left = pull_left(s.query, s.pulled, s.page_size, todo);
            &&& t.results + hits(s.query, files(left)) == s.results + hits(s.query, files(todo))
            &&& s.results.len() <= t.results.len() <= s.results.len() + s.page_size + 1 - s.pulled
            &&& t.query == s.query
            &&& t.page_size == s.page_size
            &&& t.pulled <= t.page_size
            &&& weight(left) <= weight(todo)
            &&& p is Open ==> {
                &&& left.len() > 0
                &&& left[0].descends()
                &&& t.traversal == Some(listing_of(left.skip(1)))
                &&& t.pulled == s.pulled + (t.results.len() - s.results.len())
            }
            &&& p is Ready ==> {
                &&& t.pulled == 0
                &&& t.traversal is None ==> left.len() == 0 && !t.more_available
                &&& t.traversal is Some ==> {
                    &&& walks(t, left)
                    &&& weight(left) < weight(todo)
                    &&& t.more_available
                }
            }
        }),
    decreases todo.len(),
{
    let q = s.query;
    if todo.len() == 0 {
        assert(listing_of(todo).len() == 0);
    } else {
        lemma_walk_tracks_tree(todo);
        lemma_opened_weighs_less(todo);
        let rest = walk_next(listing_of(todo)).1;
        let tail = todo.skip(1);
        if !todo[0].descends() {
            let item = todo[0].item;
            assert(files(todo) == seq![item] + files(tail));
            lemma_hits_first(q, item, files(tail));
            match item {
                Err(_) => {
                    lemma_pull(s.moved(rest), tail);
                    let t = s.moved(rest).pull().0;
                    let left = pull_left(q, s.pulled, s.page_size, tail);
                    assert(s.results + (Seq::<Seq<char>>::empty() + hits(q, files(tail)))
                        =~= s.results + hits(q, files(tail)));
                },
                Ok(entry) => {
                    if path_matches(q, entry.path) {
                        let found = s.moved(rest).found(entry.path);
                        assert(found.results + hits(q, files(tail)) =~= s.results + (
                        seq![entry.path] + hits(q, files(tail))));
                        if s.pulled < s.page_size {
                            let more = SessionView { pulled: s.pulled + 1, ..found };
                            lemma_pull(more, tail);
                        }
                    } else {
                        lemma_pull(s.moved(rest), tail);
                        assert(s.results + (Seq::<Seq<char>>::empty() + hits(q, files(tail)))
                            =~= s.results + hits(q, files(tail)));
                    }
                },
            }
        }
    }
}

/// The objects below a directory are those still to come once its listing
/// was handed in.
pub proof fn lemma_opened_files(todo: Seq<Node>)
    requires
        todo.len() > 0,
        todo[0].descends(),
    ensures
        files(opened(todo)) == files(todo),
{
    match todo[0].listing {
        Ok(inner) => {
            lemma_files_concat(inner, todo.skip(1));
        },
        Err(_) => {
            assert(Seq::<ListedView>::empty() + files(todo.skip(1)) =~= files(todo.skip(1)));
        },
    }
}

/// A session after one whole page, and the objects that its walk has still
/// to visit: the page is pulled, and pulled further after each listing that
/// it asks for, until it is complete.
pub open spec fn page_on(s: SessionView, todo: Seq<Node>) -> (SessionView, Seq<Node>)
    decreases weight(todo),
{
    if !walks(s, todo) || s.pulled > s.page_size {
        (s, todo)
    } else {
        let left = pull_left(s.query, s.pulled, s.page_size, todo);
        proof {
            lemma_pull(s, todo);
            if left.len() > 0 {
                lemma_opened_weighs_less(left);
            }
        }
        match s.pull().1 {
            PullView::Open(_) => page_on(s.pull().0.descend(left[0].listed()), opened(left)),
            PullView::Ready => (s.pull().0, left),
        }
    }
}

/// What a whole page does to a session whose walk has the objects `todo` to
/// visit, however many directories it meets on the way. It appends no more
/// matches than the page had room for, plus one; the matches found and the
/// matches still to come stay the same in sum; and unless the walk ran out,
/// the page was full and fewer objects are left.
pub proof fn lemma_page(s: SessionView, todo: Seq<Node>)
    requires
        walks(s, todo),
        s.pulled <= s.page_size,
    ensures
        ({
            let (t, left) = page_on(s, todo);
            &&& t.results + hits(s.query, files(left)) == s.results + hits(s.query, files(todo))
            &&& s.results.len() <= t.results.len() <= s.results.len() + s.page_size + 1 - s.pulled
            &&& t.query == s.query
            &&& t.page_size == s.page_size
            &&& t.pulled == 0
            &&& t.traversal is None ==> left.len() == 0 && !t.more_available
            &&& t.traversal is Some ==> {
                &&& walks(t, left)
                &&& weight(left) < weight(todo)
                &&& t.more_available
            }
        }),
    decreases weight(todo),
{
    lemma_pull(s, todo);
    let (t, p) = s.pull();
    let left = pull_left(s.query, s.pulled, s.page_size, todo);
    if p is Open {
        lemma_opened_weighs_less(left);
        lemma_walk_tracks_tree(left);
        lemma_opened_files(left);
        lemma_page(t.descend(left[0].listed()), opened(left));
    }
}

/// A session after it was paged until its walk ran out.
pub open spec fn search_all(s: SessionView, todo: Seq<Node>) -> SessionView
    decreases weight(todo),
{
    if !walks(s, todo) || s.pulled > s.page_size {
        s
    } else {
        proof {
            lemma_page(s, todo);
        }
        let (t, left) = page_on(s, todo);
        if t.traversal is None {
            t
        } else {
            search_all(t, left)
        }
    }
}

/// Paged to the end, a session has found every object below the root of its
/// walk that is no directory and matches the query, each once, in the order
/// of the walk, and whatever the page size. No walk is left then, and no
/// further page is on offer.
pub proof fn lemma_search_finds_all(s: SessionView, todo: Seq<Node>)
    requires
        walks(s, todo),
        s.pulled <= s.page_size,
    ensures
        search_all(s, todo).results == s.results + hits(s.query, files(todo)),
        search_all(s, todo).traversal is None,
        !search_all(s, todo).more_available,
        search_all(s, todo).query == s.query,
    decreases weight(todo),
{
    lemma_page(s, todo);
    let (t, left) = page_on(s, todo);
    if t.traversal is None {
        assert(hits(s.query, files(left)) =~= Seq::<Seq<char>>::empty());
        assert(t.results + Seq::<Seq<char>>::empty() =~= t.results);
    } else {
        lemma_search_finds_all(t, left);
    }
}

/// Every item that can be read is among the matches of a query that every
/// path matches.
pub proof fn lemma_all_hit(query: Seq<char>, items: Seq<ListedView>, i: int)
    requires
        matches_all(query),
        0 <= i < items.len(),
        items[i] is Ok,
    ensures
        hits(query, items).contains(items[i]->Ok_0.path),
    decreases items.len(),
{
    let path = items[i]->Ok_0.path;
    let before = hits(query, items.drop_last());
    let last = hit(query, items.last());
    if i == items.len() - 1 {
        assert(path_matches(query, path));
        assert(last == seq![path]);
        assert((before + last)[before.len() as int] == path);
    } else {
        lemma_all_hit(query, items.drop_last(), i);
        let k = choose|k: int| 0 <= k < before.len() && before[k] == path;
        assert((before + last)[k] == path);
    }
}

/// After a search for the empty text was started on a root and paged to the
/// end, every object below the root that is no directory is among the
/// results. That the empty text matches every path is what a page pull
/// reports of it.
pub proof fn lemma_empty_query_finds_everything(s: SessionView, root: Seq<Node>, i: int)
    requires
        matches_all(Seq::<char>::empty()),
        0 <= i < files(root).len(),
        files(root)[i] is Ok,
    ensures
        search_all(s.start(Ok(listing_of(root)), Seq::empty()), root).results.contains(
            files(root)[i]->Ok_0.path,
        ),
{
    let started = s.start(Ok(listing_of(root)), Seq::empty());
    lemma_search_finds_all(started, root);
    lemma_all_hit(Seq::empty(), files(root), i);
    assert(started.results + hits(started.query, files(root)) =~= hits(
        started.query,
        files(root),
    ));
}

/// A search that runs to its end over a whole walk finds what a session
/// finds that is paged to the end, unless a path that is no text fails it.
pub proof fn lemma_run_agrees_with_paging(s: SessionView, root: Seq<Node>, query: Seq<char>)
    requires
        !files(root).contains(Err(SearchError::InvalidPath)),
    ensures
        collect(query, walk_all(root)) == Ok::<Seq<Seq<char>>, SearchError>(
            search_all(s.start(Ok(listing_of(root)), query), root).results,
        ),
{
    let started = s.start(Ok(listing_of(root)), query);
    lemma_walk_yields_files(root);
    lemma_search_finds_all(started, root);
    assert(started.results + hits(query, files(root)) =~= hits(query, files(root)));
}

} // verus!
