//! A search that runs to its end: which paths match a query, and what is
//! collected from the items of a whole walk.

use vstd::prelude::*;
use crate::text::{contains, lowercase, path_matches, to_lowercase};
use crate::walk::{listed_view, listing_view, EntryView, Listed, ListedView, SearchError};

verus! {

/// One match of a search.
#[derive(Debug, Clone, PartialEq, Eq)]
pub struct ResultItem {
    pub path: String,
}

impl View for ResultItem {
    type V = Seq<char>;

    open spec fn view(&self) -> Seq<char> {
        self.path@
    }
}

impl Default for ResultItem {
    fn default() -> (r: ResultItem)
        ensures
            r@ == Seq::<char>::empty(),
    {
        ResultItem { path: String::new() }
    }
}

/// The paths of a list of matches, in order.
pub open spec fn paths_of(items: Seq<ResultItem>) -> Seq<Seq<char>> {
    items.map_values(|item: ResultItem| item@)
}

/// A search to be run: a query and the directory it starts from.
#[derive(Debug, Clone)]
pub struct Search {
    pub query: String,
    pub path: String,
}

/// The path of an item where it matches the query, as a list of one or
/// none. An item that could not be read is no match.
pub open spec fn hit(query: Seq<char>, item: ListedView) -> Seq<Seq<char>> {
    match item {
        Ok(entry) => if path_matches(query, entry.path) {
            seq![entry.path]
        } else {
            Seq::empty()
        },
        Err(_) => Seq::empty(),
    }
}

/// The paths among `items` that match the query, in order.
pub open spec fn hits(query: Seq<char>, items: Seq<ListedView>) -> Seq<Seq<char>>
    decreases items.len(),
{
    if items.len() == 0 {
        Seq::empty()
    } else {
        hits(query, items.drop_last()) + hit(query, items.last())
    }
}

/// What a search that runs to its end returns for the items of a walk: the
/// paths that match the query, in the order of the walk. An item that could
/// not be read is passed over; a path that is no text fails the whole search.
pub open spec fn collect(query: Seq<char>, items: Seq<ListedView>) -> Result<Seq<Seq<char>>, SearchError> {
    if items.contains(Err(SearchError::InvalidPath)) {
        Err(SearchError::InvalidPath)
    } else {
        Ok(hits(query, items))
    }
}

/// The matches of two lists of items, one after the other, are the matches
/// of the lists joined.
pub proof fn lemma_hits_concat(query: Seq<char>, a: Seq<ListedView>, b: Seq<ListedView>)
    ensures
        hits(query, a + b) == hits(query, a) + hits(query, b),
    decreases b.len(),
{
    if b.len() == 0 {
        assert(a + b =~= a);
        assert(hits(query, a) + hits(query, b) =~= hits(query, a));
    } else {
        assert((a + b).drop_last() =~= a + b.drop_last());
        assert((a + b).last() == b.last());
        lemma_hits_concat(query, a, b.drop_last());
        assert((hits(query, a) + hits(query, b.drop_last())) + hit(query, b.last()) =~= hits(
            query,
            a,
        ) + (hits(query, b.drop_last()) + hit(query, b.last())));
    }
}

/// The matches of a list that starts with `item`.
pub proof fn lemma_hits_first(query: Seq<char>, item: ListedView, rest: Seq<ListedView>)
    ensures
        hits(query, seq![item] + rest) == hit(query, item) + hits(query, rest),
{
    lemma_hits_concat(query, seq![item], rest);
    let one = seq![item];
    assert(one.last() == item);
    assert(one.drop_last().len() == 0);
    assert(hits(query, one.drop_last()) =~= Seq::<Seq<char>>::empty());
    assert(hits(query, one) =~= hit(query, item));
}

impl Search {
    pub fn new(query: String, path: String) -> (r: Search)
        ensures
            r.query == query,
            r.path == path,
    {
        Search { query, path }
    }

    /// Runs the search over what a walk from `self.path` has yielded, or over
    /// the error with which the root failed to open. Fails with `General`
    /// where the root failed, and with `InvalidPath` at the first path that is
    /// no text.
    pub fn run(self, walked: Result<Vec<Listed>, SearchError>) -> (r: Result<Vec<ResultItem>, SearchError>)
        ensures
            match walked {
                Err(_) => r == Err::<Vec<ResultItem>, SearchError>(SearchError::General),
                Ok(items) => match collect(self.query@, listing_view(items@)) {
                    Ok(found) => r is Ok && paths_of(r.unwrap()@) == found,
                    Err(e) => r == Err::<Vec<ResultItem>, SearchError>(e),
                },
            },
    {
        let items = match walked {
            Ok(items) => items,
            Err(_) => {
                return Err(SearchError::General);
            },
        };
        let search = to_lowercase(self.query.as_str());
        let mut res: Vec<ResultItem> = Vec::new();
        let mut i: usize = 0;
        assert(paths_of(res@) =~= Seq::<Seq<char>>::empty());
        while i < items.len()
            invariant
                i <= items.len(),
                walked == Ok::<Vec<Listed>, SearchError>(items),
                search@ == lowercase(self.query@),
                forall|j: int|
                    0 <= j < i ==> #[trigger] listing_view(items@)[j] != Err::<
                        EntryView,
                        SearchError,
                    >(SearchError::InvalidPath),
                paths_of(res@) == hits(self.query@, listing_view(items@).subrange(0, i as int)),
            decreases items.len() - i,
        {
            let ghost seen = listing_view(items@).subrange(0, i as int);
            let ghost next = listing_view(items@).subrange(0, i + 1);
            let ghost found = paths_of(res@);
            assert(next.drop_last() =~= seen);
            assert(next.last() == listed_view(items@[i as int]));
            assert(next.last() == listing_view(items@)[i as int]);
            match &items[i] {
                Ok(entry) => {
                    let folded = to_lowercase(entry.path.as_str());
                    if contains(folded.as_str(), search.as_str()) {
                        res.push(ResultItem { path: entry.path.clone() });
                        assert(paths_of(res@) =~= found.push(entry.path@));
                        assert(found.push(entry.path@) =~= found + seq![entry.path@]);
                    } else {
                        assert(found + Seq::<Seq<char>>::empty() =~= found);
                    }
                },
                Err(SearchError::InvalidPath) => {
                    return Err(SearchError::InvalidPath);
                },
                Err(SearchError::General) => {
                    assert(found + Seq::<Seq<char>>::empty() =~= found);
                },
            }
            i += 1;
        }
        assert(listing_view(items@).subrange(0, i as int) =~= listing_view(items@));
        Ok(res)
    }
}

} // verus!
