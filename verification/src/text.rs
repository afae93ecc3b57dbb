//! Text rules: substring matching, case folding and file extensions.

use vstd::prelude::*;

verus! {

/// Whether `needle` occurs in `hay` as a contiguous run of characters.
pub open spec fn occurs_in(needle: Seq<char>, hay: Seq<char>) -> bool {
    exists|i: int|
        0 <= i && i + needle.len() <= hay.len() && #[trigger] hay.subrange(i, i + needle.len())
            == needle
}

/// The lower-case form of a text, as `str::to_lowercase` computes it.
pub uninterp spec fn lowercase(s: Seq<char>) -> Seq<char>;

/// Whether a path matches a query: the lower-cased path contains the
/// lower-cased query.
pub open spec fn path_matches(query: Seq<char>, path: Seq<char>) -> bool {
    occurs_in(lowercase(query), lowercase(path))
}

/// Whether every path matches the query.
pub open spec fn matches_all(query: Seq<char>) -> bool {
    forall|path: Seq<char>| path_matches(query, path)
}

/// Index of the last `.` in `s`, or -1 where `s` has none.
pub open spec fn last_dot(s: Seq<char>) -> int
    decreases s.len(),
{
    if s.len() == 0 {
        -1
    } else if s.last() == '.' {
        s.len() - 1
    } else {
        last_dot(s.drop_last())
    }
}

/// The text after the last `.` of `s`; all of `s` where it has no `.`.
pub open spec fn extension_of(s: Seq<char>) -> Seq<char> {
    s.subrange(last_dot(s) + 1, s.len() as int)
}

/// Whether some element of `list` occurs in `path`.
pub open spec fn any_occurs_in(list: Seq<&str>, path: Seq<char>) -> bool {
    exists|i: int| 0 <= i < list.len() && occurs_in(#[trigger] list[i]@, path)
}

/// Whether some element of `list` is exactly `text`.
pub open spec fn any_equals(list: Seq<&str>, text: Seq<char>) -> bool {
    exists|i: int| 0 <= i < list.len() && #[trigger] list[i]@ == text
}

/// The empty text occurs in every text.
pub proof fn lemma_empty_occurs(needle: Seq<char>, hay: Seq<char>)
    requires
        needle.len() == 0,
    ensures
        occurs_in(needle, hay),
{
    assert(hay.subrange(0, 0int + needle.len()) =~= needle);
}

/// Calls `str::to_lowercase`. Trusted: the result is the lower-case form of
/// the argument, which depends on the argument alone, and the lower-case form
/// of the empty text is empty.
#[verifier::external_body]
pub(crate) fn to_lowercase(s: &str) -> (r: String)
    ensures
        r@ == lowercase(s@),
        s@.len() == 0 ==> r@.len() == 0,
{
    s.to_lowercase()
}

/// Calls `str::contains` with a string pattern. Trusted: the result says
/// whether the pattern occurs in the text as a contiguous run.
#[verifier::external_body]
pub(crate) fn contains(hay: &str, needle: &str) -> (b: bool)
    ensures
        b == occurs_in(needle@, hay@),
{
    hay.contains(needle)
}

/// Calls `str::eq`. Trusted: two texts are equal exactly when they hold the
/// same characters.
#[verifier::external_body]
pub(crate) fn same_text(a: &str, b: &str) -> (r: bool)
    ensures
        r == (a@ == b@),
{
    a.eq(b)
}

/// Where the last `.` of `s` stands, given the first index `k` after which
/// no `.` follows.
proof fn lemma_last_dot(s: Seq<char>, k: int)
    requires
        0 <= k <= s.len(),
        forall|j: int| k <= j < s.len() ==> s[j] != '.',
        k > 0 ==> s[k - 1] == '.',
    ensures
        last_dot(s) == k - 1,
    decreases s.len(),
{
    if s.len() > 0 && s.last() != '.' {
        lemma_last_dot(s.drop_last(), k);
    }
}

/// True if any text of `ignore_list` occurs anywhere in `path`.
pub fn ignore_entry(path: &str, ignore_list: &Vec<&str>) -> (b: bool)
    ensures
        b == any_occurs_in(ignore_list@, path@),
{
    let mut i: usize = 0;
    while i < ignore_list.len()
        invariant
            i <= ignore_list.len(),
            forall|j: int| 0 <= j < i ==> !occurs_in(#[trigger] ignore_list@[j]@, path@),
        decreases ignore_list.len() - i,
    {
        if contains(path, ignore_list[i]) {
            return true;
        }
        i += 1;
    }
    false
}

/// The text after the last `.` of `path`. A path without a `.` is its own
/// extension, so the result is never `None`.
pub fn get_extension_from_path(path: &str) -> (r: Option<&str>)
    ensures
        r is Some,
        r.unwrap()@ == extension_of(path@),
{
    let n: usize = path.unicode_len();
    let mut k: usize = n;
    while k > 0 && path.get_char(k - 1) != '.'
        invariant
            k <= n,
            n == path@.len(),
            forall|j: int| k <= j < n ==> path@[j] != '.',
        decreases k,
    {
        k -= 1;
    }
    proof {
        lemma_last_dot(path@, k as int);
    }
    Some(path.substring_char(k, n))
}

/// True if `path` has a `.` and the text after its last `.` is one of
/// `extensions`, compared case-sensitively.
pub fn has_extension(path: &str, extensions: &Vec<&str>) -> (b: bool)
    ensures
        b == (last_dot(path@) >= 0 && any_equals(extensions@, extension_of(path@))),
{
    let ext: &str = match get_extension_from_path(path) {
        Some(e) => e,
        None => { return false; },
    };
    if ext.unicode_len() == path.unicode_len() {
        proof {
            lemma_last_dot_range(path@);
        }
        return false;
    }
    proof {
        lemma_last_dot_range(path@);
    }
    let mut i: usize = 0;
    while i < extensions.len()
        invariant
            i <= extensions.len(),
            last_dot(path@) >= 0,
            ext@ == extension_of(path@),
            forall|j: int| 0 <= j < i ==> #[trigger] extensions@[j]@ != ext@,
        decreases extensions.len() - i,
    {
        if same_text(extensions[i], ext) {
            assert(extensions@[i as int]@ == extension_of(path@));
            return true;
        }
        i += 1;
    }
    false
}

/// The last `.` stands inside the text, or there is none.
proof fn lemma_last_dot_range(s: Seq<char>)
    ensures
        -1 <= last_dot(s) < s.len(),
    decreases s.len(),
{
    if s.len() > 0 && s.last() != '.' {
        lemma_last_dot_range(s.drop_last());
    }
}

} // verus!
