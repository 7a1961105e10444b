//! Text helpers shared by the domain types. Identifiers and messages are
//! compared and built by their characters, so every contract here speaks of
//! the `Seq<char>` view of a string.

use vstd::prelude::*;

verus! {

/// The character views of a list of strings, element by element.
pub open spec fn names(v: Seq<String>) -> Seq<Seq<char>> {
    Seq::new(v.len(), |i: int| v[i]@)
}

/// `k` is the first position of `id` in `ids`.
pub open spec fn is_first_match(ids: Seq<Seq<char>>, id: Seq<char>, k: int) -> bool {
    &&& 0 <= k < ids.len()
    &&& ids[k] == id
    &&& forall|j: int| 0 <= j < k ==> ids[j] != id
}

/// The first position of `id` in `ids`, if it occurs there.
pub open spec fn find_first(ids: Seq<Seq<char>>, id: Seq<char>) -> Option<int> {
    if ids.contains(id) {
        Some(choose|k: int| is_first_match(ids, id, k))
    } else {
        None
    }
}

/// A first position is the only one: `find_first` returns it.
pub proof fn lemma_find_first(ids: Seq<Seq<char>>, id: Seq<char>, k: int)
    requires
        is_first_match(ids, id, k),
    ensures
        find_first(ids, id) == Some(k),
{
    let c = choose|c: int| is_first_match(ids, id, c);
    assert(ids.contains(id));
    if c < k {
        assert(ids[c] != id);
    } else if k < c {
        assert(ids[k] != id);
    }
}

/// Where `id` does not occur, `find_first` finds nothing; where it finds a
/// position, that position is a first match.
pub proof fn lemma_find_first_cases(ids: Seq<Seq<char>>, id: Seq<char>)
    ensures
        match find_first(ids, id) {
            Some(k) => is_first_match(ids, id, k),
            None => forall|j: int| 0 <= j < ids.len() ==> ids[j] != id,
        },
{
    if ids.contains(id) {
        let w = choose|w: int| 0 <= w < ids.len() && ids[w] == id;
        lemma_first_match_exists(ids, id, w);
    }
}

/// An occurrence at `w` gives a first occurrence at or before `w`.
proof fn lemma_first_match_exists(ids: Seq<Seq<char>>, id: Seq<char>, w: int)
    requires
        0 <= w < ids.len(),
        ids[w] == id,
    ensures
        exists|k: int| is_first_match(ids, id, k),
    decreases w,
{
    if exists|j: int| 0 <= j < w && ids[j] == id {
        let j = choose|j: int| 0 <= j < w && ids[j] == id;
        lemma_first_match_exists(ids, id, j);
    } else {
        assert(is_first_match(ids, id, w));
    }
}

/// The lowercase form of a text, as `str::to_lowercase` computes it.
pub uninterp spec fn lowercase(s: Seq<char>) -> Seq<char>;

/// `needle` stands in `hay` at character offset `i`.
pub open spec fn occurs_at(hay: Seq<char>, needle: Seq<char>, i: int) -> bool {
    0 <= i && i + needle.len() <= hay.len() && hay.subrange(i, i + needle.len()) == needle
}

/// `needle` stands somewhere in `hay`.
pub open spec fn is_substring(hay: Seq<char>, needle: Seq<char>) -> bool {
    exists|i: int| occurs_at(hay, needle, i)
}

/// The parts written one after another with `sep` between neighbours.
pub open spec fn joined(parts: Seq<Seq<char>>, sep: Seq<char>) -> Seq<char>
    decreases parts.len(),
{
    if parts.len() == 0 {
        Seq::empty()
    } else if parts.len() == 1 {
        parts[0]
    } else {
        joined(parts.drop_last(), sep) + sep + parts.last()
    }
}

/// Whether two string slices hold the same characters. Both are copied
/// into owned strings, whose comparison is specified.
pub(crate) fn same_text(a: &str, b: &str) -> (r: bool)
    ensures
        r == (a@ == b@),
{
    let x = a.to_owned();
    let y = b.to_owned();
    x == y
}

/// `str::to_lowercase`: the result is the lowercase form of the argument.
#[verifier::external_body]
pub(crate) fn lowercased(s: &str) -> (r: String)
    ensures
        r@ == lowercase(s@),
{
    s.to_lowercase()
}

/// `str::contains` with a string pattern: true exactly when the pattern's
/// characters stand, in order and without a gap, somewhere in the text.
#[verifier::external_body]
pub(crate) fn contains_text(hay: &str, needle: &str) -> (r: bool)
    ensures
        r == is_substring(hay@, needle@),
{
    hay.contains(needle)
}

/// Whether some string of `list` holds the characters of `id`.
pub(crate) fn contains_name(list: &Vec<String>, id: &str) -> (r: bool)
    ensures
        r == names(list@).contains(id@),
{
    let mut i: usize = 0;
    while i < list.len()
        invariant
            i <= list.len(),
            forall|k: int| 0 <= k < i ==> names(list@)[k] != id@,
        decreases list.len() - i,
    {
        if same_text(list[i].as_str(), id) {
            assert(names(list@)[i as int] == id@);
            return true;
        }
        i += 1;
    }
    false
}

/// The first position in `list` of a string that holds the characters of
/// `id`, if there is one.
pub(crate) fn position_of(list: &Vec<String>, id: &str) -> (r: Option<usize>)
    ensures
        match r {
            Some(k) => k < list.len() && find_first(names(list@), id@) == Some(k as int),
            None => find_first(names(list@), id@) is None,
        },
{
    let mut i: usize = 0;
    while i < list.len()
        invariant
            i <= list.len(),
            forall|k: int| 0 <= k < i ==> names(list@)[k] != id@,
        decreases list.len() - i,
    {
        if same_text(list[i].as_str(), id) {
            proof {
                lemma_find_first(names(list@), id@, i as int);
            }
            return Some(i);
        }
        i += 1;
    }
    None
}

/// Joins the strings of `parts`, writing `sep` between neighbours.
pub(crate) fn join(parts: &Vec<String>, sep: &str) -> (r: String)
    ensures
        r@ == joined(names(parts@), sep@),
{
    let mut out = String::new();
    let mut i: usize = 0;
    while i < parts.len()
        invariant
            i <= parts.len(),
            out@ == joined(names(parts@).take(i as int), sep@),
        decreases parts.len() - i,
    {
        let ghost before = names(parts@).take(i as int);
        let ghost after = names(parts@).take(i + 1);
        proof {
            assert(after.drop_last() == before);
            assert(after.last() == parts[i as int]@);
        }
        if i > 0 {
            out.append(sep);
        }
        out.append(parts[i].as_str());
        proof {
            if i == 0 {
                assert(out@ == parts[0]@);
            }
        }
        i += 1;
    }
    proof {
        assert(names(parts@).take(parts.len() as int) == names(parts@));
    }
    out
}

/// Filtering one entry more either appends that entry or changes nothing.
pub proof fn lemma_filter_step<A>(s: Seq<A>, keep: spec_fn(A) -> bool, k: int)
    requires
        0 <= k < s.len(),
    ensures
        s.take(k + 1).filter(keep) == if keep(s[k]) {
            s.take(k).filter(keep).push(s[k])
        } else {
            s.take(k).filter(keep)
        },
{
    reveal(Seq::filter);
    assert(s.take(k + 1).drop_last() == s.take(k));
}

/// What a list holds after one more entry: what it held, and the entry.
/// Without repeats before, and with an entry that is new, it is without
/// repeats after.
pub proof fn lemma_push_holds(list: Seq<Seq<char>>, x: Seq<char>)
    ensures
        forall|y: Seq<char>| #[trigger] list.push(x).contains(y) ==> list.contains(y) || y == x,
        forall|y: Seq<char>| #[trigger] list.contains(y) ==> list.push(x).contains(y),
        list.push(x).contains(x),
        list.no_duplicates() && !list.contains(x) ==> list.push(x).no_duplicates(),
{
    let more = list.push(x);
    assert forall|y: Seq<char>| #[trigger] more.contains(y) implies list.contains(y) || y
        == x by {
        let w = choose|w: int| 0 <= w < more.len() && more[w] == y;
        if w < list.len() {
            assert(list[w] == y);
        }
    }
    assert forall|y: Seq<char>| #[trigger] list.contains(y) implies more.contains(y) by {
        let w = choose|w: int| 0 <= w < list.len() && list[w] == y;
        assert(more[w] == y);
    }
    assert(more[list.len() as int] == x);
    if list.no_duplicates() && !list.contains(x) {
        assert forall|a: int, b: int|
            0 <= a < more.len() && 0 <= b < more.len() && a != b implies more[a] != more[b] by {
            if a < list.len() {
                assert(list.contains(more[a]));
            }
            if b < list.len() {
                assert(list.contains(more[b]));
            }
        }
    }
}

} // verus!
