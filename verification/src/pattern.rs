//! Symbol patterns.
//!
//! A pattern names a family of symbols. It is written as plain text in which
//! the two characters `.*` stand for any run of characters, the empty run
//! included; every other character stands for itself. A pattern matches a
//! name when it accounts for the whole of it.

use vstd::prelude::*;
use crate::text::chars_of;

verus! {

/// The wildcard `.*` starts at position `i` of `pat`.
pub open spec fn wildcard_at(pat: Seq<char>, i: int) -> bool {
    &&& 0 <= i
    &&& i + 1 < pat.len()
    &&& pat[i] == '.'
    &&& pat[i + 1] == '*'
}

/// What is left of `pat` from position `i` on matches what is left of `name`
/// from position `j` on.
pub open spec fn matches_from(pat: Seq<char>, name: Seq<char>, i: int, j: int) -> bool
    decreases pat.len() - i, name.len() - j,
{
    if i < 0 || j < 0 || j > name.len() {
        false
    } else if i >= pat.len() {
        j == name.len()
    } else if wildcard_at(pat, i) {
        matches_from(pat, name, i + 2, j) || (j < name.len() && matches_from(pat, name, i, j + 1))
    } else {
        j < name.len() && name[j] == pat[i] && matches_from(pat, name, i + 1, j + 1)
    }
}

/// `pat` matches the whole of `name`.
pub open spec fn matches(pat: Seq<char>, name: Seq<char>) -> bool {
    matches_from(pat, name, 0, 0)
}

/// Some pattern of `patterns` matches `name`.
pub open spec fn any_matches(patterns: Seq<Seq<char>>, name: Seq<char>) -> bool {
    exists|k: int| 0 <= k < patterns.len() && matches(#[trigger] patterns[k], name)
}

/// `pat` holds no wildcard.
pub open spec fn is_literal(pat: Seq<char>) -> bool {
    forall|i: int| !wildcard_at(pat, i)
}

/// A pattern without a wildcard, taken from position `i` on, matches from
/// position `j` on exactly when the two remainders are the same text.
proof fn lemma_literal_from(pat: Seq<char>, name: Seq<char>, i: int, j: int)
    requires
        is_literal(pat),
        0 <= i <= pat.len(),
        0 <= j <= name.len(),
    ensures
        matches_from(pat, name, i, j) <==> pat.skip(i) == name.skip(j),
    decreases pat.len() - i,
{
    if i >= pat.len() {
        assert(pat.skip(i).len() == 0);
        assert(name.skip(j).len() == name.len() - j);
        if j == name.len() {
            assert(pat.skip(i) =~= name.skip(j));
        }
    } else {
        assert(!wildcard_at(pat, i));
        if j < name.len() {
            lemma_literal_from(pat, name, i + 1, j + 1);
            assert(pat.skip(i)[0] == pat[i]);
            assert(name.skip(j)[0] == name[j]);
            assert(pat.skip(i).skip(1) =~= pat.skip(i + 1));
            assert(name.skip(j).skip(1) =~= name.skip(j + 1));
            if name[j] == pat[i] && pat.skip(i + 1) == name.skip(j + 1) {
                assert(pat.skip(i + 1).len() == name.skip(j + 1).len());
                assert forall|k: int| 0 <= k < pat.len() - i implies pat.skip(i)[k] == name.skip(
                    j,
                )[k] by {
                    if k > 0 {
                        assert(pat.skip(i + 1)[k - 1] == name.skip(j + 1)[k - 1]);
                    }
                }
                assert(pat.skip(i) =~= name.skip(j));
            }
        } else {
            assert(name.skip(j).len() == 0);
            assert(pat.skip(i).len() > 0);
        }
    }
}

/// A pattern without a wildcard matches its own text and nothing else.
pub proof fn lemma_literal_matches_itself_only(pat: Seq<char>, name: Seq<char>)
    requires
        is_literal(pat),
    ensures
        matches(pat, name) <==> pat == name,
{
    lemma_literal_from(pat, name, 0, 0);
    assert(pat.skip(0) =~= pat);
    assert(name.skip(0) =~= name);
}

/// One row of the matching table: whether the pattern from a fixed position
/// on matches the name from each position on. `inner[j]` answers for position
/// `j` of the name, `at_end` for the position behind its last character.
struct Row {
    inner: Vec<bool>,
    at_end: bool,
}

impl Row {
    /// The row answers for position `i` of `pat` against `name`.
    spec fn answers(&self, pat: Seq<char>, name: Seq<char>, i: int) -> bool {
        &&& self.inner@.len() == name.len()
        &&& self.at_end == matches_from(pat, name, i, name.len() as int)
        &&& forall|j: int| 0 <= j < name.len() ==> self.inner@[j] == matches_from(pat, name, i, j)
    }
}

/// A vector of `n` times `false`.
fn all_false(n: usize) -> (v: Vec<bool>)
    ensures
        v@.len() == n,
        forall|j: int| 0 <= j < n ==> !v@[j],
{
    let mut v: Vec<bool> = Vec::new();
    let mut j: usize = 0;
    while j < n
        invariant
            j <= n,
            v@.len() == j,
            forall|t: int| 0 <= t < j ==> !v@[t],
        decreases n - j,
    {
        v.push(false);
        j += 1;
    }
    v
}

/// The row for position `i` of `pat`, from the rows for the positions `i + 1`
/// and, where the wildcard starts at `i`, `i + 2`.
fn row_before(pat: &Vec<char>, name: &Vec<char>, i: usize, next: &Row, after_next: &Row) -> (row:
    Row)
    requires
        i < pat@.len(),
        next.answers(pat@, name@, i + 1),
        i + 2 <= pat@.len() ==> after_next.answers(pat@, name@, i + 2),
    ensures
        row.answers(pat@, name@, i as int),
{
    let p: usize = pat.len();
    let n: usize = name.len();
    let wild: bool = i + 1 < p && pat[i] == '.' && pat[i + 1] == '*';
    assert(wild == wildcard_at(pat@, i as int));
    let mut inner = all_false(n);
    let at_end: bool = wild && after_next.at_end;
    let mut j: usize = n;
    while j > 0
        invariant
            p == pat@.len(),
            n == name@.len(),
            i < p,
            j <= n,
            wild == wildcard_at(pat@, i as int),
            inner@.len() == n,
            at_end == matches_from(pat@, name@, i as int, n as int),
            next.answers(pat@, name@, i + 1),
            wild ==> after_next.answers(pat@, name@, i + 2),
            forall|t: int| j <= t < n ==> inner@[t] == matches_from(pat@, name@, i as int, t),
        decreases j,
    {
        j -= 1;
        let rest: bool = if j + 1 < n {
            if wild {
                inner[j + 1]
            } else {
                next.inner[j + 1]
            }
        } else {
            if wild {
                at_end
            } else {
                next.at_end
            }
        };
        let here: bool = if wild {
            after_next.inner[j] || rest
        } else {
            name[j] == pat[i] && rest
        };
        inner[j] = here;
    }
    Row { inner, at_end }
}

/// Whether `pat` matches the whole of `name`, both given by their characters.
pub fn chars_match(pat: &Vec<char>, name: &Vec<char>) -> (r: bool)
    ensures
        r == matches(pat@, name@),
{
    let p: usize = pat.len();
    let n: usize = name.len();
    let mut next = Row { inner: all_false(n), at_end: true };
    let mut after_next = Row { inner: Vec::new(), at_end: false };
    let mut i: usize = p;
    while i > 0
        invariant
            p == pat@.len(),
            n == name@.len(),
            i <= p,
            next.answers(pat@, name@, i as int),
            i + 1 <= p ==> after_next.answers(pat@, name@, i + 1),
        decreases i,
    {
        i -= 1;
        let row = row_before(pat, name, i, &next, &after_next);
        after_next = next;
        next = row;
    }
    if n == 0 {
        next.at_end
    } else {
        next.inner[0]
    }
}

/// Whether `pattern` matches the whole of `name`.
pub fn pattern_matches(pattern: &str, name: &str) -> (r: bool)
    ensures
        r == matches(pattern@, name@),
{
    let p = chars_of(pattern);
    let n = chars_of(name);
    chars_match(&p, &n)
}

/// Whether some pattern of `patterns` matches the whole of `name`.
pub fn chars_match_any(patterns: &Vec<Vec<char>>, name: &Vec<char>) -> (r: bool)
    ensures
        r == any_matches(patterns.deep_view(), name@),
{
    let n: usize = patterns.len();
    let mut k: usize = 0;
    while k < n
        invariant
            n == patterns@.len(),
            k <= n,
            forall|t: int| 0 <= t < k ==> !matches(#[trigger] patterns.deep_view()[t], name@),
        decreases n - k,
    {
        assert(patterns.deep_view()[k as int] == patterns@[k as int]@);
        if chars_match(&patterns[k], name) {
            return true;
        }
        k += 1;
    }
    false
}

/// The characters of each string of `list`.
pub fn chars_of_each(list: &Vec<String>) -> (r: Vec<Vec<char>>)
    ensures
        r.deep_view() == list.deep_view(),
{
    let n: usize = list.len();
    let mut r: Vec<Vec<char>> = Vec::new();
    let mut k: usize = 0;
    while k < n
        invariant
            n == list@.len(),
            k <= n,
            r@.len() == k,
            forall|t: int| 0 <= t < k ==> r@[t]@ == list@[t]@,
        decreases n - k,
    {
        r.push(chars_of(list[k].as_str()));
        k += 1;
    }
    assert forall|t: int| 0 <= t < n implies r.deep_view()[t] == list.deep_view()[t] by {
        assert(r@[t].deep_view() =~= r@[t]@);
    }
    assert(r.deep_view() =~= list.deep_view());
    r
}

} // verus!
