use vstd::prelude::*;

verus! {

/// ASCII decimal digit.
pub open spec fn is_digit_char(c: char) -> bool {
    '0' <= c && c <= '9'
}

/// ASCII letter.
pub open spec fn is_alpha_char(c: char) -> bool {
    ('a' <= c && c <= 'z') || ('A' <= c && c <= 'Z')
}

/// `needle` occurs somewhere in `hay`.
pub open spec fn contains_seq(hay: Seq<char>, needle: Seq<char>) -> bool {
    exists|i: int|
        0 <= i && i + needle.len() <= hay.len() && #[trigger] hay.subrange(i, i + needle.len())
            == needle
}

/// `s` begins with `prefix`.
pub open spec fn starts_with_seq(s: Seq<char>, prefix: Seq<char>) -> bool {
    prefix.len() <= s.len() && s.subrange(0, prefix.len() as int) == prefix
}

/// `s` ends with `suffix`.
pub open spec fn ends_with_seq(s: Seq<char>, suffix: Seq<char>) -> bool {
    suffix.len() <= s.len() && s.subrange(s.len() - suffix.len(), s.len() as int) == suffix
}

/// Position of the first `c` in `s`.
#[verifier::opaque]
pub open spec fn first_index(s: Seq<char>, c: char) -> Option<int> {
    if exists|i: int| 0 <= i < s.len() && s[i] == c {
        Some(choose|i: int| 0 <= i < s.len() && s[i] == c && forall|j: int| 0 <= j < i ==> s[j] != c)
    } else {
        None
    }
}

/// Position of the last `c` in `s`.
#[verifier::opaque]
pub open spec fn last_index(s: Seq<char>, c: char) -> Option<int> {
    if exists|i: int| 0 <= i < s.len() && s[i] == c {
        Some(choose|i: int| 0 <= i < s.len() && s[i] == c && forall|j: int| i < j < s.len() ==> s[j] != c)
    } else {
        None
    }
}

/// The first position of `c` holds `c`, and no earlier one does.
pub proof fn lemma_first_index(s: Seq<char>, c: char)
    ensures
        first_index(s, c) matches Some(i) ==> 0 <= i < s.len() && s[i] == c && forall|j: int|
            0 <= j < i ==> s[j] != c,
        first_index(s, c) is None ==> forall|j: int| 0 <= j < s.len() ==> s[j] != c,
{
    reveal(first_index);
    if exists|i: int| 0 <= i < s.len() && s[i] == c {
        let w = choose|i: int| 0 <= i < s.len() && s[i] == c;
        lemma_least_index(s, c, w);
    }
}

/// The last position of `c` holds `c`, and no later one does.
pub proof fn lemma_last_index(s: Seq<char>, c: char)
    ensures
        last_index(s, c) matches Some(i) ==> 0 <= i < s.len() && s[i] == c && forall|j: int|
            i < j < s.len() ==> s[j] != c,
        last_index(s, c) is None ==> forall|j: int| 0 <= j < s.len() ==> s[j] != c,
{
    reveal(last_index);
    if exists|i: int| 0 <= i < s.len() && s[i] == c {
        let w = choose|i: int| 0 <= i < s.len() && s[i] == c;
        lemma_greatest_index(s, c, w);
    }
}

/// Above any position of `c` lies a last one.
proof fn lemma_greatest_index(s: Seq<char>, c: char, w: int)
    requires
        0 <= w < s.len(),
        s[w] == c,
    ensures
        exists|i: int| 0 <= i < s.len() && s[i] == c && forall|j: int| i < j < s.len() ==> s[j] != c,
    decreases s.len() - w,
{
    if exists|j: int| w < j < s.len() && s[j] == c {
        let j = choose|j: int| w < j < s.len() && s[j] == c;
        lemma_greatest_index(s, c, j);
    } else {
        assert(forall|j: int| w < j < s.len() ==> s[j] != c);
    }
}

/// A position is the first `c` exactly when it holds `c` and none before does;
/// likewise for the last.
pub proof fn lemma_index_unique(s: Seq<char>, c: char, i: int)
    requires
        0 <= i < s.len(),
        s[i] == c,
    ensures
        (forall|j: int| 0 <= j < i ==> s[j] != c) ==> first_index(s, c) == Some(i),
        (forall|j: int| i < j < s.len() ==> s[j] != c) ==> last_index(s, c) == Some(i),
{
    lemma_first_index(s, c);
    lemma_last_index(s, c);
    if forall|j: int| 0 <= j < i ==> s[j] != c {
        let k = first_index(s, c)->0;
        if k < i {
            assert(s[k] == c);
        }
        if k > i {
            assert(s[i] != c);
        }
    }
    if forall|j: int| i < j < s.len() ==> s[j] != c {
        let k = last_index(s, c)->0;
        if k > i {
            assert(s[k] == c);
        }
        if k < i {
            assert(s[i] != c);
        }
    }
}

/// Below any position of `c` lies a first one.
proof fn lemma_least_index(s: Seq<char>, c: char, w: int)
    requires
        0 <= w < s.len(),
        s[w] == c,
    ensures
        exists|i: int| 0 <= i < s.len() && s[i] == c && forall|j: int| 0 <= j < i ==> s[j] != c,
    decreases w,
{
    if exists|j: int| 0 <= j < w && s[j] == c {
        let j = choose|j: int| 0 <= j < w && s[j] == c;
        lemma_least_index(s, c, j);
    } else {
        assert(forall|j: int| 0 <= j < w ==> s[j] != c);
    }
}

/// The characters of `s`, in order.
pub fn chars_of(s: &str) -> (v: Vec<char>)
    ensures
        v@ == s@,
{
    let mut v: Vec<char> = Vec::new();
    for c in it: s.chars()
        invariant
            v@ == it.seq().take(it.index() as int),
            it.seq() == s@,
    {
        v.push(c);
    }
    v
}

/// Whether `needle` occurs in `hay` starting at position `at`.
fn occurs_at(hay: &Vec<char>, needle: &Vec<char>, at: usize) -> (r: bool)
    requires
        at + needle.len() <= hay.len(),
    ensures
        r == (hay@.subrange(at as int, at + needle.len()) == needle@),
{
    let n = needle.len();
    let mut k: usize = 0;
    while k < n
        invariant
            k <= n,
            n == needle.len(),
            at + n <= hay.len(),
            forall|j: int| 0 <= j < k ==> hay@[at + j] == needle@[j],
        decreases n - k,
    {
        if hay[at + k] != needle[k] {
            assert(hay@.subrange(at as int, at + n)[k as int] != needle@[k as int]);
            return false;
        }
        k = k + 1;
    }
    assert(hay@.subrange(at as int, at + n) =~= needle@);
    true
}

/// Substring test, as `str::contains` with a string pattern.
pub fn contains_text(hay: &str, needle: &str) -> (r: bool)
    ensures
        r == contains_seq(hay@, needle@),
{
    let h = chars_of(hay);
    let n = chars_of(needle);
    if n.len() > h.len() {
        return false;
    }
    if n.len() == 0 {
        assert(hay@.subrange(0int, 0int + needle@.len()) =~= needle@);
        return true;
    }
    let last = h.len() - n.len();
    let mut i: usize = 0;
    while i <= last
        invariant
            h@ == hay@,
            n@ == needle@,
            last == h.len() - n.len(),
            0 < n.len() <= h.len(),
            forall|j: int| 0 <= j < i ==> #[trigger] hay@.subrange(j, j + needle@.len()) != needle@,
        decreases last + 1 - i,
    {
        if occurs_at(&h, &n, i) {
            return true;
        }
        i = i + 1;
    }
    false
}

/// Prefix test, as `str::starts_with` with a string pattern.
pub fn starts_with_text(s: &str, prefix: &str) -> (r: bool)
    ensures
        r == starts_with_seq(s@, prefix@),
{
    let v = chars_of(s);
    let p = chars_of(prefix);
    if p.len() > v.len() {
        return false;
    }
    occurs_at(&v, &p, 0)
}

/// Suffix test, as `str::ends_with` with a string pattern.
pub fn ends_with_text(s: &str, suffix: &str) -> (r: bool)
    ensures
        r == ends_with_seq(s@, suffix@),
{
    let v = chars_of(s);
    let p = chars_of(suffix);
    if p.len() > v.len() {
        return false;
    }
    occurs_at(&v, &p, v.len() - p.len())
}

/// Character position of the first `c`, as `str::find` counted in characters.
pub fn find_char(s: &Vec<char>, c: char) -> (r: Option<usize>)
    ensures
        r matches Some(i) ==> i < s.len() && s@[i as int] == c && first_index(s@, c) == Some(i as int),
        r is None ==> first_index(s@, c) is None,
{
    reveal(first_index);
    let mut i: usize = 0;
    while i < s.len()
        invariant
            i <= s.len(),
            forall|j: int| 0 <= j < i ==> s@[j] != c,
        decreases s.len() - i,
    {
        if s[i] == c {
            reveal(first_index);
            let ghost w = choose|k: int| 0 <= k < s@.len() && s@[k] == c && forall|j: int| 0 <= j < k ==> s@[j] != c;
            assert(s@[i as int] == c && forall|j: int| 0 <= j < i ==> s@[j] != c);
            assert(w == i) by {
                if w < i { assert(s@[w] != c); }
                if w > i { assert(s@[i as int] != c); }
            }
            return Some(i);
        }
        i = i + 1;
    }
    None
}

/// Character position of the last `c`, as `str::rfind` counted in characters.
pub fn rfind_char(s: &Vec<char>, c: char) -> (r: Option<usize>)
    ensures
        r matches Some(i) ==> i < s.len() && s@[i as int] == c && last_index(s@, c) == Some(i as int),
        r is None ==> last_index(s@, c) is None,
{
    reveal(last_index);
    let mut i: usize = s.len();
    while i > 0
        invariant
            i <= s.len(),
            forall|j: int| i <= j < s.len() ==> s@[j] != c,
        decreases i,
    {
        if s[i - 1] == c {
            let k = i - 1;
            reveal(last_index);
            let ghost w = choose|m: int| 0 <= m < s@.len() && s@[m] == c && forall|j: int| m < j < s@.len() ==> s@[j] != c;
            assert(s@[k as int] == c && forall|j: int| k < j < s@.len() ==> s@[j] != c);
            assert(w == k) by {
                if w < k { assert(s@[k as int] != c); }
                if w > k { assert(s@[w] != c); }
            }
            return Some(k);
        }
        i = i - 1;
    }
    None
}

/// Unicode lowercase mapping of a text (`str::to_lowercase`).
pub uninterp spec fn lowercase(s: Seq<char>) -> Seq<char>;

/// Unicode uppercase mapping of a text (`str::to_uppercase`).
pub uninterp spec fn uppercase(s: Seq<char>) -> Seq<char>;

/// Calls `str::to_lowercase`; the contract names its result and claims
/// only that it depends on the text alone.
#[verifier::external_body]
pub(crate) fn to_lowercase(s: &str) -> (r: String)
    ensures
        r@ == lowercase(s@),
{
    s.to_lowercase()
}

/// Calls `str::to_uppercase`; the contract names its result and claims
/// only that it depends on the text alone.
#[verifier::external_body]
pub(crate) fn to_uppercase(s: &str) -> (r: String)
    ensures
        r@ == uppercase(s@),
{
    s.to_uppercase()
}

} // verus!
