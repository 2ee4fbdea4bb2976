use vstd::prelude::*;

use vstd::string::{StrSliceExecFns, StringExecFns};

verus! {

broadcast use vstd::string::group_string_axioms;

/// The characters of `s`, in order.
pub fn chars_of(s: &str) -> (v: Vec<char>)
    ensures
        v@ == s@,
{
    let mut v: Vec<char> = Vec::new();
    for c in it: s.chars()
        invariant
            v@ == it.history(),
    {
        v.push(c);
    }
    v
}

/// The owned copy of the characters `from..to` of `s`.
pub fn substring(s: &str, from: usize, to: usize) -> (r: String)
    requires
        from <= to <= s@.len(),
    ensures
        r@ == s@.subrange(from as int, to as int),
{
    String::from_str(s.substring_char(from, to))
}

/// `String::push`: appends the character `c` to `s`.
#[verifier::external_body]
pub(crate) fn push_char(s: &mut String, c: char)
    ensures
        final(s)@ == old(s)@.push(c),
{
    s.push(c);
}

/// `needle` occurs in `hay` at position `i`.
pub open spec fn occurs_at(hay: Seq<char>, needle: Seq<char>, i: int) -> bool {
    0 <= i && i + needle.len() <= hay.len() && hay.subrange(i, i + needle.len()) == needle
}

/// The first position at or after `from` where `needle` occurs in `hay`.
pub open spec fn find_from(hay: Seq<char>, needle: Seq<char>, from: int) -> Option<int>
    decreases hay.len() + 1 - from,
{
    if from < 0 || from + needle.len() > hay.len() {
        None
    } else if occurs_at(hay, needle, from) {
        Some(from)
    } else {
        find_from(hay, needle, from + 1)
    }
}

/// The first position where `needle` occurs in `hay` (`str::find`).
pub open spec fn find(hay: Seq<char>, needle: Seq<char>) -> Option<int> {
    find_from(hay, needle, 0)
}

/// `hay` contains `needle` somewhere.
pub open spec fn contains(hay: Seq<char>, needle: Seq<char>) -> bool {
    exists|i: int| occurs_at(hay, needle, i)
}

proof fn lemma_find_from_bounds(hay: Seq<char>, needle: Seq<char>, from: int)
    requires
        from >= 0,
    ensures
        find_from(hay, needle, from) matches Some(i) ==> from <= i && occurs_at(hay, needle, i)
            && forall|j: int| from <= j < i ==> !#[trigger] occurs_at(hay, needle, j),
        find_from(hay, needle, from) is None ==> forall|i: int|
            from <= i ==> !#[trigger] occurs_at(hay, needle, i),
    decreases hay.len() + 1 - from,
{
    if from + needle.len() > hay.len() {
    } else if !occurs_at(hay, needle, from) {
        lemma_find_from_bounds(hay, needle, from + 1);
    }
}

/// What `find` says: the position found is an occurrence, and there is none
/// before it; `None` means there is no occurrence at all.
pub proof fn lemma_find(hay: Seq<char>, needle: Seq<char>)
    ensures
        find(hay, needle) matches Some(i) ==> occurs_at(hay, needle, i) && forall|j: int|
            0 <= j < i ==> !#[trigger] occurs_at(hay, needle, j),
        find(hay, needle) is None <==> !contains(hay, needle),
{
    lemma_find_from_bounds(hay, needle, 0);
}

/// Searching from `base + j` in `hay` is searching from `j` in what follows
/// `base`, shifted by `base`.
pub proof fn lemma_find_skip(hay: Seq<char>, needle: Seq<char>, base: int, j: int)
    requires
        0 <= base <= hay.len(),
        0 <= j,
    ensures
        find_from(hay, needle, base + j) == match find_from(hay.skip(base), needle, j) {
            Some(x) => Some(x + base),
            None => None,
        },
    decreases hay.len() + 1 - (base + j),
{
    let rest = hay.skip(base);
    if base + j + needle.len() <= hay.len() {
        assert(hay.subrange(base + j, base + j + needle.len()) =~= rest.subrange(
            j,
            j + needle.len(),
        ));
        if !occurs_at(hay, needle, base + j) {
            lemma_find_skip(hay, needle, base, j + 1);
        }
    }
}

/// The first position at or after `from` where `needle` occurs in `hay`.
pub fn find_chars(hay: &Vec<char>, needle: &Vec<char>, from: usize) -> (r: Option<usize>)
    ensures
        r matches Some(i) ==> find_from(hay@, needle@, from as int) == Some(i as int),
        r is None ==> find_from(hay@, needle@, from as int) is None,
{
    let n = hay.len();
    let m = needle.len();
    if m > n {
        return None;
    }
    if from > n - m {
        return None;
    }
    let mut i = from;
    loop
        invariant
            n == hay@.len(),
            m == needle@.len(),
            m <= n,
            from <= i <= n - m,
            find_from(hay@, needle@, from as int) == find_from(hay@, needle@, i as int),
        decreases n - m - i,
    {
        let mut k: usize = 0;
        let mut same = true;
        while k < m
            invariant
                n == hay@.len(),
                m == needle@.len(),
                i + m <= n,
                k <= m,
                same <==> forall|t: int| 0 <= t < k ==> hay@[i + t] == needle@[t],
            decreases m - k,
        {
            if hay[i + k] != needle[k] {
                same = false;
            }
            k = k + 1;
        }
        if same {
            assert(hay@.subrange(i as int, i + m) =~= needle@);
            return Some(i);
        } else {
            proof {
                let t = choose|t: int| 0 <= t < m && hay@[i + t] != needle@[t];
                assert(hay@.subrange(i as int, i + m)[t] != needle@[t]);
            }
        }
        if i == n - m {
            assert(find_from(hay@, needle@, i + 1) is None);
            return None;
        }
        i = i + 1;
    }
}

/// Whether `a` and `b` hold the same characters.
pub fn same_chars(a: &Vec<char>, b: &Vec<char>) -> (r: bool)
    ensures
        r == (a@ == b@),
{
    if a.len() != b.len() {
        return false;
    }
    let n = a.len();
    let mut i: usize = 0;
    while i < n
        invariant
            n == a@.len(),
            n == b@.len(),
            i <= n,
            forall|t: int| 0 <= t < i ==> a@[t] == b@[t],
        decreases n - i,
    {
        if a[i] != b[i] {
            return false;
        }
        i = i + 1;
    }
    assert(a@ =~= b@);
    true
}

/// Whether the characters of `s` are those of `t`.
pub fn str_equals(s: &str, t: &str) -> (r: bool)
    ensures
        r == (s@ == t@),
{
    same_chars(&chars_of(s), &chars_of(t))
}

/// Whether `hay` contains `needle` (`str::contains`).
pub fn contains_str(hay: &str, needle: &str) -> (r: bool)
    ensures
        r == contains(hay@, needle@),
{
    let found = find_chars(&chars_of(hay), &chars_of(needle), 0);
    proof {
        lemma_find(hay@, needle@);
    }
    found.is_some()
}

/// Whether `s` starts with `prefix` (`str::starts_with`).
pub fn has_prefix(s: &str, prefix: &str) -> (r: bool)
    ensures
        r == prefix@.is_prefix_of(s@),
{
    let a = chars_of(s);
    let p = chars_of(prefix);
    let m = p.len();
    if m > a.len() {
        return false;
    }
    let mut k: usize = 0;
    while k < m
        invariant
            m == p@.len(),
            m <= a@.len(),
            a@ == s@,
            p@ == prefix@,
            k <= m,
            forall|t: int| 0 <= t < k ==> a@[t] == p@[t],
        decreases m - k,
    {
        if a[k] != p[k] {
            assert(a@.subrange(0, m as int)[k as int] != p@[k as int]);
            return false;
        }
        k = k + 1;
    }
    assert(a@.subrange(0, m as int) =~= p@);
    true
}

/// Whether `s` ends with `suffix` (`str::ends_with`).
pub fn has_suffix(s: &str, suffix: &str) -> (r: bool)
    ensures
        r == suffix@.is_suffix_of(s@),
{
    let a = chars_of(s);
    let p = chars_of(suffix);
    let m = p.len();
    let n = a.len();
    if m > n {
        return false;
    }
    let off = n - m;
    let mut k: usize = 0;
    while k < m
        invariant
            m == p@.len(),
            n == a@.len(),
            a@ == s@,
            p@ == suffix@,
            off == n - m,
            k <= m,
            forall|t: int| 0 <= t < k ==> a@[off + t] == p@[t],
        decreases m - k,
    {
        if a[off + k] != p[k] {
            assert(a@.subrange(off as int, n as int)[k as int] != p@[k as int]);
            return false;
        }
        k = k + 1;
    }
    assert(a@.subrange(off as int, n as int) =~= p@);
    true
}

} // verus!
