//! Text primitives over character sequences: search, splice and replace.
use vstd::prelude::*;
use vstd::std_specs::iter::IteratorSpec;

verus! {

broadcast use vstd::string::group_string_axioms;

/// `needle` occurs in `hay` starting at position `i`.
pub open spec fn occurs_at(hay: Seq<char>, needle: Seq<char>, i: int) -> bool {
    0 <= i && i + needle.len() <= hay.len() && hay.subrange(i, i + needle.len()) == needle
}

/// First occurrence of `needle` in `hay` at a position `>= k`.
pub open spec fn find_from(hay: Seq<char>, needle: Seq<char>, k: int) -> Option<int>
    decreases hay.len() + 1 - k,
{
    if k < 0 || k + needle.len() > hay.len() {
        None
    } else if occurs_at(hay, needle, k) {
        Some(k)
    } else {
        find_from(hay, needle, k + 1)
    }
}

/// First occurrence of `needle` in `hay`.
pub open spec fn find(hay: Seq<char>, needle: Seq<char>) -> Option<int> {
    find_from(hay, needle, 0)
}

/// `hay` contains `needle` somewhere.
pub open spec fn contains(hay: Seq<char>, needle: Seq<char>) -> bool {
    find(hay, needle) is Some
}

/// Last occurrence of `needle` in `hay` at a position `<= k`.
pub open spec fn rfind_upto(hay: Seq<char>, needle: Seq<char>, k: int) -> Option<int>
    decreases k + 1,
{
    if k < 0 {
        None
    } else if occurs_at(hay, needle, k) {
        Some(k)
    } else {
        rfind_upto(hay, needle, k - 1)
    }
}

/// Last occurrence of `needle` in `hay`.
pub open spec fn rfind(hay: Seq<char>, needle: Seq<char>) -> Option<int> {
    rfind_upto(hay, needle, hay.len() - needle.len())
}

/// `hay` with `ins` put in at position `at`.
pub open spec fn splice(hay: Seq<char>, at: int, ins: Seq<char>) -> Seq<char> {
    hay.subrange(0, at) + ins + hay.subrange(at, hay.len() as int)
}

/// `hay` with its first occurrence of `pat` replaced by `rep`; `hay` itself
/// where `pat` does not occur.
pub open spec fn replace_first(hay: Seq<char>, pat: Seq<char>, rep: Seq<char>) -> Seq<char> {
    match find(hay, pat) {
        Some(i) => hay.subrange(0, i) + rep + hay.subrange(i + pat.len(), hay.len() as int),
        None => hay,
    }
}

pub open spec fn opt_int(r: Option<usize>) -> Option<int> {
    match r {
        Some(i) => Some(i as int),
        None => None,
    }
}

/// What `find_from` returns is an occurrence, and the first one from `k` on.
pub proof fn lemma_find_from(hay: Seq<char>, needle: Seq<char>, k: int)
    requires
        0 <= k,
    ensures
        match find_from(hay, needle, k) {
            Some(i) => occurs_at(hay, needle, i) && k <= i && forall|j: int|
                k <= j < i ==> !occurs_at(hay, needle, j),
            None => forall|j: int| k <= j ==> !occurs_at(hay, needle, j),
        },
    decreases hay.len() + 1 - k,
{
    if k + needle.len() > hay.len() {
    } else if occurs_at(hay, needle, k) {
    } else {
        lemma_find_from(hay, needle, k + 1);
    }
}

/// What `rfind_upto` returns is an occurrence, and the last one up to `k`.
pub proof fn lemma_rfind_upto(hay: Seq<char>, needle: Seq<char>, k: int)
    ensures
        match rfind_upto(hay, needle, k) {
            Some(i) => occurs_at(hay, needle, i) && 0 <= i <= k && forall|j: int|
                i < j <= k ==> !occurs_at(hay, needle, j),
            None => forall|j: int| j <= k ==> !occurs_at(hay, needle, j),
        },
    decreases k + 1,
{
    if k < 0 {
    } else if occurs_at(hay, needle, k) {
    } else {
        lemma_rfind_upto(hay, needle, k - 1);
    }
}

/// Relies on String::push: appends one character.
#[verifier::external_body]
fn push_char(s: &mut String, c: char)
    ensures
        final(s)@ == old(s)@.push(c),
{
    s.push(c);
}

/// The characters of `s`, in order.
pub fn chars_of(s: &str) -> (r: Vec<char>)
    ensures
        r@ == s@,
{
    let mut v: Vec<char> = Vec::new();
    for c in it: s.chars()
        invariant
            v@ == it.seq().take(it.index() as int),
    {
        v.push(c);
    }
    assert(v@ =~= s@);
    v
}

/// The string made of the characters `v`.
pub fn string_of(v: &[char]) -> (r: String)
    ensures
        r@ == v@,
{
    let mut s = String::new();
    let mut i: usize = 0;
    while i < v.len()
        invariant
            i <= v.len(),
            s@ == v@.subrange(0, i as int),
        decreases v.len() - i,
    {
        push_char(&mut s, v[i]);
        i += 1;
        assert(s@ =~= v@.subrange(0, i as int));
    }
    assert(v@.subrange(0, v.len() as int) =~= v@);
    s
}

/// Concatenation of two character sequences.
pub fn cat(a: &[char], b: &[char]) -> (r: Vec<char>)
    ensures
        r@ == a@ + b@,
{
    let mut v: Vec<char> = Vec::new();
    v.extend_from_slice(a);
    v.extend_from_slice(b);
    assert(v@ =~= a@ + b@);
    v
}

/// Concatenation of a character sequence and a string.
pub fn cat_str(a: &[char], b: &str) -> (r: Vec<char>)
    ensures
        r@ == a@ + b@,
{
    let bs = chars_of(b);
    cat(a, bs.as_slice())
}

/// The string `a` followed by `b`.
pub fn concat2(a: &str, b: &str) -> (r: String)
    ensures
        r@ == a@ + b@,
{
    let v = cat_str(chars_of(a).as_slice(), b);
    string_of(v.as_slice())
}

/// The string `a`, then `b`, then `c`.
pub fn concat3(a: &str, b: &str, c: &str) -> (r: String)
    ensures
        r@ == a@ + b@ + c@,
{
    let ab = concat2(a, b);
    concat2(ab.as_str(), c)
}

/// Whether `needle` occurs in `hay` at position `i`.
pub fn matches_at(hay: &[char], needle: &[char], i: usize) -> (r: bool)
    ensures
        r == occurs_at(hay@, needle@, i as int),
{
    if i > hay.len() || needle.len() > hay.len() - i {
        return false;
    }
    let mut j: usize = 0;
    while j < needle.len()
        invariant
            i + needle.len() <= hay.len(),
            j <= needle.len(),
            forall|t: int| 0 <= t < j ==> hay@[i + t] == needle@[t],
        decreases needle.len() - j,
    {
        if hay[i + j] != needle[j] {
            assert(hay@.subrange(i as int, i + needle.len())[j as int] != needle@[j as int]);
            return false;
        }
        j += 1;
    }
    assert(hay@.subrange(i as int, i + needle.len()) =~= needle@);
    true
}

/// First position `>= from` where `needle` occurs in `hay`.
pub fn find_chars(hay: &[char], needle: &[char], from: usize) -> (r: Option<usize>)
    ensures
        opt_int(r) == find_from(hay@, needle@, from as int),
{
    if needle.len() > hay.len() {
        return None;
    }
    let last = hay.len() - needle.len();
    let mut i = from;
    while i <= last
        invariant
            last == hay.len() - needle.len(),
            from <= i,
            find_from(hay@, needle@, from as int) == find_from(hay@, needle@, i as int),
        decreases last + 1 - i,
    {
        if matches_at(hay, needle, i) {
            return Some(i);
        }
        if i == last {
            assert(find_from(hay@, needle@, i + 1) is None);
            return None;
        }
        i += 1;
    }
    None
}

/// Last position where `needle` occurs in `hay`.
pub fn rfind_chars(hay: &[char], needle: &[char]) -> (r: Option<usize>)
    ensures
        opt_int(r) == rfind(hay@, needle@),
{
    if needle.len() > hay.len() {
        proof {
            lemma_rfind_upto(hay@, needle@, hay@.len() - needle@.len());
        }
        return None;
    }
    let mut k = hay.len() - needle.len();
    loop
        invariant
            k + needle.len() <= hay.len(),
            rfind(hay@, needle@) == rfind_upto(hay@, needle@, k as int),
        decreases k,
    {
        if matches_at(hay, needle, k) {
            return Some(k);
        }
        if k == 0 {
            assert(rfind_upto(hay@, needle@, -1) is None);
            return None;
        }
        k -= 1;
    }
}

/// Whether `needle` occurs anywhere in `hay`.
pub fn contains_chars(hay: &[char], needle: &[char]) -> (r: bool)
    ensures
        r == contains(hay@, needle@),
{
    find_chars(hay, needle, 0).is_some()
}

/// `hay` with `ins` put in at position `at`.
pub fn splice_chars(hay: &[char], at: usize, ins: &[char]) -> (r: Vec<char>)
    requires
        at <= hay.len(),
    ensures
        r@ == splice(hay@, at as int, ins@),
{
    let mut v: Vec<char> = Vec::new();
    v.extend_from_slice(&hay[0..at]);
    v.extend_from_slice(ins);
    v.extend_from_slice(&hay[at..hay.len()]);
    assert(v@ =~= splice(hay@, at as int, ins@));
    v
}

/// `hay` with its first occurrence of `pat` replaced by `rep`.
pub fn replace_first_chars(hay: &[char], pat: &[char], rep: &[char]) -> (r: Vec<char>)
    ensures
        r@ == replace_first(hay@, pat@, rep@),
{
    let found = find_chars(hay, pat, 0);
    proof {
        lemma_find_from(hay@, pat@, 0);
    }
    match found {
        Some(i) => {
            assert(occurs_at(hay@, pat@, i as int));
            let hl = hay.len();
            assert(i + pat@.len() <= hl);
            let end = i + pat.len();
            let mut v: Vec<char> = Vec::new();
            v.extend_from_slice(&hay[0..i]);
            v.extend_from_slice(rep);
            v.extend_from_slice(&hay[end..hay.len()]);
            assert(v@ =~= replace_first(hay@, pat@, rep@));
            v
        },
        None => {
            let mut v: Vec<char> = Vec::new();
            v.extend_from_slice(hay);
            v
        },
    }
}

} // verus!
