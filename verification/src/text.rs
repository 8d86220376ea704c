//! Character sequences: searching, splitting and joining.
//!
//! Strings are modelled by their sequence of characters, `Seq<char>`. The
//! executable functions work on `&[char]`, where a position is an index and
//! a step costs the same anywhere in the text.

use vstd::prelude::*;
use vstd::utf8::encode_utf8;

verus! {

/// `String::push` appends one character at the end of the string.
pub assume_specification[ String::push ](s: &mut String, c: char)
    ensures
        final(s)@ == old(s)@.push(c),
;

/// The characters of `s`, in order.
pub fn chars_of(s: &str) -> (chars: Vec<char>)
    ensures
        chars@ == s@,
{
    broadcast use vstd::string::group_string_axioms;

    let mut chars: Vec<char> = Vec::new();
    for c in it: s.chars()
        invariant
            it.seq() == s@,
            chars@ == s@.take(it.index()),
    {
        chars.push(c);
    }
    chars
}

/// The string made of the characters `chars`.
pub fn string_of(chars: &[char]) -> (s: String)
    ensures
        s@ == chars@,
{
    let mut s = String::new();
    let mut i: usize = 0;
    while i < chars.len()
        invariant
            i <= chars@.len(),
            s@ == chars@.take(i as int),
        decreases chars@.len() - i,
    {
        s.push(chars[i]);
        i += 1;
    }
    s
}

/// `pat` stands in `s` at position `i`.
pub open spec fn occurs_at(s: Seq<char>, pat: Seq<char>, i: int) -> bool {
    0 <= i && i + pat.len() <= s.len() && s.subrange(i, i + pat.len()) == pat
}

/// `pat` stands in `s` at position `i` and at no earlier position.
pub open spec fn first_at(s: Seq<char>, pat: Seq<char>, i: int) -> bool {
    occurs_at(s, pat, i) && forall|j: int| 0 <= j < i ==> !occurs_at(s, pat, j)
}

/// The position of the first occurrence of `pat` in `s`, if `pat` occurs.
pub open spec fn find(s: Seq<char>, pat: Seq<char>) -> Option<int> {
    if exists|i: int| occurs_at(s, pat, i) {
        Some(choose|i: int| first_at(s, pat, i))
    } else {
        None
    }
}

/// Below any occurrence there is a first one.
proof fn lemma_first_exists(s: Seq<char>, pat: Seq<char>, i: int)
    requires
        occurs_at(s, pat, i),
    ensures
        exists|k: int| first_at(s, pat, k) && k <= i,
    decreases i,
{
    if exists|j: int| 0 <= j < i && occurs_at(s, pat, j) {
        let j = choose|j: int| 0 <= j < i && occurs_at(s, pat, j);
        lemma_first_exists(s, pat, j);
    } else {
        assert(first_at(s, pat, i));
    }
}

/// `find` gives the first occurrence, and nothing only where there is none.
pub proof fn lemma_find(s: Seq<char>, pat: Seq<char>)
    ensures
        find(s, pat) matches Some(i) ==> first_at(s, pat, i),
        find(s, pat) is None ==> forall|i: int| !occurs_at(s, pat, i),
{
    if exists|i: int| occurs_at(s, pat, i) {
        let i = choose|i: int| occurs_at(s, pat, i);
        lemma_first_exists(s, pat, i);
    }
}

/// A first occurrence is what `find` gives.
pub proof fn lemma_find_is(s: Seq<char>, pat: Seq<char>, i: int)
    requires
        first_at(s, pat, i),
    ensures
        find(s, pat) == Some(i),
{
    lemma_find(s, pat);
}

/// Without any occurrence `find` gives nothing.
pub proof fn lemma_find_none(s: Seq<char>, pat: Seq<char>)
    requires
        forall|i: int| 0 <= i && i + pat.len() <= s.len() ==> !occurs_at(s, pat, i),
    ensures
        find(s, pat) is None,
{
}

/// Whether `pat` stands in `s` at position `at`.
pub fn matches_at(s: &[char], pat: &[char], at: usize) -> (hit: bool)
    ensures
        hit == occurs_at(s@, pat@, at as int),
{
    if pat.len() > s.len() || at > s.len() - pat.len() {
        return false;
    }
    let mut k: usize = 0;
    while k < pat.len()
        invariant
            at + pat@.len() <= s@.len() <= usize::MAX,
            k <= pat@.len(),
            forall|j: int| 0 <= j < k ==> s@[at + j] == pat@[j],
        decreases pat@.len() - k,
    {
        if s[at + k] != pat[k] {
            return false;
        }
        k += 1;
    }
    assert(s@.subrange(at as int, at + pat@.len()) =~= pat@);
    true
}

/// The position of the first occurrence of `pat` in `s[from..]`, counted
/// from the start of `s`.
pub fn find_from(s: &[char], pat: &[char], from: usize) -> (found: Option<usize>)
    requires
        from <= s@.len(),
    ensures
        match found {
            Some(i) => from <= i && i + pat@.len() <= s@.len() && find(
                s@.skip(from as int),
                pat@,
            ) == Some(i - from),
            None => find(s@.skip(from as int), pat@) is None,
        },
{
    let ghost rest = s@.skip(from as int);
    if pat.len() == 0 {
        proof {
            assert(rest.subrange(0, 0) =~= pat@);
            lemma_find_is(rest, pat@, 0);
        }
        return Some(from);
    }
    let mut i: usize = from;
    while i < s.len()
        invariant
            from <= i <= s@.len(),
            pat@.len() > 0,
            rest == s@.skip(from as int),
            forall|j: int| 0 <= j < i - from ==> !occurs_at(rest, pat@, j),
        decreases s@.len() - i,
    {
        proof {
            lemma_occurs_in_skip(s@, pat@, from as int, i - from);
        }
        if matches_at(s, pat, i) {
            proof {
                lemma_find_is(rest, pat@, i - from);
            }
            return Some(i);
        }
        i += 1;
    }
    None
}

/// An occurrence in `s.skip(from)` is an occurrence in `s`, `from` further on.
pub proof fn lemma_occurs_in_skip(s: Seq<char>, pat: Seq<char>, from: int, i: int)
    requires
        0 <= from <= s.len(),
        0 <= i,
    ensures
        occurs_at(s.skip(from), pat, i) == occurs_at(s, pat, from + i),
{
    if i + pat.len() <= s.len() - from {
        assert(s.skip(from).subrange(i, i + pat.len()) =~= s.subrange(
            from + i,
            from + i + pat.len(),
        ));
    }
}

/// `s` cut at the first occurrence of `pat`: what stands before it and what
/// stands after it.
pub open spec fn split_once(s: Seq<char>, pat: Seq<char>) -> Option<(Seq<char>, Seq<char>)> {
    match find(s, pat) {
        Some(i) => Some((s.take(i), s.skip(i + pat.len()))),
        None => None,
    }
}

/// `s` cut at every occurrence of `pat`, the occurrences taken from left to
/// right and without overlap. There is always at least one piece, and a
/// piece may be empty.
pub open spec fn split(s: Seq<char>, pat: Seq<char>) -> Seq<Seq<char>>
    decreases s.len(),
    when pat.len() > 0
    via split_decreases
{
    match split_once(s, pat) {
        Some((head, tail)) => seq![head] + split(tail, pat),
        None => seq![s],
    }
}

#[via_fn]
proof fn split_decreases(s: Seq<char>, pat: Seq<char>) {
    lemma_find(s, pat);
}

/// `parts` with `sep` between each two neighbours.
pub open spec fn join(parts: Seq<Seq<char>>, sep: Seq<char>) -> Seq<char>
    decreases parts.len(),
{
    if parts.len() == 0 {
        Seq::empty()
    } else if parts.len() == 1 {
        parts[0]
    } else {
        join(parts.drop_last(), sep) + sep + parts.last()
    }
}

/// The texts that the slices hold.
pub open spec fn texts(parts: Seq<&[char]>) -> Seq<Seq<char>> {
    parts.map_values(|p: &[char]| p@)
}

/// The text of the string, where there is one.
pub open spec fn option_text(s: Option<String>) -> Option<Seq<char>> {
    match s {
        Some(s) => Some(s@),
        None => None,
    }
}

/// The texts that the strings hold.
pub open spec fn string_texts(strings: Seq<String>) -> Seq<Seq<char>> {
    strings.map_values(|s: String| s@)
}

/// Cuts `s` at every occurrence of `pat`.
pub fn split_chars<'a>(s: &'a [char], pat: &[char]) -> (parts: Vec<&'a [char]>)
    requires
        pat@.len() > 0,
    ensures
        texts(parts@) == split(s@, pat@),
{
    let mut parts: Vec<&'a [char]> = Vec::new();
    let end: usize = s.len();
    let mut start: usize = 0;
    assert(s@.skip(0) =~= s@);
    loop
        invariant_except_break
            start <= s@.len() == end,
            pat@.len() > 0,
            split(s@, pat@) == texts(parts@) + split(s@.skip(start as int), pat@),
        ensures
            texts(parts@) == split(s@, pat@),
        decreases s@.len() - start,
    {
        let ghost rest = s@.skip(start as int);
        match find_from(s, pat, start) {
            Some(i) => {
                let piece = vstd::slice::slice_subrange(s, start, i);
                parts.push(piece);
                assert(rest.take(i - start) =~= piece@);
                assert(rest.skip(i - start + pat@.len()) =~= s@.skip(i + pat@.len()));
                start = i + pat.len();
            },
            None => {
                let piece = vstd::slice::slice_subrange(s, start, end);
                parts.push(piece);
                break;
            },
        }
    }
    parts
}

/// Puts `sep` between each two neighbours of `parts`.
pub fn join_chars(parts: &[&[char]], sep: &[char]) -> (joined: Vec<char>)
    ensures
        joined@ == join(texts(parts@), sep@),
{
    let mut joined: Vec<char> = Vec::new();
    let mut k: usize = 0;
    while k < parts.len()
        invariant
            k <= parts@.len(),
            joined@ == join(texts(parts@).take(k as int), sep@),
        decreases parts@.len() - k,
    {
        if k > 0 {
            append(&mut joined, sep);
        }
        append(&mut joined, parts[k]);
        assert(texts(parts@).take(k + 1).drop_last() =~= texts(parts@).take(k as int));
        k += 1;
    }
    assert(texts(parts@).take(k as int) =~= texts(parts@));
    joined
}

/// Appends the characters of `more` to `chars`.
pub fn append(chars: &mut Vec<char>, more: &[char])
    ensures
        final(chars)@ == old(chars)@ + more@,
{
    let mut i: usize = 0;
    while i < more.len()
        invariant
            i <= more@.len(),
            chars@ == old(chars)@ + more@.take(i as int),
        decreases more@.len() - i,
    {
        chars.push(more[i]);
        i += 1;
    }
}

/// The number of bytes that `chars` takes in UTF-8. It is counted in `u128`,
/// which holds four bytes for each character of any slice.
pub fn utf8_len(chars: &[char]) -> (n: u128)
    ensures
        n == encode_utf8(chars@).len(),
{
    let mut n: u128 = 0;
    let mut i: usize = chars.len();
    while i > 0
        invariant
            i <= chars@.len() <= usize::MAX,
            n == encode_utf8(chars@.skip(i as int)).len(),
            n <= 4 * (chars@.len() - i),
        decreases i,
    {
        i -= 1;
        let code: u32 = chars[i] as u32;
        let width: u128 = if code < 0x80 {
            1
        } else if code < 0x800 {
            2
        } else if code < 0x10000 {
            3
        } else {
            4
        };
        proof {
            assert(chars@.skip(i as int).drop_first() =~= chars@.skip(i + 1));
            vstd::utf8::char_is_scalar(chars@[i as int]);
        }
        n += width;
    }
    assert(chars@.skip(0) =~= chars@);
    n
}

/// Whether `a` and `b` hold the same characters.
pub fn same(a: &[char], b: &[char]) -> (equal: bool)
    ensures
        equal == (a@ == b@),
{
    if a.len() != b.len() {
        return false;
    }
    let mut i: usize = 0;
    while i < a.len()
        invariant
            i <= a@.len() == b@.len(),
            a@.take(i as int) == b@.take(i as int),
        decreases a@.len() - i,
    {
        if a[i] != b[i] {
            return false;
        }
        i += 1;
    }
    assert(a@.take(i as int) =~= a@);
    assert(b@.take(i as int) =~= b@);
    true
}

} // verus!
