//! Searching and copying over sequences of characters.

use vstd::prelude::*;
use vstd::string::StringExecFns;

verus! {

/// The first index at or after `from` at which `c` stands in `s`, or the
/// length of `s` where it stands nowhere from there on.
pub open spec fn index_of(s: Seq<char>, c: char, from: int) -> int
    decreases s.len() - from,
{
    if from < 0 || from >= s.len() {
        s.len() as int
    } else if s[from] == c {
        from
    } else {
        index_of(s, c, from + 1)
    }
}

/// `pat` stands in `s` at index `i`.
pub open spec fn occurs_at(s: Seq<char>, pat: Seq<char>, i: int) -> bool {
    0 <= i && i + pat.len() <= s.len() && s.subrange(i, i + pat.len()) == pat
}

/// The first index at or after `from` at which `pat` stands in `s`.
pub open spec fn find(s: Seq<char>, pat: Seq<char>, from: int) -> Option<int>
    decreases s.len() - from,
{
    if from < 0 || from + pat.len() > s.len() {
        None
    } else if pat.len() == 0 || occurs_at(s, pat, from) {
        Some(from)
    } else {
        find(s, pat, from + 1)
    }
}

/// The parts in order, with `sep` between each two neighbours.
pub open spec fn join(parts: Seq<Seq<char>>, sep: Seq<char>) -> Seq<char>
    decreases parts.len(),
{
    if parts.len() == 0 {
        Seq::empty()
    } else if parts.len() == 1 {
        parts[0]
    } else {
        join(parts.drop_last(), sep) + sep + parts.last()
    }
}

/// The pieces of `s` from index `from` on that stand between occurrences of
/// `c`; a text that ends in `c` has an empty last piece.
pub open spec fn split_from(s: Seq<char>, c: char, from: int) -> Seq<Seq<char>>
    decreases s.len() - from,
{
    let i = index_of(s, c, from);
    if from < 0 || i >= s.len() {
        seq![s.subrange(from, s.len() as int)]
    } else {
        proof {
            lemma_index_of(s, c, from);
        }
        seq![s.subrange(from, i)] + split_from(s, c, i + 1)
    }
}

/// The pieces of `s` that stand between occurrences of `c`.
pub open spec fn split(s: Seq<char>, c: char) -> Seq<Seq<char>> {
    split_from(s, c, 0)
}

/// `index_of` names the first occurrence: nothing before it is `c`, and it is
/// `c` unless the sequence ran out.
pub proof fn lemma_index_of(s: Seq<char>, c: char, from: int)
    requires
        0 <= from <= s.len(),
    ensures
        from <= index_of(s, c, from) <= s.len(),
        index_of(s, c, from) < s.len() ==> s[index_of(s, c, from)] == c,
        forall|k: int| from <= k < index_of(s, c, from) ==> s[k] != c,
    decreases s.len() - from,
{
    if from < s.len() && s[from] != c {
        lemma_index_of(s, c, from + 1);
    }
}

/// Any index that satisfies what `lemma_index_of` states is the one that
/// `index_of` names.
pub proof fn lemma_index_of_is(s: Seq<char>, c: char, from: int, r: int)
    requires
        0 <= from <= r <= s.len(),
        r < s.len() ==> s[r] == c,
        forall|k: int| from <= k < r ==> s[k] != c,
    ensures
        index_of(s, c, from) == r,
    decreases r - from,
{
    if from < r {
        lemma_index_of_is(s, c, from + 1, r);
    }
}

/// `find` names the first occurrence, and finds one wherever there is one.
pub proof fn lemma_find(s: Seq<char>, pat: Seq<char>, from: int)
    requires
        0 <= from,
    ensures
        match find(s, pat, from) {
            Some(r) => from <= r && occurs_at(s, pat, r) && forall|k: int|
                from <= k < r ==> !occurs_at(s, pat, k),
            None => forall|k: int| from <= k ==> !occurs_at(s, pat, k),
        },
    decreases s.len() - from,
{
    if from + pat.len() <= s.len() {
        if pat.len() == 0 {
            assert(s.subrange(from, from + pat.len()) =~= pat);
        } else if !occurs_at(s, pat, from) {
            lemma_find(s, pat, from + 1);
        }
    }
}

/// Whether two string slices hold the same characters.
pub fn same_text(a: &str, b: &str) -> (r: bool)
    ensures
        r == (a@ == b@),
{
    let x = a.as_bytes();
    let y = b.as_bytes();
    proof {
        vstd::utf8::encode_utf8_decode_utf8(a@);
        vstd::utf8::encode_utf8_decode_utf8(b@);
    }
    if x.len() != y.len() {
        return false;
    }
    let mut i: usize = 0;
    while i < x.len()
        invariant
            x@ == vstd::utf8::encode_utf8(a@),
            y@ == vstd::utf8::encode_utf8(b@),
            x@.len() == y@.len(),
            i <= x@.len(),
            forall|k: int| 0 <= k < i ==> x@[k] == y@[k],
        decreases x.len() - i,
    {
        if x[i] != y[i] {
            return false;
        }
        i = i + 1;
    }
    assert(x@ =~= y@);
    true
}

/// The characters of a string slice, in order.
pub fn chars_of(s: &str) -> (out: Vec<char>)
    ensures
        out@ == s@,
{
    broadcast use vstd::string::group_string_axioms;

    let mut out: Vec<char> = Vec::new();
    for c in iter: s.chars()
        invariant
            iter.seq() == s@,
            out@ == s@.take(iter.index() as int),
    {
        out.push(c);
        assert(s@.take(iter.index() + 1) =~= s@.take(iter.index() as int).push(c));
    }
    assert(s@.take(s@.len() as int) =~= s@);
    out
}

/// Appending one character to a `String` (`String::push`) leaves what was
/// there and puts the character behind it.
pub assume_specification[ String::push ](s: &mut String, c: char)
    ensures
        final(s)@ == old(s)@.push(c),
;

/// `String::from_utf8`: the string whose bytes are the given ones, where they
/// are UTF-8, and none where they are not.
#[verifier::external_body]
pub(crate) fn text_from_utf8(bytes: Vec<u8>) -> (r: Option<String>)
    ensures
        r is Some <==> vstd::utf8::valid_utf8(bytes@),
        r matches Some(s) ==> vstd::utf8::encode_utf8(s@) == bytes@,
{
    match String::from_utf8(bytes) {
        Ok(s) => Some(s),
        Err(_) => None,
    }
}

/// The characters of `s` from index `lo` up to, not including, `hi`, as a string.
pub fn string_of(s: &Vec<char>, lo: usize, hi: usize) -> (out: String)
    requires
        lo <= hi <= s.len(),
    ensures
        out@ == s@.subrange(lo as int, hi as int),
{
    let mut out: String = String::new();
    let mut i: usize = lo;
    while i < hi
        invariant
            lo <= i <= hi <= s.len(),
            out@ == s@.subrange(lo as int, i as int),
        decreases hi - i,
    {
        out.push(s[i]);
        assert(s@.subrange(lo as int, i + 1) =~= s@.subrange(lo as int, i as int).push(s@[i as int]));
        i = i + 1;
    }
    out
}

/// The characters of `s` from index `lo` up to, not including, `hi`.
pub fn slice_of(s: &Vec<char>, lo: usize, hi: usize) -> (out: Vec<char>)
    requires
        lo <= hi <= s.len(),
    ensures
        out@ == s@.subrange(lo as int, hi as int),
{
    let mut out: Vec<char> = Vec::new();
    let mut i: usize = lo;
    while i < hi
        invariant
            lo <= i <= hi <= s.len(),
            out@ == s@.subrange(lo as int, i as int),
        decreases hi - i,
    {
        out.push(s[i]);
        assert(s@.subrange(lo as int, i + 1) =~= s@.subrange(lo as int, i as int).push(s@[i as int]));
        i = i + 1;
    }
    out
}

/// Where `c` first stands in `s` at or after `from`; the length of `s` where
/// it does not.
pub fn find_char(s: &Vec<char>, c: char, from: usize) -> (r: usize)
    ensures
        r == index_of(s@, c, from as int),
        r <= s.len(),
        from <= s.len() ==> from <= r,
{
    if from >= s.len() {
        return s.len();
    }
    let mut i: usize = from;
    while i < s.len() && s[i] != c
        invariant
            from <= i <= s.len(),
            forall|k: int| from <= k < i ==> s@[k] != c,
        decreases s.len() - i,
    {
        i = i + 1;
    }
    proof {
        lemma_index_of_is(s@, c, from as int, i as int);
    }
    i
}

/// The pieces of `s` that stand between occurrences of `c`.
pub fn split_text(s: &str, c: char) -> (r: Vec<String>)
    ensures
        r.deep_view() == split(s@, c),
{
    let chars = chars_of(s);
    let n: usize = chars.len();
    let mut out: Vec<String> = Vec::new();
    let mut from: usize = 0;
    assert(out.deep_view() =~= Seq::<Seq<char>>::empty());
    loop
        invariant_except_break
            out.deep_view() + split_from(chars@, c, from as int) == split(chars@, c),
        invariant
            chars@ == s@,
            n == chars.len(),
            from <= n,
        ensures
            out.deep_view() == split(s@, c),
        decreases n - from,
    {
        let i: usize = find_char(&chars, c, from);
        let piece = string_of(&chars, from, i);
        let ghost before = out.deep_view();
        let ghost item = piece@;
        out.push(piece);
        assert(out.deep_view() =~= before.push(item));
        if i >= n {
            assert(before.push(item) =~= before + seq![item]);
            break;
        }
        assert(before.push(item) + split_from(chars@, c, i + 1) =~= before + (seq![item]
            + split_from(chars@, c, i + 1)));
        from = i + 1;
    }
    out
}

/// A list that holds the same texts.
pub fn copy_texts(texts: &Vec<String>) -> (r: Vec<String>)
    ensures
        r.deep_view() == texts.deep_view(),
{
    let mut out: Vec<String> = Vec::new();
    let mut i: usize = 0;
    while i < texts.len()
        invariant
            i <= texts.len(),
            out.deep_view() == texts.deep_view().take(i as int),
        decreases texts.len() - i,
    {
        let ghost before = out.deep_view();
        let text = texts[i].clone();
        out.push(text);
        assert(out.deep_view() =~= before.push(texts@[i as int]@));
        assert(out.deep_view() =~= texts.deep_view().take(i + 1));
        i = i + 1;
    }
    assert(out.deep_view() =~= texts.deep_view());
    out
}

/// The parts in order, with `sep` between each two neighbours.
pub fn join_texts(parts: &Vec<String>, sep: &str) -> (r: String)
    ensures
        r@ == join(parts.deep_view(), sep@),
{
    let ghost all = parts.deep_view();
    let mut out: String = String::new();
    let mut i: usize = 0;
    while i < parts.len()
        invariant
            i <= parts.len(),
            all == parts.deep_view(),
            out@ == join(all.take(i as int), sep@),
        decreases parts.len() - i,
    {
        let ghost before = out@;
        if i > 0 {
            out.append(sep);
        }
        out.append(parts[i].as_str());
        proof {
            let next = all.take(i + 1);
            assert(next.drop_last() =~= all.take(i as int));
            assert(next.last() == parts@[i as int]@);
            if i > 0 {
                assert(out@ =~= before + sep@ + next.last());
            } else {
                assert(out@ =~= next.last());
            }
        }
        i = i + 1;
    }
    assert(all.take(i as int) =~= all);
    out
}

/// Whether `pat` stands in `s` at index `i`.
pub fn matches_at(s: &Vec<char>, pat: &Vec<char>, i: usize) -> (r: bool)
    ensures
        r == occurs_at(s@, pat@, i as int),
{
    if pat.len() > s.len() || i > s.len() - pat.len() {
        return false;
    }
    let mut k: usize = 0;
    while k < pat.len()
        invariant
            i + pat.len() <= s.len(),
            k <= pat.len(),
            forall|j: int| 0 <= j < k ==> s@[i + j] == pat@[j],
        decreases pat.len() - k,
    {
        if s[i + k] != pat[k] {
            assert(s@.subrange(i as int, i + pat.len())[k as int] != pat@[k as int]);
            return false;
        }
        k = k + 1;
    }
    assert(s@.subrange(i as int, i + pat.len()) =~= pat@);
    true
}

/// Where `pat` first stands in `s` at or after `from`.
pub fn find_in(s: &Vec<char>, pat: &Vec<char>, from: usize) -> (r: Option<usize>)
    ensures
        r matches Some(i) ==> find(s@, pat@, from as int) == Some(i as int),
        r is None ==> find(s@, pat@, from as int) is None,
{
    if pat.len() > s.len() || from > s.len() - pat.len() {
        return None;
    }
    if pat.len() == 0 {
        return Some(from);
    }
    let last: usize = s.len() - pat.len();
    let mut i: usize = from;
    while i <= last
        invariant
            last == s.len() - pat.len(),
            pat.len() > 0,
            from <= i <= last + 1,
            find(s@, pat@, from as int) == find(s@, pat@, i as int),
        decreases last + 1 - i,
    {
        if matches_at(s, pat, i) {
            return Some(i);
        }
        i = i + 1;
    }
    None
}

} // verus!
