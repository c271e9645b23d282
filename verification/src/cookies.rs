//! The session cookie jar: what a `Set-Cookie` header adds to it, and the
//! `Cookie` header that replays it.

use vstd::prelude::*;
use vstd::string::StringExecFns;
use crate::text::{chars_of, find_char, index_of, join, lemma_index_of, lemma_index_of_is, string_of};
use crate::textmap::{as_map, lemma_upsert, upsert, Pairs, TextMap};

verus! {

/// The cookies of one session, by name.
pub type CookieJar = TextMap;

/// The pair of name and value that starts at index `p` of a `Set-Cookie`
/// value: the name is one or more characters up to the next `=`, the value one
/// or more characters behind it up to the next `;` or the end.
pub open spec fn pair_at(s: Seq<char>, p: int) -> Option<(Seq<char>, Seq<char>)> {
    let q = index_of(s, '=', p);
    if 0 <= p < q && q + 1 < s.len() && s[q + 1] != ';' {
        Some((s.subrange(p, q), s.subrange(q + 1, index_of(s, ';', q + 1))))
    } else {
        None
    }
}

/// The pair that starts at the first index at or after `from` at which one
/// starts.
pub open spec fn first_pair(s: Seq<char>, from: int) -> Option<(Seq<char>, Seq<char>)>
    decreases s.len() - from,
{
    if from < 0 || from >= s.len() {
        None
    } else if pair_at(s, from) is Some {
        pair_at(s, from)
    } else {
        first_pair(s, from + 1)
    }
}

/// The cookie that a `Set-Cookie` value sets: its first pair of name and
/// value. A value in which no pair starts sets none.
pub open spec fn cookie_pair(s: Seq<char>) -> Option<(Seq<char>, Seq<char>)> {
    first_pair(s, 0)
}

/// The jar after one `Set-Cookie` value: the cookie that the value sets is
/// bound in it, and a value that sets none leaves it as it was.
pub open spec fn jar_after(jar: Pairs, header: Seq<char>) -> Pairs {
    match cookie_pair(header) {
        Some((name, value)) => upsert(jar, name, value),
        None => jar,
    }
}

/// One cookie as it stands in a `Cookie` header.
pub open spec fn cookie_text(pair: (Seq<char>, Seq<char>)) -> Seq<char> {
    pair.0 + seq!['='] + pair.1
}

/// The `Cookie` header value that replays a jar: `k1=v1; k2=v2` and so on, in
/// the order of the jar.
pub open spec fn cookie_header_of(jar: Pairs) -> Seq<char> {
    join(jar.map_values(|pair: (Seq<char>, Seq<char>)| cookie_text(pair)), seq![';', ' '])
}

/// Where the next `=` behind `p` has no value behind it, no pair starts
/// between `p` and that `=`.
proof fn lemma_skip_to_equals(s: Seq<char>, p: int, q: int)
    requires
        0 <= p <= q <= s.len(),
        q == index_of(s, '=', p),
        q + 1 >= s.len() || s[q + 1] == ';',
    ensures
        first_pair(s, p) == first_pair(s, q + 1),
    decreases q - p,
{
    lemma_index_of(s, '=', p);
    if p < q {
        assert(index_of(s, '=', p + 1) == q);
        lemma_skip_to_equals(s, p + 1, q);
    } else if p < s.len() {
        assert(pair_at(s, p) is None);
    }
}

/// A `Set-Cookie` value of the form `name=value`, with or without `;` and
/// attributes behind it, sets the cookie `name` to `value`.
pub proof fn lemma_cookie_pair_of_header(name: Seq<char>, value: Seq<char>, rest: Seq<char>)
    requires
        name.len() > 0,
        value.len() > 0,
        !name.contains('='),
        !value.contains(';'),
    ensures
        cookie_pair(name + seq!['='] + value) == Some((name, value)),
        cookie_pair(name + seq!['='] + value + seq![';'] + rest) == Some((name, value)),
{
    let short = name + seq!['='] + value;
    let long = name + seq!['='] + value + seq![';'] + rest;
    let q = name.len() as int;
    let r = q + 1 + value.len();
    assert forall|k: int| 0 <= k < q implies short[k] != '=' && long[k] != '=' by {
        assert(name.contains(name[k]));
    }
    assert forall|k: int| q + 1 <= k < r implies short[k] != ';' && long[k] != ';' by {
        assert(value.contains(value[k - q - 1]));
    }
    assert(value.contains(value[0]));
    lemma_index_of_is(short, '=', 0, q);
    lemma_index_of_is(long, '=', 0, q);
    lemma_index_of_is(short, ';', q + 1, r);
    lemma_index_of_is(long, ';', q + 1, r);
    assert(short.subrange(0, q) =~= name);
    assert(long.subrange(0, q) =~= name);
    assert(short.subrange(q + 1, r) =~= value);
    assert(long.subrange(q + 1, r) =~= value);
}

/// A jar that takes in a `Set-Cookie` value of the form `name=value; ...`
/// becomes the jar it was with `name` bound to `value`: a value that `name`
/// had before is overwritten, and every other cookie stays.
pub proof fn lemma_jar_after_header(
    jar: Pairs,
    name: Seq<char>,
    value: Seq<char>,
    rest: Seq<char>,
)
    requires
        name.len() > 0,
        value.len() > 0,
        !name.contains('='),
        !value.contains(';'),
    ensures
        as_map(jar_after(jar, name + seq!['='] + value)) == as_map(jar).insert(name, value),
        as_map(jar_after(jar, name + seq!['='] + value + seq![';'] + rest)) == as_map(jar).insert(
            name,
            value,
        ),
{
    lemma_cookie_pair_of_header(name, value, rest);
    lemma_upsert(jar, name, value);
}

/// The cookie that a `Set-Cookie` value sets.
pub fn parse_set_cookie(header: &str) -> (r: Option<(String, String)>)
    ensures
        match r {
            Some((name, value)) => cookie_pair(header@) == Some((name@, value@)),
            None => cookie_pair(header@) is None,
        },
{
    let chars = chars_of(header);
    let n: usize = chars.len();
    let mut p: usize = 0;
    while p < n
        invariant
            chars@ == header@,
            n == chars.len(),
            p <= n,
            first_pair(chars@, 0) == first_pair(chars@, p as int),
        decreases n - p,
    {
        let q: usize = find_char(&chars, '=', p);
        if q == n {
            proof {
                lemma_skip_to_equals(chars@, p as int, q as int);
            }
            return None;
        }
        if q + 1 < n && chars[q + 1] != ';' {
            if p < q {
                let r: usize = find_char(&chars, ';', q + 1);
                let name = string_of(&chars, p, q);
                let value = string_of(&chars, q + 1, r);
                return Some((name, value));
            }
        } else {
            proof {
                lemma_skip_to_equals(chars@, p as int, q as int);
            }
        }
        proof {
            lemma_index_of(chars@, '=', p as int);
            if p == q {
                assert(pair_at(chars@, p as int) is None);
            }
        }
        p = q + 1;
    }
    None
}

/// Takes one `Set-Cookie` value into the jar.
pub fn absorb_set_cookie(jar: &mut CookieJar, header: &str)
    ensures
        final(jar)@ == jar_after(old(jar)@, header@),
{
    match parse_set_cookie(header) {
        Some((name, value)) => {
            jar.upsert(name, value);
        },
        None => {},
    }
}

/// The value of the `Cookie` header that replays the jar.
pub fn cookie_header(jar: &CookieJar) -> (r: String)
    ensures
        r@ == cookie_header_of(jar@),
{
    let ghost parts = jar@.map_values(|pair: (Seq<char>, Seq<char>)| cookie_text(pair));
    let mut out: String = String::new();
    let mut i: usize = 0;
    while i < jar.len()
        invariant
            i <= jar@.len(),
            parts == jar@.map_values(|pair: (Seq<char>, Seq<char>)| cookie_text(pair)),
            out@ == join(parts.take(i as int), seq![';', ' ']),
        decreases jar@.len() - i,
    {
        let ghost before = out@;
        if i > 0 {
            out.push(';');
            out.push(' ');
        }
        out.append(jar.name_at(i).as_str());
        out.push('=');
        out.append(jar.value_at(i).as_str());
        proof {
            let next = parts.take(i + 1);
            assert(next.drop_last() =~= parts.take(i as int));
            assert(next.last() == cookie_text(jar@[i as int]));
            if i > 0 {
                assert(before + seq![';', ' '] =~= before.push(';').push(' '));
                assert(out@ =~= before + seq![';', ' '] + next.last());
            } else {
                assert(out@ =~= next.last());
            }
        }
        i = i + 1;
    }
    assert(parts.take(i as int) =~= parts);
    out
}

} // verus!
