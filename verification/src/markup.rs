//! The attributes of one tag of a settings page.
//!
//! A tag's text is read as a run of attributes: a name, and behind it, where
//! `="` follows, a value that ends at the next `"`. Attributes may stand in
//! any order; whatever is between them is skipped.

use vstd::prelude::*;
use crate::text::{find_char, index_of, lemma_index_of, same_text, string_of};

verus! {

/// The attributes of a tag in order, each a name with the value it was given.
pub type Attributes = Seq<(Seq<char>, Option<Seq<char>>)>;

/// The characters that separate attributes.
pub open spec fn is_space(c: char) -> bool {
    c == ' ' || c == '\t' || c == '\n' || c == '\r' || c == '\x0c'
}

/// The characters that an attribute's name is made of.
pub open spec fn is_name_char(c: char) -> bool {
    !is_space(c) && c != '=' && c != '/' && c != '"'
}

/// The end of the run that starts at `i` and holds name characters only
/// (`name` set) or none (`name` clear).
pub open spec fn run_end(s: Seq<char>, i: int, name: bool) -> int
    decreases s.len() - i,
{
    if i < 0 || i >= s.len() {
        s.len() as int
    } else if is_name_char(s[i]) != name {
        i
    } else {
        run_end(s, i + 1, name)
    }
}

/// A run ends at or behind its start and within the text; all of it is of one
/// kind, and what stands at its end is of the other.
pub proof fn lemma_run_end(s: Seq<char>, i: int, name: bool)
    requires
        0 <= i <= s.len(),
    ensures
        i <= run_end(s, i, name) <= s.len(),
        run_end(s, i, name) < s.len() ==> is_name_char(s[run_end(s, i, name)]) != name,
        forall|k: int| i <= k < run_end(s, i, name) ==> is_name_char(s[k]) == name,
    decreases s.len() - i,
{
    if i < s.len() && is_name_char(s[i]) == name {
        lemma_run_end(s, i + 1, name);
    }
}

/// The attributes that the text of a tag holds from index `i` on.
pub open spec fn attributes_from(s: Seq<char>, i: int) -> Attributes
    decreases s.len() + 1 - i,
{
    let a = run_end(s, i, false);
    if i < 0 || a >= s.len() {
        Seq::empty()
    } else {
        let b = run_end(s, a, true);
        proof {
            lemma_run_end(s, i, false);
            lemma_run_end(s, a, true);
            lemma_index_of(s, '"', if b + 2 <= s.len() { b + 2 } else { 0 });
        }
        let name = s.subrange(a, b);
        if b + 1 < s.len() && s[b] == '=' && s[b + 1] == '"' {
            let c = index_of(s, '"', b + 2);
            seq![(name, Some(s.subrange(b + 2, c)))] + attributes_from(s, c + 1)
        } else {
            seq![(name, None)] + attributes_from(s, b)
        }
    }
}

/// The attributes that the text of a tag holds.
pub open spec fn attributes_of(s: Seq<char>) -> Attributes {
    attributes_from(s, 0)
}

/// The value of the first attribute named `key`; none where no attribute has
/// that name, or the first that has it was given no value.
pub open spec fn attribute_value(attrs: Attributes, key: Seq<char>) -> Option<Seq<char>>
    decreases attrs.len(),
{
    if attrs.len() == 0 {
        None
    } else if attrs[0].0 == key {
        attrs[0].1
    } else {
        attribute_value(attrs.drop_first(), key)
    }
}

/// Whether an attribute named `key` is there, with a value or without.
pub open spec fn has_attribute(attrs: Attributes, key: Seq<char>) -> bool {
    exists|i: int| 0 <= i < attrs.len() && attrs[i].0 == key
}

/// Where the run that starts at `i` ends.
fn run_end_of(s: &Vec<char>, i: usize, name: bool) -> (r: usize)
    requires
        i <= s.len(),
    ensures
        r == run_end(s@, i as int, name),
        i <= r <= s.len(),
{
    let mut k: usize = i;
    while k < s.len() && name_char(s[k]) == name
        invariant
            i <= k <= s.len(),
            run_end(s@, i as int, name) == run_end(s@, k as int, name),
        decreases s.len() - k,
    {
        k = k + 1;
    }
    k
}

/// Whether a character can stand in an attribute's name.
fn name_char(c: char) -> (r: bool)
    ensures
        r == is_name_char(c),
{
    !(c == ' ' || c == '\t' || c == '\n' || c == '\r' || c == '\x0c' || c == '=' || c == '/' || c
        == '"')
}

/// The attributes that the text of a tag holds.
pub fn parse_attributes(s: &Vec<char>) -> (r: Vec<(String, Option<String>)>)
    ensures
        r.deep_view() == attributes_of(s@),
{
    let n: usize = s.len();
    let mut out: Vec<(String, Option<String>)> = Vec::new();
    let mut i: usize = 0;
    assert(out.deep_view() =~= Attributes::empty());
    loop
        invariant_except_break
            out.deep_view() + attributes_from(s@, i as int) == attributes_of(s@),
        invariant
            n == s.len(),
            i <= n,
        ensures
            out.deep_view() == attributes_of(s@),
        decreases n - i,
    {
        let a: usize = run_end_of(s, i, false);
        if a >= n {
            assert(out.deep_view() + Attributes::empty() =~= out.deep_view());
            break;
        }
        let b: usize = run_end_of(s, a, true);
        proof {
            lemma_run_end(s@, a as int, true);
        }
        let name = string_of(s, a, b);
        let ghost before = out.deep_view();
        if n - b > 1 && s[b] == '=' && s[b + 1] == '"' {
            let c: usize = find_char(s, '"', b + 2);
            let value = string_of(s, b + 2, c);
            let ghost item = (name@, Some(value@));
            out.push((name, Some(value)));
            proof {
                assert(out.deep_view() =~= before.push(item));
                assert(before.push(item) + attributes_from(s@, c + 1) =~= before + (seq![item]
                    + attributes_from(s@, c + 1)));
            }
            if c >= n {
                assert(out.deep_view() + Attributes::empty() =~= out.deep_view());
                break;
            }
            i = c + 1;
        } else {
            let ghost item = (name@, None::<Seq<char>>);
            out.push((name, None));
            proof {
                assert(out.deep_view() =~= before.push(item));
                assert(before.push(item) + attributes_from(s@, b as int) =~= before + (seq![item]
                    + attributes_from(s@, b as int)));
            }
            i = b;
        }
    }
    out
}

/// The value of the first attribute named `key`.
pub fn value_of<'a>(attrs: &'a Vec<(String, Option<String>)>, key: &str) -> (r: Option<&'a String>)
    ensures
        match r {
            Some(v) => attribute_value(attrs.deep_view(), key@) == Some(v@),
            None => attribute_value(attrs.deep_view(), key@) is None,
        },
{
    let ghost all = attrs.deep_view();
    let mut i: usize = 0;
    assert(all.skip(0) =~= all);
    while i < attrs.len()
        invariant
            i <= attrs.len(),
            all == attrs.deep_view(),
            attribute_value(all.skip(i as int), key@) == attribute_value(all, key@),
        decreases attrs.len() - i,
    {
        assert(all.skip(i as int).drop_first() =~= all.skip(i + 1));
        assert(all.skip(i as int)[0] == all[i as int]);
        if same_text(attrs[i].0.as_str(), key) {
            return match &attrs[i].1 {
                Some(v) => Some(v),
                None => None,
            };
        }
        i = i + 1;
    }
    None
}

/// Whether an attribute named `key` is there.
pub fn has_name(attrs: &Vec<(String, Option<String>)>, key: &str) -> (r: bool)
    ensures
        r == has_attribute(attrs.deep_view(), key@),
{
    let mut i: usize = 0;
    while i < attrs.len()
        invariant
            i <= attrs.len(),
            forall|k: int| 0 <= k < i ==> attrs.deep_view()[k].0 != key@,
        decreases attrs.len() - i,
    {
        if same_text(attrs[i].0.as_str(), key) {
            assert(attrs.deep_view()[i as int].0 == key@);
            return true;
        }
        i = i + 1;
    }
    false
}

} // verus!
