//! An ordered association from names to values, both text, in which no name
//! stands twice. The cookie jar, the header set of a request and the field map
//! of a form are all of this shape.

use vstd::prelude::*;
use crate::text::same_text;

verus! {

/// What a `TextMap` holds: its pairs of name and value, oldest name first.
pub type Pairs = Seq<(Seq<char>, Seq<char>)>;

/// The first index at or after `from` whose pair is named `name`.
pub open spec fn position_from(pairs: Pairs, name: Seq<char>, from: int) -> Option<int>
    decreases pairs.len() - from,
{
    if from < 0 || from >= pairs.len() {
        None
    } else if pairs[from].0 == name {
        Some(from)
    } else {
        position_from(pairs, name, from + 1)
    }
}

/// The first index whose pair is named `name`.
pub open spec fn position(pairs: Pairs, name: Seq<char>) -> Option<int> {
    position_from(pairs, name, 0)
}

/// The value that the first pair named `name` holds.
pub open spec fn lookup(pairs: Pairs, name: Seq<char>) -> Option<Seq<char>> {
    match position(pairs, name) {
        Some(i) => Some(pairs[i].1),
        None => None,
    }
}

/// `pairs` with `name` bound to `value`: the pair of that name is overwritten
/// where it stands, and a new name goes to the end.
pub open spec fn upsert(pairs: Pairs, name: Seq<char>, value: Seq<char>) -> Pairs {
    match position(pairs, name) {
        Some(i) => pairs.update(i, (name, value)),
        None => pairs.push((name, value)),
    }
}

/// No name stands twice.
pub open spec fn distinct(pairs: Pairs) -> bool {
    forall|i: int, j: int| 0 <= i < j < pairs.len() ==> pairs[i].0 != pairs[j].0
}

/// The pairs as a mapping, the order forgotten.
pub open spec fn as_map(pairs: Pairs) -> Map<Seq<char>, Seq<char>> {
    Map::new(|n: Seq<char>| lookup(pairs, n) is Some, |n: Seq<char>| lookup(pairs, n)->0)
}

/// `position_from` names the first pair of that name, and finds one wherever
/// there is one.
pub proof fn lemma_position_from(pairs: Pairs, name: Seq<char>, from: int)
    requires
        0 <= from,
    ensures
        match position_from(pairs, name, from) {
            Some(i) => from <= i < pairs.len() && pairs[i].0 == name && forall|k: int|
                from <= k < i ==> pairs[k].0 != name,
            None => forall|k: int| from <= k < pairs.len() ==> pairs[k].0 != name,
        },
    decreases pairs.len() - from,
{
    if from < pairs.len() && pairs[from].0 != name {
        lemma_position_from(pairs, name, from + 1);
    }
}

/// An index that holds `name`, with no earlier one that does, is the one
/// that `position` names.
pub proof fn lemma_position_is(pairs: Pairs, name: Seq<char>, from: int, i: int)
    requires
        0 <= from <= i < pairs.len(),
        pairs[i].0 == name,
        forall|k: int| from <= k < i ==> pairs[k].0 != name,
    ensures
        position_from(pairs, name, from) == Some(i),
    decreases i - from,
{
    if from < i {
        lemma_position_is(pairs, name, from + 1, i);
    }
}

/// Where no pair holds `name`, `position` names none.
pub proof fn lemma_position_none(pairs: Pairs, name: Seq<char>, from: int)
    requires
        0 <= from,
        forall|k: int| from <= k < pairs.len() ==> pairs[k].0 != name,
    ensures
        position_from(pairs, name, from) is None,
    decreases pairs.len() - from,
{
    if from < pairs.len() {
        lemma_position_none(pairs, name, from + 1);
    }
}

/// Binding a name gives exactly that name its new value: a lookup of it finds
/// the value, a lookup of any other name finds what it found before, and no
/// name comes to stand twice.
pub proof fn lemma_upsert(pairs: Pairs, name: Seq<char>, value: Seq<char>)
    ensures
        lookup(upsert(pairs, name, value), name) == Some(value),
        forall|other: Seq<char>|
            other != name ==> #[trigger] lookup(upsert(pairs, name, value), other) == lookup(
                pairs,
                other,
            ),
        distinct(pairs) ==> distinct(upsert(pairs, name, value)),
        as_map(upsert(pairs, name, value)) == as_map(pairs).insert(name, value),
{
    let after = upsert(pairs, name, value);
    lemma_position_from(pairs, name, 0);
    match position(pairs, name) {
        Some(i) => {
            lemma_position_is(after, name, 0, i);
        },
        None => {
            lemma_position_is(after, name, 0, pairs.len() as int);
        },
    }
    assert forall|other: Seq<char>| other != name implies #[trigger] lookup(after, other)
        == lookup(pairs, other) by {
        lemma_position_from(pairs, other, 0);
        match position(pairs, other) {
            Some(j) => {
                lemma_position_is(after, other, 0, j);
            },
            None => {
                lemma_position_none(after, other, 0);
            },
        }
    }
    assert(as_map(after) =~= as_map(pairs).insert(name, value));
}

/// An ordered association from names to values in which no name stands twice.
#[derive(Debug, PartialEq, Eq)]
pub struct TextMap {
    entries: Vec<(String, String)>,
}

impl View for TextMap {
    type V = Pairs;

    closed spec fn view(&self) -> Pairs {
        self.entries.deep_view()
    }
}

impl TextMap {
    /// No name stands twice: this holds of every `TextMap`, whatever was done
    /// to it.
    #[verifier::type_invariant]
    pub open spec fn names_distinct(&self) -> bool {
        distinct(self@)
    }

    /// The mapping that the pairs stand for.
    pub open spec fn map(&self) -> Map<Seq<char>, Seq<char>> {
        as_map(self@)
    }

    /// A map with no pair in it.
    pub fn new() -> (r: TextMap)
        ensures
            r@ == Pairs::empty(),
    {
        let r = TextMap { entries: Vec::new() };
        assert(r.entries.deep_view() =~= Pairs::empty());
        r
    }

    /// The number of pairs.
    pub fn len(&self) -> (n: usize)
        ensures
            n == self@.len(),
    {
        self.entries.len()
    }

    /// The name of the pair at index `i`.
    pub fn name_at(&self, i: usize) -> (r: &String)
        requires
            i < self@.len(),
        ensures
            r@ == self@[i as int].0,
    {
        &self.entries[i].0
    }

    /// The value of the pair at index `i`.
    pub fn value_at(&self, i: usize) -> (r: &String)
        requires
            i < self@.len(),
        ensures
            r@ == self@[i as int].1,
    {
        &self.entries[i].1
    }

    /// The index of the pair named `name`.
    pub fn index_of(&self, name: &str) -> (r: Option<usize>)
        ensures
            match r {
                Some(i) => position(self@, name@) == Some(i as int),
                None => position(self@, name@) is None,
            },
    {
        let mut i: usize = 0;
        while i < self.entries.len()
            invariant
                i <= self.entries.len(),
                forall|k: int| 0 <= k < i ==> self@[k].0 != name@,
            decreases self.entries.len() - i,
        {
            if same_text(self.entries[i].0.as_str(), name) {
                proof {
                    lemma_position_is(self@, name@, 0, i as int);
                }
                return Some(i);
            }
            i = i + 1;
        }
        proof {
            lemma_position_none(self@, name@, 0);
        }
        None
    }

    /// The value bound to `name`.
    pub fn get(&self, name: &str) -> (r: Option<&String>)
        ensures
            match r {
                Some(v) => lookup(self@, name@) == Some(v@),
                None => lookup(self@, name@) is None,
            },
    {
        match self.index_of(name) {
            Some(i) => {
                proof {
                    lemma_position_from(self@, name@, 0);
                }
                Some(&self.entries[i].1)
            },
            None => None,
        }
    }

    /// A map that holds the same pairs.
    pub fn copy(&self) -> (r: TextMap)
        ensures
            r@ == self@,
    {
        proof {
            use_type_invariant(self);
        }
        let mut entries: Vec<(String, String)> = Vec::new();
        let mut i: usize = 0;
        while i < self.entries.len()
            invariant
                i <= self.entries.len(),
                entries.deep_view() == self.entries.deep_view().take(i as int),
            decreases self.entries.len() - i,
        {
            let name = self.entries[i].0.clone();
            let value = self.entries[i].1.clone();
            let ghost before = entries.deep_view();
            entries.push((name, value));
            assert(entries.deep_view() =~= before.push((name@, value@)));
            assert(entries.deep_view() =~= self.entries.deep_view().take(i + 1));
            i = i + 1;
        }
        assert(entries.deep_view() =~= self.entries.deep_view());
        TextMap { entries }
    }

    /// Binds `name` to `value`, overwriting the value that it had.
    pub fn upsert(&mut self, name: String, value: String)
        ensures
            final(self)@ == upsert(old(self)@, name@, value@),
    {
        proof {
            use_type_invariant(&*self);
            lemma_upsert(self@, name@, value@);
            lemma_position_from(self@, name@, 0);
        }
        let found = self.index_of(name.as_str());
        let mut entries: Vec<(String, String)> = Vec::new();
        assert(entries.deep_view() =~= Pairs::empty());
        core::mem::swap(&mut self.entries, &mut entries);
        match found {
            Some(i) => {
                entries.set(i, (name, value));
            },
            None => {
                entries.push((name, value));
            },
        }
        assert(entries.deep_view() =~= upsert(old(self)@, name@, value@));
        self.entries = entries;
    }
}

} // verus!
