//! Tables keyed by name.  An entry keeps the place at which its name was first inserted,
//! so a table is walked in one fixed order.

use crate::duplicate::Duplicate;
use crate::text::same_text;
use vstd::prelude::*;
use vstd::string::*;

verus! {

/// The index of the first entry at or after `i` whose name is `name`;
/// the length of `entries` if there is none.
pub open spec fn position_from<V>(entries: Seq<(Seq<char>, V)>, name: Seq<char>, i: int) -> int
    decreases entries.len() - i,
{
    if i < 0 || i >= entries.len() {
        entries.len() as int
    } else if entries[i].0 == name {
        i
    } else {
        position_from(entries, name, i + 1)
    }
}

/// The index of the first entry whose name is `name`; the length of `entries` if there is none.
pub open spec fn position<V>(entries: Seq<(Seq<char>, V)>, name: Seq<char>) -> int {
    position_from(entries, name, 0)
}

/// The value stored under `name`, if any.
pub open spec fn lookup<V>(entries: Seq<(Seq<char>, V)>, name: Seq<char>) -> Option<V> {
    let p = position(entries, name);
    if p < entries.len() {
        Some(entries[p].1)
    } else {
        None
    }
}

/// The entries after `value` has been stored under `name`: it takes the place of an
/// entry of that name, or goes to the end.
pub open spec fn inserted<V>(entries: Seq<(Seq<char>, V)>, name: Seq<char>, value: V) -> Seq<
    (Seq<char>, V),
> {
    let p = position(entries, name);
    if p < entries.len() {
        entries.update(p, (name, value))
    } else {
        entries.push((name, value))
    }
}

/// The entries after the first `n` of `extra` have been stored one by one.
pub open spec fn merged<V>(
    base: Seq<(Seq<char>, V)>,
    extra: Seq<(Seq<char>, V)>,
    n: nat,
) -> Seq<(Seq<char>, V)>
    decreases n,
{
    if n == 0 || n > extra.len() {
        base
    } else {
        inserted(merged(base, extra, (n - 1) as nat), extra[n - 1].0, extra[n - 1].1)
    }
}

/// No name occurs twice.
pub open spec fn distinct_names<V>(entries: Seq<(Seq<char>, V)>) -> bool {
    forall|i: int, j: int| 0 <= i < j < entries.len() ==> entries[i].0 != entries[j].0
}

/// The values of the entries, in order.
pub open spec fn values_of<V>(entries: Seq<(Seq<char>, V)>) -> Seq<V> {
    entries.map_values(|e: (Seq<char>, V)| e.1)
}

/// Where `position_from` stops, there is the name, and nowhere before.
pub proof fn lemma_position_from<V>(entries: Seq<(Seq<char>, V)>, name: Seq<char>, i: int)
    requires
        0 <= i <= entries.len(),
    ensures
        i <= position_from(entries, name, i) <= entries.len(),
        position_from(entries, name, i) < entries.len() ==> entries[position_from(
            entries,
            name,
            i,
        )].0 == name,
        forall|j: int| i <= j < position_from(entries, name, i) ==> (#[trigger] entries[j]).0 != name,
    decreases entries.len() - i,
{
    if i < entries.len() && entries[i].0 != name {
        lemma_position_from(entries, name, i + 1);
    }
}

/// An index is the position of a name exactly if it is the first place where the name stands.
pub proof fn lemma_position_is<V>(entries: Seq<(Seq<char>, V)>, name: Seq<char>, p: int)
    requires
        0 <= p <= entries.len(),
        p < entries.len() ==> entries[p].0 == name,
        forall|j: int| 0 <= j < p ==> (#[trigger] entries[j]).0 != name,
    ensures
        position(entries, name) == p,
{
    lemma_position_from(entries, name, 0);
    let q = position(entries, name);
    if q < p {
        assert(entries[q].0 == name);
    } else if q > p {
        assert(entries[p].0 != name);
    }
}

/// Storing a value keeps the names distinct.
pub proof fn lemma_inserted_distinct<V>(entries: Seq<(Seq<char>, V)>, name: Seq<char>, value: V)
    requires
        distinct_names(entries),
    ensures
        distinct_names(inserted(entries, name, value)),
{
    lemma_position_from(entries, name, 0);
    let p = position(entries, name);
    let after = inserted(entries, name, value);
    assert forall|i: int, j: int| 0 <= i < j < after.len() implies after[i].0 != after[j].0 by {
        if p < entries.len() {
            assert(after[i].0 == entries[i].0);
            assert(after[j].0 == entries[j].0);
        } else if j == entries.len() {
            assert(entries[i].0 != name);
        }
    }
}

/// What was stored under a name is found under it; other names are found as before.
pub proof fn lemma_lookup_inserted<V>(
    entries: Seq<(Seq<char>, V)>,
    name: Seq<char>,
    value: V,
    other: Seq<char>,
)
    ensures
        lookup(inserted(entries, name, value), other) == if other == name {
            Some(value)
        } else {
            lookup(entries, other)
        },
{
    lemma_position_from(entries, name, 0);
    lemma_position_from(entries, other, 0);
    let p = position(entries, name);
    let q = position(entries, other);
    let after = inserted(entries, name, value);
    if other == name {
        assert forall|j: int| 0 <= j < p implies (#[trigger] after[j]).0 != name by {
            assert(entries[j].0 != name);
        }
        lemma_position_is(after, name, p);
    } else {
        assert forall|j: int| 0 <= j < q && j < after.len() implies (#[trigger] after[j]).0
            != other by {
            assert(entries[j].0 != other);
        }
        if q < entries.len() {
            lemma_position_is(after, other, q);
        } else {
            lemma_position_is(after, other, after.len() as int);
        }
    }
}

/// What is found in a list of entries that has one more entry at its end: what was found
/// before, or else the new entry if it has the name.
pub proof fn lemma_lookup_push<V>(
    entries: Seq<(Seq<char>, V)>,
    key: Seq<char>,
    value: V,
    name: Seq<char>,
)
    ensures
        lookup(entries.push((key, value)), name) == match lookup(entries, name) {
            Some(v) => Some(v),
            None => if key == name {
                Some(value)
            } else {
                None
            },
        },
{
    lemma_position_from(entries, name, 0);
    let p = position(entries, name);
    let longer = entries.push((key, value));
    assert forall|j: int| 0 <= j < p implies (#[trigger] longer[j]).0 != name by {
        assert(entries[j].0 != name);
    }
    if p < entries.len() {
        lemma_position_is(longer, name, p);
    } else if key == name {
        lemma_position_is(longer, name, entries.len() as int);
    } else {
        lemma_position_is(longer, name, longer.len() as int);
    }
}

/// A table from names to values.
#[derive(PartialEq, Debug, Clone)]
pub struct Table<T> {
    pub entries: Vec<(String, T)>,
}

impl<T: View> View for Table<T> {
    type V = Seq<(Seq<char>, T::V)>;

    open spec fn view(&self) -> Seq<(Seq<char>, T::V)> {
        self.entries@.map_values(|e: (String, T)| (e.0@, e.1@))
    }
}

impl<T: View> Table<T> {
    /// No name is stored twice.  A table that was built by `new` and `insert` is well formed.
    pub open spec fn wf(&self) -> bool {
        distinct_names(self@)
    }

    /// The empty table.
    pub fn new() -> (r: Self)
        ensures
            r@ == Seq::<(Seq<char>, T::V)>::empty(),
            r.wf(),
    {
        let r = Table { entries: Vec::new() };
        assert(r@ =~= Seq::<(Seq<char>, T::V)>::empty());
        r
    }

    /// The number of entries.
    pub fn len(&self) -> (n: usize)
        ensures
            n == self@.len(),
    {
        self.entries.len()
    }

    /// The name of the `i`-th entry.
    pub fn name_at(&self, i: usize) -> (r: &str)
        requires
            i < self@.len(),
        ensures
            r@ == self@[i as int].0,
    {
        self.entries[i].0.as_str()
    }

    /// The value of the `i`-th entry.
    pub fn value_at(&self, i: usize) -> (r: &T)
        requires
            i < self@.len(),
        ensures
            r@ == self@[i as int].1,
    {
        &self.entries[i].1
    }

    /// Where `name` is stored: its index, or the length of the table if it is not there.
    pub fn find_index(&self, name: &str) -> (p: usize)
        ensures
            p == position(self@, name@),
            p <= self@.len(),
    {
        let mut i: usize = 0;
        while i < self.entries.len()
            invariant
                i <= self.entries.len(),
                self@.len() == self.entries.len(),
                position(self@, name@) == position_from(self@, name@, i as int),
            decreases self.entries.len() - i,
        {
            if same_text(self.entries[i].0.as_str(), name) {
                return i;
            }
            i = i + 1;
        }
        i
    }

    /// The value stored under `name`.
    pub fn get(&self, name: &str) -> (r: Option<&T>)
        ensures
            match r {
                Some(v) => lookup(self@, name@) == Some(v@),
                None => lookup(self@, name@) is None,
            },
    {
        let p = self.find_index(name);
        if p < self.entries.len() {
            Some(&self.entries[p].1)
        } else {
            None
        }
    }

    /// Whether anything is stored under `name`.
    pub fn contains_key(&self, name: &str) -> (r: bool)
        ensures
            r == lookup(self@, name@).is_some(),
    {
        let p = self.find_index(name);
        p < self.entries.len()
    }

    /// Stores `value` under `name`.  A value that was there under that name is replaced
    /// and leaves its place to the new one.
    pub fn insert(&mut self, name: String, value: T)
        ensures
            final(self)@ == inserted(old(self)@, name@, value@),
            old(self).wf() ==> final(self).wf(),
    {
        let p = self.find_index(name.as_str());
        let ghost before = self@;
        let ghost n = name@;
        let ghost v = value@;
        if p < self.entries.len() {
            self.entries.set(p, (name, value));
        } else {
            self.entries.push((name, value));
        }
        assert(self@ =~= inserted(before, n, v));
        proof {
            if distinct_names(before) {
                lemma_inserted_distinct(before, n, v);
            }
        }
    }
}

impl<T: Duplicate> Table<T> {
    /// Stores every entry of `other`, in the order of `other`.
    pub fn extend(&mut self, other: &Table<T>)
        ensures
            final(self)@ == merged(old(self)@, other@, other@.len()),
            old(self).wf() ==> final(self).wf(),
    {
        let mut i: usize = 0;
        while i < other.len()
            invariant
                i <= other@.len(),
                self@ == merged(old(self)@, other@, i as nat),
                old(self).wf() ==> self.wf(),
            decreases other@.len() - i,
        {
            let name = String::from_str(other.name_at(i));
            let value = other.value_at(i).duplicate();
            self.insert(name, value);
            i = i + 1;
        }
    }
}

impl<T: Duplicate> Duplicate for Table<T> {
    fn duplicate(&self) -> (r: Self) {
        let mut entries: Vec<(String, T)> = Vec::new();
        let mut i: usize = 0;
        while i < self.entries.len()
            invariant
                i <= self.entries.len(),
                entries@.len() == i,
                forall|j: int|
                    0 <= j < i ==> (#[trigger] entries@[j]).0@ == self.entries@[j].0@
                        && entries@[j].1@ == self.entries@[j].1@,
            decreases self.entries.len() - i,
        {
            let name = self.entries[i].0.clone();
            let value = self.entries[i].1.duplicate();
            entries.push((name, value));
            i = i + 1;
        }
        let r = Table { entries };
        assert(r@ =~= self@);
        r
    }
}

} // verus!
