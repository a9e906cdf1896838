//! A table from names to values that keeps the order in which the names
//! first came.

use vstd::prelude::*;
use crate::text::same;

verus! {

/// The first index at or after `from` whose entry has the name `key`, or the
/// length of `e` if there is none.
pub open spec fn position<T>(e: Seq<(Seq<char>, T)>, key: Seq<char>, from: int) -> int
    decreases e.len() - from,
{
    if 0 <= from < e.len() && e[from].0 != key {
        position(e, key, from + 1)
    } else {
        from
    }
}

/// Whether an entry of `e` has the name `key`.
pub open spec fn has_name<T>(e: Seq<(Seq<char>, T)>, key: Seq<char>) -> bool {
    position(e, key, 0) < e.len()
}

/// The value that `e` holds under `key`.
pub open spec fn lookup<T>(e: Seq<(Seq<char>, T)>, key: Seq<char>) -> Option<T> {
    if has_name(e, key) {
        Some(e[position(e, key, 0)].1)
    } else {
        None
    }
}

/// `e` with `value` under `key`: in the place of the entry that had the name,
/// or at the end if none had it.
pub open spec fn put<T>(e: Seq<(Seq<char>, T)>, key: Seq<char>, value: T) -> Seq<(Seq<char>, T)> {
    if has_name(e, key) {
        e.update(position(e, key, 0), (key, value))
    } else {
        e.push((key, value))
    }
}

/// Whether no name occurs twice in `e`.
pub open spec fn distinct_names<T>(e: Seq<(Seq<char>, T)>) -> bool {
    forall|i: int, j: int| 0 <= i < j < e.len() ==> (#[trigger] e[i]).0 != (#[trigger] e[j]).0
}

/// Where `position` stops, and that no entry before it has the name.
pub proof fn lemma_position<T>(e: Seq<(Seq<char>, T)>, key: Seq<char>, from: int)
    requires
        0 <= from <= e.len(),
    ensures
        from <= position(e, key, from) <= e.len(),
        position(e, key, from) < e.len() ==> e[position(e, key, from)].0 == key,
        forall|k: int| from <= k < position(e, key, from) ==> (#[trigger] e[k]).0 != key,
    decreases e.len() - from,
{
    if from < e.len() && e[from].0 != key {
        lemma_position(e, key, from + 1);
    }
}

/// `put` keeps the names distinct.
pub proof fn lemma_put_distinct<T>(e: Seq<(Seq<char>, T)>, key: Seq<char>, value: T)
    requires
        distinct_names(e),
    ensures
        distinct_names(put(e, key, value)),
{
    lemma_position(e, key, 0);
}

/// After `put`, the name holds the new value and every other name holds what
/// it held.
pub proof fn lemma_put_lookup<T>(
    e: Seq<(Seq<char>, T)>,
    key: Seq<char>,
    value: T,
    other: Seq<char>,
)
    ensures
        lookup(put(e, key, value), key) == Some(value),
        other != key ==> lookup(put(e, key, value), other) == lookup(e, other),
{
    lemma_position(e, key, 0);
    lemma_position(e, other, 0);
    let p = put(e, key, value);
    lemma_position(p, key, 0);
    lemma_position(p, other, 0);
    let i = position(e, key, 0);
    let a = position(p, key, 0);
    assert(p[i].0 == key);
    if a < i {
        assert(p[a] == e[a]);
        assert(e[a].0 != key);
    }
    assert(a == i);
    if other != key {
        let x = position(e, other, 0);
        let y = position(p, other, 0);
        if x < e.len() {
            assert(p[x] == e[x]);
        }
        if y < x {
            assert(p[y] == e[y]);
            assert(e[y].0 != other);
        }
        if x < y {
            assert(p[x].0 != other);
        }
        assert(x == y || (x == e.len() && y == p.len()));
    }
}

/// One entry of a table.
#[derive(Debug)]
pub struct Entry<V> {
    pub key: String,
    pub value: V,
}

/// A table from names to values. No name occurs twice, and the entries
/// stand in the order in which their names were first inserted.
#[derive(Debug)]
pub struct Table<V: View> {
    entries: Vec<Entry<V>>,
}

impl<V: View> View for Table<V> {
    type V = Seq<(Seq<char>, V::V)>;

    closed spec fn view(&self) -> Seq<(Seq<char>, V::V)> {
        Seq::new(self.entries@.len(), |i: int| (self.entries@[i].key@, self.entries@[i].value@))
    }
}

impl<V: View> Table<V> {
    #[verifier::type_invariant]
    spec fn no_name_twice(self) -> bool {
        distinct_names(self@)
    }

    /// The empty table.
    pub fn new() -> (t: Table<V>)
        ensures
            t@ == Seq::<(Seq<char>, V::V)>::empty(),
            distinct_names(t@),
    {
        let t = Table { entries: Vec::new() };
        assert(t@ =~= Seq::<(Seq<char>, V::V)>::empty());
        t
    }

    /// The number of entries, no two of which have the same name.
    pub fn len(&self) -> (n: usize)
        ensures
            n == self@.len(),
            distinct_names(self@),
    {
        proof {
            use_type_invariant(self);
        }
        self.entries.len()
    }

    /// The index of the entry with the name `key`, or `len()` if there is none.
    pub fn find(&self, key: &str) -> (i: usize)
        ensures
            i == position(self@, key@, 0),
            i <= self@.len(),
    {
        let mut i: usize = 0;
        while i < self.entries.len()
            invariant
                i <= self.entries.len(),
                self@.len() == self.entries.len(),
                position(self@, key@, i as int) == position(self@, key@, 0),
            decreases self.entries.len() - i,
        {
            if same(self.entries[i].key.as_str(), key) {
                return i;
            }
            i += 1;
        }
        i
    }

    /// Whether an entry has the name `key`.
    pub fn contains_key(&self, key: &str) -> (b: bool)
        ensures
            b == has_name(self@, key@),
    {
        self.find(key) < self.entries.len()
    }

    /// The value under `key`.
    pub fn get(&self, key: &str) -> (r: Option<&V>)
        ensures
            r is Some == has_name(self@, key@),
            r matches Some(v) ==> Some(v@) == lookup(self@, key@),
    {
        let i = self.find(key);
        if i < self.entries.len() {
            Some(&self.entries[i].value)
        } else {
            None
        }
    }

    /// The name of entry `i`.
    pub fn key_at(&self, i: usize) -> (k: &String)
        requires
            i < self@.len(),
        ensures
            k@ == self@[i as int].0,
    {
        &self.entries[i].key
    }

    /// The value of entry `i`.
    pub fn value_at(&self, i: usize) -> (v: &V)
        requires
            i < self@.len(),
        ensures
            v@ == self@[i as int].1,
    {
        &self.entries[i].value
    }

    /// Puts `value` under `key`: in the place of the entry that has the name,
    /// or at the end if none has it.
    pub fn insert(&mut self, key: String, value: V)
        ensures
            final(self)@ == put(old(self)@, key@, value@),
            distinct_names(final(self)@),
    {
        let i = self.find(key.as_str());
        let ghost before = self@;
        proof {
            use_type_invariant(&*self);
            lemma_put_distinct(before, key@, value@);
        }
        let mut taken = Table { entries: Vec::new() };
        assert(taken@ =~= Seq::<(Seq<char>, V::V)>::empty());
        core::mem::swap(self, &mut taken);
        let mut entries = taken.entries;
        if i < entries.len() {
            entries.set(i, Entry { key, value });
        } else {
            entries.push(Entry { key, value });
        }
        proof {
            let after = Seq::new(
                entries@.len(),
                |k: int| (entries@[k].key@, entries@[k].value@),
            );
            assert(after =~= put(before, key@, value@));
        }
        *self = Table { entries };
    }
}

} // verus!
