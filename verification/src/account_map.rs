//! Values filed under account identifiers, in the order in which they arrived.

use vstd::prelude::*;

verus! {

/// Whether a list of entries files something under `id`.
pub open spec fn on_file<V>(entries: Seq<(Seq<char>, V)>, id: Seq<char>) -> bool {
    exists|i: int| 0 <= i < entries.len() && (#[trigger] entries[i]).0 == id
}

/// A place at which `id` stands.
pub open spec fn position<V>(entries: Seq<(Seq<char>, V)>, id: Seq<char>) -> int
    recommends
        on_file(entries, id),
{
    choose|i: int| 0 <= i < entries.len() && (#[trigger] entries[i]).0 == id
}

/// What is filed under `id`.
pub open spec fn lookup<V>(entries: Seq<(Seq<char>, V)>, id: Seq<char>) -> Option<V> {
    if on_file(entries, id) {
        Some(entries[position(entries, id)].1)
    } else {
        None
    }
}

/// No identifier occurs twice.
pub open spec fn distinct<V>(entries: Seq<(Seq<char>, V)>) -> bool {
    forall|i: int, j: int|
        0 <= i < j < entries.len() ==> (#[trigger] entries[i]).0 != (#[trigger] entries[j]).0
}

/// Filing a value: in place of the one that stood under `id`, else at the end.
pub open spec fn filed<V>(entries: Seq<(Seq<char>, V)>, id: Seq<char>, value: V) -> Seq<
    (Seq<char>, V),
> {
    if on_file(entries, id) {
        entries.update(position(entries, id), (id, value))
    } else {
        entries.push((id, value))
    }
}

/// Taking out what stands under `id`: the last entry moves into its place.
pub open spec fn withdrawn<V>(entries: Seq<(Seq<char>, V)>, id: Seq<char>) -> Seq<(Seq<char>, V)> {
    if on_file(entries, id) {
        entries.update(position(entries, id), entries.last()).drop_last()
    } else {
        entries
    }
}

/// The sum of a measure over all values on file.
pub open spec fn total<V>(entries: Seq<(Seq<char>, V)>, measure: spec_fn(V) -> int) -> int
    decreases entries.len(),
{
    if entries.len() == 0 {
        0
    } else {
        total(entries.drop_last(), measure) + measure(entries.last().1)
    }
}

/// In a list without repetitions an identifier has one place.
pub proof fn lemma_position<V>(entries: Seq<(Seq<char>, V)>, i: int)
    requires
        distinct(entries),
        0 <= i < entries.len(),
    ensures
        on_file(entries, entries[i].0),
        position(entries, entries[i].0) == i,
        lookup(entries, entries[i].0) == Some(entries[i].1),
{
    let id = entries[i].0;
    assert(on_file(entries, id));
    let p = position(entries, id);
    assert(0 <= p < entries.len() && entries[p].0 == id);
}

/// After filing, the list holds the value under `id`, and under every other
/// identifier what it held before.
pub proof fn lemma_filed<V>(entries: Seq<(Seq<char>, V)>, id: Seq<char>, value: V)
    requires
        distinct(entries),
    ensures
        distinct(filed(entries, id, value)),
        lookup(filed(entries, id, value), id) == Some(value),
        forall|other: Seq<char>|
            other != id ==> #[trigger] lookup(filed(entries, id, value), other) == lookup(
                entries,
                other,
            ),
{
    let after = filed(entries, id, value);
    if on_file(entries, id) {
        let p = position(entries, id);
        assert(0 <= p < entries.len() && entries[p].0 == id);
        lemma_position(after, p);
    } else {
        assert(after[entries.len() as int] == (id, value));
        lemma_position(after, entries.len() as int);
    }
    assert forall|other: Seq<char>| other != id implies #[trigger] lookup(after, other) == lookup(
        entries,
        other,
    ) by {
        if on_file(entries, other) {
            let q = position(entries, other);
            assert(after[q] == entries[q]);
            lemma_position(after, q);
        } else if on_file(after, other) {
            let q = position(after, other);
            assert(after[q].0 == other);
            assert(entries[q].0 == other);
        }
    }
}

/// After taking out, the list holds nothing under `id`, and under every other
/// identifier what it held before.
pub proof fn lemma_withdrawn<V>(entries: Seq<(Seq<char>, V)>, id: Seq<char>)
    requires
        distinct(entries),
    ensures
        distinct(withdrawn(entries, id)),
        lookup(withdrawn(entries, id), id) is None,
        forall|other: Seq<char>|
            other != id ==> #[trigger] lookup(withdrawn(entries, id), other) == lookup(
                entries,
                other,
            ),
{
    let after = withdrawn(entries, id);
    if on_file(entries, id) {
        let p = position(entries, id);
        let n = entries.len() as int;
        assert(0 <= p < n && entries[p].0 == id);
        assert forall|i: int| 0 <= i < after.len() implies #[trigger] after[i] == (if i == p {
            entries[n - 1]
        } else {
            entries[i]
        }) by {}
        if on_file(after, id) {
            let q = position(after, id);
            assert(after[q].0 == id);
            if q == p {
                assert(entries[n - 1].0 == entries[p].0);
            }
        }
        assert forall|other: Seq<char>| other != id implies #[trigger] lookup(after, other)
            == lookup(entries, other) by {
            if on_file(entries, other) {
                let q = position(entries, other);
                assert(entries[q].0 == other);
                if q == n - 1 {
                    assert(after[p] == entries[q]);
                    lemma_position(after, p);
                } else {
                    assert(after[q] == entries[q]);
                    lemma_position(after, q);
                }
            } else if on_file(after, other) {
                let q = position(after, other);
                assert(after[q].0 == other);
                if q == p {
                    assert(entries[n - 1].0 == other);
                } else {
                    assert(entries[q].0 == other);
                }
            }
        }
    }
}

/// Replacing one entry changes a sum by the difference of the two values.
proof fn lemma_total_update<V>(
    entries: Seq<(Seq<char>, V)>,
    p: int,
    entry: (Seq<char>, V),
    measure: spec_fn(V) -> int,
)
    requires
        0 <= p < entries.len(),
    ensures
        total(entries.update(p, entry), measure) == total(entries, measure) - measure(entries[p].1)
            + measure(entry.1),
    decreases entries.len(),
{
    let after = entries.update(p, entry);
    if p == entries.len() - 1 {
        assert(after.drop_last() =~= entries.drop_last());
    } else {
        assert(after.drop_last() =~= entries.drop_last().update(p, entry));
        lemma_total_update(entries.drop_last(), p, entry, measure);
    }
}

/// Filing a value changes a sum by what the value adds to what stood there.
pub proof fn lemma_total_filed<V>(
    entries: Seq<(Seq<char>, V)>,
    id: Seq<char>,
    value: V,
    measure: spec_fn(V) -> int,
)
    ensures
        total(filed(entries, id, value), measure) == total(entries, measure) + measure(value) - (
        match lookup(entries, id) {
            Some(v) => measure(v),
            None => 0,
        }),
{
    if on_file(entries, id) {
        lemma_total_update(entries, position(entries, id), (id, value), measure);
    } else {
        assert(entries.push((id, value)).drop_last() =~= entries);
    }
}

/// Taking a value out lowers a sum by what the value counted.
pub proof fn lemma_total_withdrawn<V>(
    entries: Seq<(Seq<char>, V)>,
    id: Seq<char>,
    measure: spec_fn(V) -> int,
)
    ensures
        total(withdrawn(entries, id), measure) == total(entries, measure) - (match lookup(
            entries,
            id,
        ) {
            Some(v) => measure(v),
            None => 0,
        }),
{
    if on_file(entries, id) {
        lemma_total_update(entries, position(entries, id), entries.last(), measure);
    }
}

/// Values filed under account identifiers.
pub struct AccountMap<V> {
    entries: Vec<(String, V)>,
}

impl<V> View for AccountMap<V> {
    type V = Seq<(Seq<char>, V)>;

    closed spec fn view(&self) -> Seq<(Seq<char>, V)> {
        self.entries@.map_values(|e: (String, V)| (e.0@, e.1))
    }
}

impl<V: Copy> AccountMap<V> {
    /// No identifier occurs twice.
    pub open spec fn wf(&self) -> bool {
        distinct(self@)
    }

    /// A map that holds nothing.
    pub fn new() -> (r: Self)
        ensures
            r@ == Seq::<(Seq<char>, V)>::empty(),
            r.wf(),
    {
        let r = AccountMap { entries: Vec::new() };
        assert(r@ =~= Seq::<(Seq<char>, V)>::empty());
        r
    }

    /// How many values are on file.
    pub fn len(&self) -> (r: usize)
        ensures
            r == self@.len(),
    {
        self.entries.len()
    }

    /// The identifier of the entry at a place.
    pub fn key_at(&self, i: usize) -> (r: String)
        requires
            i < self@.len(),
        ensures
            r@ == self@[i as int].0,
    {
        self.entries[i].0.clone()
    }

    /// The place at which `id` stands.
    fn find(&self, id: &String) -> (r: Option<usize>)
        ensures
            match r {
                Some(i) => i < self@.len() && self@[i as int].0 == id@,
                None => !on_file(self@, id@),
            },
    {
        let mut i: usize = 0;
        while i < self.entries.len()
            invariant
                i <= self.entries@.len(),
                self@.len() == self.entries@.len(),
                forall|j: int| 0 <= j < self@.len() ==> (#[trigger] self@[j]).0 == self.entries@[j].0@,
                forall|j: int| 0 <= j < i ==> (#[trigger] self@[j]).0 != id@,
            decreases self.entries.len() - i,
        {
            assert(self@[i as int].0 == self.entries@[i as int].0@);
            if self.entries[i].0 == *id {
                return Some(i);
            }
            i = i + 1;
        }
        None
    }

    /// What is filed under `id`.
    pub fn get(&self, id: &String) -> (r: Option<V>)
        requires
            self.wf(),
        ensures
            r == lookup(self@, id@),
    {
        match self.find(id) {
            Some(i) => {
                proof {
                    lemma_position(self@, i as int);
                }
                Some(self.entries[i].1)
            },
            None => None,
        }
    }

    /// Files `value` under `id`.
    pub fn insert(&mut self, id: &String, value: V)
        requires
            old(self).wf(),
        ensures
            final(self)@ == filed(old(self)@, id@, value),
            final(self).wf(),
    {
        proof {
            lemma_filed(self@, id@, value);
        }
        match self.find(id) {
            Some(i) => {
                proof {
                    lemma_position(self@, i as int);
                }
                self.entries.set(i, (id.clone(), value));
            },
            None => {
                self.entries.push((id.clone(), value));
            },
        }
        assert(self@ =~= filed(old(self)@, id@, value));
    }

    /// Takes out what is filed under `id`.
    pub fn remove(&mut self, id: &String)
        requires
            old(self).wf(),
        ensures
            final(self)@ == withdrawn(old(self)@, id@),
            final(self).wf(),
    {
        proof {
            lemma_withdrawn(self@, id@);
        }
        match self.find(id) {
            Some(i) => {
                proof {
                    lemma_position(self@, i as int);
                }
                let _ = self.entries.swap_remove(i);
            },
            None => {},
        }
        assert(self@ =~= withdrawn(old(self)@, id@));
    }
}

} // verus!
