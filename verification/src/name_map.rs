//! A map from names to values that can be walked entry by entry.

use vstd::pervasive::cloned;
use vstd::prelude::*;
use vstd::string::*;

verus! {

/// A map keyed by strings. Every name occurs at most once.
#[derive(Debug)]
pub struct NameMap<V> {
    entries: Vec<(String, V)>,
}

/// The map that a list of entries without repeated names stands for.
pub open spec fn entries_map<V>(entries: Seq<(String, V)>) -> Map<Seq<char>, V>
    decreases entries.len(),
{
    if entries.len() == 0 {
        Map::empty()
    } else {
        entries_map(entries.drop_last()).insert(entries.last().0@, entries.last().1)
    }
}

/// Whether no two entries share a name.
pub open spec fn distinct_names<V>(entries: Seq<(String, V)>) -> bool {
    forall|i: int, j: int|
        0 <= i < j < entries.len() ==> (#[trigger] entries[i]).0@ != (#[trigger] entries[j]).0@
}

/// Whether `entries` lists every entry of `m` once and nothing else.
pub open spec fn lists<V>(entries: Seq<(String, V)>, m: Map<Seq<char>, V>) -> bool {
    &&& distinct_names(entries)
    &&& forall|i: int|
        0 <= i < entries.len() ==> m.contains_pair((#[trigger] entries[i]).0@, entries[i].1)
    &&& forall|name: Seq<char>| #[trigger]
        m.contains_key(name) ==> exists|i: int|
            0 <= i < entries.len() && (#[trigger] entries[i]).0@ == name
}

/// What the map of a list of entries holds, entry by entry.
proof fn lemma_entries_map<V>(entries: Seq<(String, V)>)
    requires
        distinct_names(entries),
    ensures
        lists(entries, entries_map(entries)),
    decreases entries.len(),
{
    if entries.len() > 0 {
        let rest = entries.drop_last();
        lemma_entries_map(rest);
        assert forall|i: int| 0 <= i < entries.len() implies entries_map(entries).contains_pair(
            (#[trigger] entries[i]).0@,
            entries[i].1,
        ) by {
            if i < rest.len() {
                assert(rest[i] == entries[i]);
            }
        }
        assert forall|name: Seq<char>| #[trigger]
            entries_map(entries).contains_key(name) implies exists|i: int|
            0 <= i < entries.len() && (#[trigger] entries[i]).0@ == name by {
            if name != entries.last().0@ {
                assert(entries_map(rest).contains_key(name));
                let i = choose|i: int| 0 <= i < rest.len() && (#[trigger] rest[i]).0@ == name;
                assert(entries[i].0@ == name);
            } else {
                assert(entries[entries.len() - 1].0@ == name);
            }
        }
    }
}

/// A map is determined by the entries that list it.
proof fn lemma_entries_map_is<V>(entries: Seq<(String, V)>, m: Map<Seq<char>, V>)
    requires
        lists(entries, m),
    ensures
        entries_map(entries) == m,
{
    lemma_entries_map(entries);
    assert forall|name: Seq<char>| #[trigger]
        entries_map(entries).contains_key(name) <==> m.contains_key(name) by {
        if entries_map(entries).contains_key(name) {
            let i = choose|i: int| 0 <= i < entries.len() && (#[trigger] entries[i]).0@ == name;
            assert(m.contains_pair(entries[i].0@, entries[i].1));
        }
        if m.contains_key(name) {
            let i = choose|i: int| 0 <= i < entries.len() && (#[trigger] entries[i]).0@ == name;
            assert(entries_map(entries).contains_pair(entries[i].0@, entries[i].1));
        }
    }
    assert forall|name: Seq<char>| #[trigger] m.contains_key(name) implies entries_map(
        entries,
    )[name] == m[name] by {
        let i = choose|i: int| 0 <= i < entries.len() && (#[trigger] entries[i]).0@ == name;
        assert(m.contains_pair(entries[i].0@, entries[i].1));
        assert(entries_map(entries).contains_pair(entries[i].0@, entries[i].1));
    }
    assert(entries_map(entries) =~= m);
}

/// A listing has as many entries as the map has names.
pub proof fn a_listing_has_an_entry_for_every_name<V>(
    entries: Seq<(String, V)>,
    m: Map<Seq<char>, V>,
)
    requires
        lists(entries, m),
    ensures
        m.dom().finite(),
        m.len() == entries.len(),
{
    let names = entries.map_values(|entry: (String, V)| entry.0@);
    assert forall|i: int, j: int|
        0 <= i < names.len() && 0 <= j < names.len() && i != j implies names[i] != names[j] by {
        if i < j {
            assert(entries[i].0@ != entries[j].0@);
        } else {
            assert(entries[j].0@ != entries[i].0@);
        }
    }
    names.unique_seq_to_set();
    assert forall|name: Seq<char>| names.to_set().contains(name) <==> m.dom().contains(name) by {
        if names.to_set().contains(name) {
            let i = choose|i: int| 0 <= i < names.len() && names[i] == name;
            assert(m.contains_pair(entries[i].0@, entries[i].1));
        }
        if m.contains_key(name) {
            let i = choose|i: int| 0 <= i < entries.len() && (#[trigger] entries[i]).0@ == name;
            assert(names[i] == name);
        }
    }
    assert(names.to_set() =~= m.dom());
}

impl<V> View for NameMap<V> {
    type V = Map<Seq<char>, V>;

    closed spec fn view(&self) -> Map<Seq<char>, V> {
        entries_map(self.entries@)
    }
}

impl<V> NameMap<V> {
    /// No name occurs twice.
    #[verifier::type_invariant]
    spec fn names_are_distinct(self) -> bool {
        distinct_names(self.entries@)
    }

    /// The entries in the order in which a walk meets them.
    pub closed spec fn listing(&self) -> Seq<(String, V)> {
        self.entries@
    }

    /// Whether `i` is the place of `name` in the listing.
    spec fn is_at(&self, name: Seq<char>, i: int) -> bool {
        0 <= i < self.entries@.len() && self.entries@[i].0@ == name
    }

    /// An empty map.
    pub fn new() -> (r: Self)
        ensures
            r@ == Map::<Seq<char>, V>::empty(),
            r.listing().len() == 0,
    {
        NameMap { entries: Vec::new() }
    }

    /// The place of `name` in the listing.
    fn position(&self, name: &str) -> (r: Option<usize>)
        ensures
            match r {
                Some(i) => self.is_at(name@, i as int) && self@.contains_pair(
                    name@,
                    self.entries@[i as int].1,
                ),
                None => !self@.contains_key(name@),
            },
    {
        proof {
            use_type_invariant(self);
            lemma_entries_map(self.entries@);
        }
        let wanted = name.to_owned();
        let mut i: usize = 0;
        while i < self.entries.len()
            invariant
                i <= self.entries@.len(),
                wanted@ == name@,
                forall|k: int| 0 <= k < i ==> (#[trigger] self.entries@[k]).0@ != name@,
            decreases self.entries@.len() - i,
        {
            if self.entries[i].0 == wanted {
                proof {
                    use_type_invariant(self);
                    lemma_entries_map(self.entries@);
                    assert(self@.contains_pair(
                        self.entries@[i as int].0@,
                        self.entries@[i as int].1,
                    ));
                }
                return Some(i);
            }
            i = i + 1;
        }
        None
    }

    /// The value under `name`.
    pub fn get(&self, name: &str) -> (r: Option<&V>)
        ensures
            match r {
                Some(v) => self@.contains_pair(name@, *v),
                None => !self@.contains_key(name@),
            },
    {
        match self.position(name) {
            Some(i) => Some(&self.entries[i].1),
            None => None,
        }
    }

    /// Whether there is a value under `name`.
    pub fn contains_key(&self, name: &str) -> (r: bool)
        ensures
            r == self@.contains_key(name@),
    {
        self.position(name).is_some()
    }

    /// The number of entries.
    pub fn len(&self) -> (r: usize)
        ensures
            r == self@.len(),
            r == self.listing().len(),
            lists(self.listing(), self@),
    {
        proof {
            use_type_invariant(self);
            lemma_entries_map(self.entries@);
            a_listing_has_an_entry_for_every_name(self.entries@, self@);
        }
        self.entries.len()
    }

    /// Whether there is no entry.
    pub fn is_empty(&self) -> (r: bool)
        ensures
            r == (self@ == Map::<Seq<char>, V>::empty()),
    {
        proof {
            use_type_invariant(self);
            lemma_entries_map(self.entries@);
            if self.entries@.len() > 0 {
                assert(self@.contains_pair(self.entries@[0].0@, self.entries@[0].1));
            }
        }
        self.entries.len() == 0
    }

    /// The entry at a place of the listing.
    pub fn entry(&self, i: usize) -> (r: (&str, &V))
        requires
            i < self.listing().len(),
        ensures
            r.0@ == self.listing()[i as int].0@,
            *r.1 == self.listing()[i as int].1,
    {
        (self.entries[i].0.as_str(), &self.entries[i].1)
    }

    /// Puts `value` under `name`, in place of what was there.
    pub fn insert(&mut self, name: String, value: V)
        ensures
            final(self)@ == old(self)@.insert(name@, value),
    {
        let place = self.position(name.as_str());
        let ghost before = self.entries@;
        proof {
            use_type_invariant(&*self);
            lemma_entries_map(before);
        }
        let mut entries: Vec<(String, V)> = Vec::new();
        core::mem::swap(&mut entries, &mut self.entries);
        match place {
            Some(i) => {
                let _ = entries.remove(i);
            },
            None => {},
        }
        let ghost kept = entries@;
        entries.push((name, value));
        proof {
            let after = entries@;
            let wanted = entries_map(before).insert(name@, value);
            assert forall|i: int, j: int| 0 <= i < j < after.len() implies (#[trigger] after[i]).0@
                != (#[trigger] after[j]).0@ by {
                if place is Some {
                    let p = place->0 as int;
                    assert(after[i] == before[if i < p { i } else { i + 1 }]);
                    assert(before[p].0@ == name@);
                    if j < kept.len() {
                        assert(after[j] == before[if j < p { j } else { j + 1 }]);
                    }
                } else if j == kept.len() && after[i].0@ == name@ {
                    assert(entries_map(before).contains_pair(before[i].0@, before[i].1));
                }
            }
            assert forall|i: int| 0 <= i < after.len() implies wanted.contains_pair(
                (#[trigger] after[i]).0@,
                after[i].1,
            ) by {
                if i < kept.len() {
                    assert(after[i].0@ != after[kept.len() as int].0@);
                    if place is Some {
                        let p = place->0 as int;
                        let k = if i < p { i } else { i + 1 };
                        assert(after[i] == before[k]);
                        assert(entries_map(before).contains_pair(before[k].0@, before[k].1));
                    } else {
                        assert(entries_map(before).contains_pair(before[i].0@, before[i].1));
                    }
                }
            }
            assert forall|n: Seq<char>| #[trigger] wanted.contains_key(n) implies exists|i: int|
                0 <= i < after.len() && (#[trigger] after[i]).0@ == n by {
                if n == name@ {
                    assert(after[kept.len() as int].0@ == n);
                } else {
                    assert(entries_map(before).contains_key(n));
                    let k = choose|k: int| 0 <= k < before.len() && (#[trigger] before[k]).0@ == n;
                    if place is Some {
                        let p = place->0 as int;
                        assert(k != p);
                        assert(after[if k < p { k } else { k - 1 }] == before[k]);
                    } else {
                        assert(after[k] == before[k]);
                    }
                }
            }
            lemma_entries_map_is(after, wanted);
        }
        self.entries = entries;
    }

    /// Takes out the value under `name`.
    pub fn remove(&mut self, name: &str) -> (r: Option<V>)
        ensures
            final(self)@ == old(self)@.remove(name@),
            match r {
                Some(v) => old(self)@.contains_pair(name@, v),
                None => !old(self)@.contains_key(name@),
            },
    {
        let place = self.position(name);
        let ghost before = self.entries@;
        proof {
            use_type_invariant(&*self);
            lemma_entries_map(before);
        }
        match place {
            None => {
                assert(self@ =~= old(self)@.remove(name@));
                None
            },
            Some(p) => {
                let mut entries: Vec<(String, V)> = Vec::new();
                core::mem::swap(&mut entries, &mut self.entries);
                let (_, value) = entries.remove(p);
                proof {
                    let after = entries@;
                    let wanted = entries_map(before).remove(name@);
                    assert forall|i: int| 0 <= i < after.len() implies wanted.contains_pair(
                        (#[trigger] after[i]).0@,
                        after[i].1,
                    ) by {
                        let k = if i < p { i } else { i + 1 };
                        assert(after[i] == before[k]);
                        assert(before[k].0@ != before[p as int].0@);
                        assert(entries_map(before).contains_pair(before[k].0@, before[k].1));
                    }
                    assert forall|n: Seq<char>| #[trigger] wanted.contains_key(n) implies exists|
                        i: int,
                    | 0 <= i < after.len() && (#[trigger] after[i]).0@ == n by {
                        assert(entries_map(before).contains_key(n));
                        let k = choose|k: int|
                            0 <= k < before.len() && (#[trigger] before[k]).0@ == n;
                        assert(after[if k < p { k } else { k - 1 }] == before[k]);
                    }
                    assert forall|i: int, j: int| 0 <= i < j < after.len() implies (
                    #[trigger] after[i]).0@ != (#[trigger] after[j]).0@ by {
                        assert(after[i] == before[if i < p { i } else { i + 1 }]);
                        assert(after[j] == before[if j < p { j } else { j + 1 }]);
                    }
                    lemma_entries_map_is(after, wanted);
                }
                self.entries = entries;
                Some(value)
            },
        }
    }
}

impl<V: Clone> Clone for NameMap<V> {
    fn clone(&self) -> (r: Self)
        ensures
            r@.dom() == self@.dom(),
            forall|name: Seq<char>| #[trigger]
                self@.contains_key(name) ==> cloned(self@[name], r@[name]),
    {
        let mut r: NameMap<V> = NameMap::new();
        let mut i: usize = 0;
        while i < self.entries.len()
            invariant
                i <= self.entries@.len(),
                ({
                    let seen = entries_map(self.entries@.take(i as int));
                    &&& r@.dom() == seen.dom()
                    &&& forall|name: Seq<char>| #[trigger]
                        seen.contains_key(name) ==> cloned(seen[name], r@[name])
                }),
            decreases self.entries@.len() - i,
        {
            assert(self.entries@.take(i + 1).drop_last() =~= self.entries@.take(i as int));
            r.insert(self.entries[i].0.clone(), self.entries[i].1.clone());
            i = i + 1;
            assert(r@.dom() =~= entries_map(self.entries@.take(i as int)).dom());
        }
        assert(self.entries@.take(i as int) =~= self.entries@);
        r
    }
}

} // verus!
