//! Small maps keyed by server id or by name, kept as vectors of entries with
//! distinct keys.
use vstd::prelude::*;

verus! {

/// A map from server ids to values.
#[derive(Debug)]
pub struct IdMap<V> {
    entries: Vec<(i64, V)>,
}

/// No key occurs twice in `s`.
pub open spec fn ids_distinct<V>(s: Seq<(i64, V)>) -> bool {
    forall|i: int, j: int| 0 <= i < s.len() && 0 <= j < s.len() && i != j ==> s[i].0 != s[j].0
}

/// `k` is a key of `s`.
pub open spec fn has_id<V>(s: Seq<(i64, V)>, k: i64) -> bool {
    exists|i: int| 0 <= i < s.len() && s[i].0 == k
}

/// Where `k` stands in `s`.
pub open spec fn id_index<V>(s: Seq<(i64, V)>, k: i64) -> int {
    choose|i: int| 0 <= i < s.len() && s[i].0 == k
}

/// The map that the entries `s` make.
pub open spec fn id_map_of<V>(s: Seq<(i64, V)>) -> Map<i64, V> {
    Map::new(|k: i64| has_id(s, k), |k: i64| s[id_index(s, k)].1)
}

proof fn lemma_id_index<V>(s: Seq<(i64, V)>, i: int)
    requires
        ids_distinct(s),
        0 <= i < s.len(),
    ensures
        has_id(s, s[i].0),
        id_index(s, s[i].0) == i,
        id_map_of(s).contains_key(s[i].0),
        id_map_of(s)[s[i].0] == s[i].1,
{
    assert(has_id(s, s[i].0));
}

impl<V> IdMap<V> {
    #[verifier::type_invariant]
    spec fn inv(&self) -> bool {
        ids_distinct(self.entries@)
    }

    /// The entries, in the order they were first inserted.
    pub closed spec fn items(&self) -> Seq<(i64, V)> {
        self.entries@
    }

    /// The map that the entries make.
    pub open spec fn map(&self) -> Map<i64, V> {
        id_map_of(self.items())
    }

    /// Entries with distinct keys make the map.
    pub proof fn lemma_items(&self)
        requires
            ids_distinct(self.items()),
        ensures
            forall|i: int|
                0 <= i < self.items().len() ==> #[trigger] self.map().contains_key(
                    self.items()[i].0,
                ) && self.map()[self.items()[i].0] == self.items()[i].1,
            forall|k: i64|
                #[trigger] self.map().contains_key(k) ==> exists|i: int|
                    0 <= i < self.items().len() && self.items()[i].0 == k,
    {
        assert forall|i: int| 0 <= i < self.items().len() implies #[trigger] self.map().contains_key(
            self.items()[i].0,
        ) && self.map()[self.items()[i].0] == self.items()[i].1 by {
            lemma_id_index(self.entries@, i);
        }
    }

    /// An empty map.
    pub fn new() -> (m: IdMap<V>)
        ensures
            m.map() == Map::<i64, V>::empty(),
            m.items().len() == 0,
    {
        let m = IdMap { entries: Vec::new() };
        assert(m.map() =~= Map::<i64, V>::empty());
        m
    }

    /// The number of entries.
    pub fn len(&self) -> (n: usize)
        ensures
            n == self.items().len(),
            ids_distinct(self.items()),
    {
        proof {
            use_type_invariant(self);
        }
        self.entries.len()
    }

    /// The key and value of the `i`-th entry.
    pub fn entry(&self, i: usize) -> (e: &(i64, V))
        requires
            i < self.items().len(),
        ensures
            *e == self.items()[i as int],
    {
        &self.entries[i]
    }

    fn find(&self, k: i64) -> (r: Option<usize>)
        ensures
            match r {
                Some(i) => i < self.items().len() && self.items()[i as int].0 == k,
                None => !has_id(self.items(), k),
            },
    {
        let n = self.entries.len();
        let mut i: usize = 0;
        while i < n
            invariant
                n == self.entries@.len(),
                i <= n,
                forall|j: int| 0 <= j < i ==> self.entries@[j].0 != k,
            decreases n - i,
        {
            if self.entries[i].0 == k {
                return Some(i);
            }
            i = i + 1;
        }
        None
    }

    /// The value under `k`, if any.
    pub fn get(&self, k: i64) -> (r: Option<&V>)
        ensures
            match r {
                Some(v) => self.map().contains_key(k) && *v == self.map()[k],
                None => !self.map().contains_key(k),
            },
    {
        proof {
            use_type_invariant(self);
        }
        match self.find(k) {
            Some(i) => {
                proof {
                    lemma_id_index(self.entries@, i as int);
                }
                Some(&self.entries[i].1)
            },
            None => None,
        }
    }

    /// Sets the value under `k`, replacing any earlier one; a new key goes
    /// after the existing ones.
    pub fn insert(&mut self, k: i64, v: V)
        ensures
            final(self).map() == old(self).map().insert(k, v),
            old(self).map().contains_key(k) ==> final(self).items().len() == old(
                self,
            ).items().len(),
            !old(self).map().contains_key(k) ==> final(self).items() == old(self).items().push(
                (k, v),
            ),
    {
        proof {
            use_type_invariant(&*self);
        }
        let ghost before = self.entries@;
        match self.find(k) {
            Some(i) => {
                let mut entries: Vec<(i64, V)> = Vec::new();
                std::mem::swap(&mut entries, &mut self.entries);
                entries.set(i, (k, v));
                proof {
                    let after = entries@;
                    assert(ids_distinct(after));
                    lemma_id_index(after, i as int);
                    assert forall|key: i64| #[trigger] id_map_of(after).contains_key(key) == id_map_of(
                        before,
                    ).insert(k, v).contains_key(key) by {
                        if has_id(before, key) {
                            let j = id_index(before, key);
                            assert(after[j].0 == key);
                        }
                        if has_id(after, key) {
                            let j = id_index(after, key);
                            assert(before[j].0 == key || j == i);
                        }
                    }
                    assert forall|key: i64| #[trigger]
                        id_map_of(after).contains_key(key) && key != k implies id_map_of(
                        after,
                    )[key] == id_map_of(before)[key] by {
                        let j = id_index(after, key);
                        assert(j != i);
                        lemma_id_index(after, j);
                        lemma_id_index(before, j);
                    }
                    assert(id_map_of(after) =~= id_map_of(before).insert(k, v));
                }
                self.entries = entries;
            },
            None => {
                let mut entries: Vec<(i64, V)> = Vec::new();
                std::mem::swap(&mut entries, &mut self.entries);
                entries.push((k, v));
                proof {
                    let after = entries@;
                    assert(ids_distinct(after));
                    lemma_id_index(after, before.len() as int);
                    assert forall|key: i64| #[trigger] id_map_of(after).contains_key(key) == id_map_of(
                        before,
                    ).insert(k, v).contains_key(key) by {
                        if has_id(before, key) {
                            let j = id_index(before, key);
                            assert(after[j].0 == key);
                        }
                        if has_id(after, key) && key != k {
                            let j = id_index(after, key);
                            assert(before[j].0 == key);
                        }
                    }
                    assert forall|key: i64| #[trigger]
                        id_map_of(after).contains_key(key) && key != k implies id_map_of(
                        after,
                    )[key] == id_map_of(before)[key] by {
                        let j = id_index(after, key);
                        assert(j != before.len());
                        lemma_id_index(after, j);
                        lemma_id_index(before, j);
                    }
                    assert(id_map_of(after) =~= id_map_of(before).insert(k, v));
                }
                self.entries = entries;
            },
        }
    }

    /// Removes the entry under `k` and hands its value out, if there is one.
    pub fn take(&mut self, k: i64) -> (r: Option<V>)
        ensures
            final(self).map() == old(self).map().remove(k),
            match r {
                Some(v) => old(self).map().contains_key(k) && v == old(self).map()[k],
                None => !old(self).map().contains_key(k),
            },
    {
        proof {
            use_type_invariant(&*self);
        }
        let ghost before = self.entries@;
        match self.find(k) {
            Some(i) => {
                proof {
                    lemma_id_index(before, i as int);
                }
                let mut entries: Vec<(i64, V)> = Vec::new();
                std::mem::swap(&mut entries, &mut self.entries);
                let (_, v) = entries.remove(i);
                proof {
                    let after = entries@;
                    assert forall|a: int, b: int|
                        0 <= a < after.len() && 0 <= b < after.len() && a != b implies after[a].0
                        != after[b].0 by {
                        let a0 = if a < i { a } else { a + 1 };
                        let b0 = if b < i { b } else { b + 1 };
                        assert(after[a] == before[a0]);
                        assert(after[b] == before[b0]);
                    }
                    assert forall|key: i64| #[trigger] id_map_of(after).contains_key(key) == id_map_of(
                        before,
                    ).remove(k).contains_key(key) by {
                        if has_id(before, key) && key != k {
                            let j = id_index(before, key);
                            assert(j != i);
                            let j1 = if j < i { j } else { j - 1 };
                            assert(after[j1] == before[j]);
                        }
                        if has_id(after, key) {
                            let j = id_index(after, key);
                            let j0 = if j < i { j } else { j + 1 };
                            assert(after[j] == before[j0]);
                            assert(j0 != i);
                        }
                    }
                    assert forall|key: i64| #[trigger]
                        id_map_of(after).contains_key(key) implies id_map_of(after)[key]
                        == id_map_of(before)[key] by {
                        let j = id_index(after, key);
                        let j0 = if j < i { j } else { j + 1 };
                        assert(after[j] == before[j0]);
                        lemma_id_index(after, j);
                        lemma_id_index(before, j0);
                    }
                    assert(id_map_of(after) =~= id_map_of(before).remove(k));
                }
                self.entries = entries;
                Some(v)
            },
            None => {
                proof {
                    assert(id_map_of(before) =~= id_map_of(before).remove(k));
                }
                None
            },
        }
    }
}

/// A map from names to values; names are compared by their text.
#[derive(Debug)]
pub struct NamedMap<V> {
    entries: Vec<(String, V)>,
}

/// No name occurs twice in `s`.
pub open spec fn names_distinct<V>(s: Seq<(String, V)>) -> bool {
    forall|i: int, j: int| 0 <= i < s.len() && 0 <= j < s.len() && i != j ==> s[i].0@ != s[j].0@
}

/// `k` is the text of a name in `s`.
pub open spec fn has_name<V>(s: Seq<(String, V)>, k: Seq<char>) -> bool {
    exists|i: int| 0 <= i < s.len() && s[i].0@ == k
}

/// Where `k` stands in `s`.
pub open spec fn name_index<V>(s: Seq<(String, V)>, k: Seq<char>) -> int {
    choose|i: int| 0 <= i < s.len() && s[i].0@ == k
}

/// The map that the entries `s` make.
pub open spec fn name_map_of<V>(s: Seq<(String, V)>) -> Map<Seq<char>, V> {
    Map::new(|k: Seq<char>| has_name(s, k), |k: Seq<char>| s[name_index(s, k)].1)
}

proof fn lemma_name_index<V>(s: Seq<(String, V)>, i: int)
    requires
        names_distinct(s),
        0 <= i < s.len(),
    ensures
        has_name(s, s[i].0@),
        name_index(s, s[i].0@) == i,
        name_map_of(s).contains_key(s[i].0@),
        name_map_of(s)[s[i].0@] == s[i].1,
{
    assert(has_name(s, s[i].0@));
}

impl<V> NamedMap<V> {
    #[verifier::type_invariant]
    spec fn inv(&self) -> bool {
        names_distinct(self.entries@)
    }

    /// The entries, in the order they were first inserted.
    pub closed spec fn items(&self) -> Seq<(String, V)> {
        self.entries@
    }

    /// The map that the entries make.
    pub open spec fn map(&self) -> Map<Seq<char>, V> {
        name_map_of(self.items())
    }

    /// Entries with distinct keys make the map.
    pub proof fn lemma_items(&self)
        requires
            names_distinct(self.items()),
        ensures
            forall|i: int|
                0 <= i < self.items().len() ==> #[trigger] self.map().contains_key(
                    self.items()[i].0@,
                ) && self.map()[self.items()[i].0@] == self.items()[i].1,
            forall|k: Seq<char>|
                #[trigger] self.map().contains_key(k) ==> exists|i: int|
                    0 <= i < self.items().len() && self.items()[i].0@ == k,
    {
        assert forall|i: int| 0 <= i < self.items().len() implies #[trigger] self.map().contains_key(
            self.items()[i].0@,
        ) && self.map()[self.items()[i].0@] == self.items()[i].1 by {
            lemma_name_index(self.entries@, i);
        }
    }

    /// An empty map.
    pub fn new() -> (m: NamedMap<V>)
        ensures
            m.map() == Map::<Seq<char>, V>::empty(),
            m.items().len() == 0,
    {
        let m = NamedMap { entries: Vec::new() };
        assert(m.map() =~= Map::<Seq<char>, V>::empty());
        m
    }

    /// The number of entries.
    pub fn len(&self) -> (n: usize)
        ensures
            n == self.items().len(),
            names_distinct(self.items()),
    {
        proof {
            use_type_invariant(self);
        }
        self.entries.len()
    }

    /// The key and value of the `i`-th entry.
    pub fn entry(&self, i: usize) -> (e: &(String, V))
        requires
            i < self.items().len(),
        ensures
            *e == self.items()[i as int],
    {
        &self.entries[i]
    }

    fn find(&self, name: &String) -> (r: Option<usize>)
        ensures
            match r {
                Some(i) => i < self.items().len() && self.items()[i as int].0@ == name@,
                None => !has_name(self.items(), name@),
            },
    {
        let n = self.entries.len();
        let mut i: usize = 0;
        while i < n
            invariant
                n == self.entries@.len(),
                i <= n,
                forall|j: int| 0 <= j < i ==> self.entries@[j].0@ != name@,
            decreases n - i,
        {
            if self.entries[i].0 == *name {
                return Some(i);
            }
            i = i + 1;
        }
        None
    }

    /// The value under `k`, if any.
    pub fn get(&self, name: &String) -> (r: Option<&V>)
        ensures
            match r {
                Some(v) => self.map().contains_key(name@) && *v == self.map()[name@],
                None => !self.map().contains_key(name@),
            },
    {
        proof {
            use_type_invariant(self);
        }
        match self.find(name) {
            Some(i) => {
                proof {
                    lemma_name_index(self.entries@, i as int);
                }
                Some(&self.entries[i].1)
            },
            None => None,
        }
    }

    /// Sets the value under `k`, replacing any earlier one; a new key goes
    /// after the existing ones.
    pub fn insert(&mut self, name: String, v: V)
        ensures
            final(self).map() == old(self).map().insert(name@, v),
            old(self).map().contains_key(name@) ==> final(self).items().len() == old(
                self,
            ).items().len(),
            !old(self).map().contains_key(name@) ==> final(self).items() == old(self).items().push(
                (name, v),
            ),
    {
        proof {
            use_type_invariant(&*self);
        }
        let ghost before = self.entries@;
        let ghost k = name@;
        match self.find(&name) {
            Some(i) => {
                let mut entries: Vec<(String, V)> = Vec::new();
                std::mem::swap(&mut entries, &mut self.entries);
                entries.set(i, (name, v));
                proof {
                    let after = entries@;
                    assert(names_distinct(after));
                    lemma_name_index(after, i as int);
                    assert forall|key: Seq<char>| #[trigger] name_map_of(after).contains_key(key) == name_map_of(
                        before,
                    ).insert(k, v).contains_key(key) by {
                        if has_name(before, key) {
                            let j = name_index(before, key);
                            assert(after[j].0@ == key);
                        }
                        if has_name(after, key) {
                            let j = name_index(after, key);
                            assert(before[j].0@ == key || j == i);
                        }
                    }
                    assert forall|key: Seq<char>| #[trigger]
                        name_map_of(after).contains_key(key) && key != k implies name_map_of(
                        after,
                    )[key] == name_map_of(before)[key] by {
                        let j = name_index(after, key);
                        assert(j != i);
                        lemma_name_index(after, j);
                        lemma_name_index(before, j);
                    }
                    assert(name_map_of(after) =~= name_map_of(before).insert(k, v));
                }
                self.entries = entries;
            },
            None => {
                let mut entries: Vec<(String, V)> = Vec::new();
                std::mem::swap(&mut entries, &mut self.entries);
                entries.push((name, v));
                proof {
                    let after = entries@;
                    assert(names_distinct(after));
                    lemma_name_index(after, before.len() as int);
                    assert forall|key: Seq<char>| #[trigger] name_map_of(after).contains_key(key) == name_map_of(
                        before,
                    ).insert(k, v).contains_key(key) by {
                        if has_name(before, key) {
                            let j = name_index(before, key);
                            assert(after[j].0@ == key);
                        }
                        if has_name(after, key) && key != k {
                            let j = name_index(after, key);
                            assert(before[j].0@ == key);
                        }
                    }
                    assert forall|key: Seq<char>| #[trigger]
                        name_map_of(after).contains_key(key) && key != k implies name_map_of(
                        after,
                    )[key] == name_map_of(before)[key] by {
                        let j = name_index(after, key);
                        assert(j != before.len());
                        lemma_name_index(after, j);
                        lemma_name_index(before, j);
                    }
                    assert(name_map_of(after) =~= name_map_of(before).insert(k, v));
                }
                self.entries = entries;
            },
        }
    }

    /// Removes the entry under `k` and hands its value out, if there is one.
    pub fn take(&mut self, name: &String) -> (r: Option<V>)
        ensures
            final(self).map() == old(self).map().remove(name@),
            match r {
                Some(v) => old(self).map().contains_key(name@) && v == old(self).map()[name@],
                None => !old(self).map().contains_key(name@),
            },
    {
        proof {
            use_type_invariant(&*self);
        }
        let ghost before = self.entries@;
        let ghost k = name@;
        match self.find(name) {
            Some(i) => {
                proof {
                    lemma_name_index(before, i as int);
                }
                let mut entries: Vec<(String, V)> = Vec::new();
                std::mem::swap(&mut entries, &mut self.entries);
                let (_, v) = entries.remove(i);
                proof {
                    let after = entries@;
                    assert forall|a: int, b: int|
                        0 <= a < after.len() && 0 <= b < after.len() && a != b implies after[a].0@
                        != after[b].0@ by {
                        let a0 = if a < i { a } else { a + 1 };
                        let b0 = if b < i { b } else { b + 1 };
                        assert(after[a] == before[a0]);
                        assert(after[b] == before[b0]);
                    }
                    assert forall|key: Seq<char>| #[trigger] name_map_of(after).contains_key(key) == name_map_of(
                        before,
                    ).remove(k).contains_key(key) by {
                        if has_name(before, key) && key != k {
                            let j = name_index(before, key);
                            assert(j != i);
                            let j1 = if j < i { j } else { j - 1 };
                            assert(after[j1] == before[j]);
                        }
                        if has_name(after, key) {
                            let j = name_index(after, key);
                            let j0 = if j < i { j } else { j + 1 };
                            assert(after[j] == before[j0]);
                            assert(j0 != i);
                        }
                    }
                    assert forall|key: Seq<char>| #[trigger]
                        name_map_of(after).contains_key(key) implies name_map_of(after)[key]
                        == name_map_of(before)[key] by {
                        let j = name_index(after, key);
                        let j0 = if j < i { j } else { j + 1 };
                        assert(after[j] == before[j0]);
                        lemma_name_index(after, j);
                        lemma_name_index(before, j0);
                    }
                    assert(name_map_of(after) =~= name_map_of(before).remove(k));
                }
                self.entries = entries;
                Some(v)
            },
            None => {
                proof {
                    assert(name_map_of(before) =~= name_map_of(before).remove(k));
                }
                None
            },
        }
    }
}

} // verus!
