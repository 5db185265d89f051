//! A table of live proxy keys, each with the number of its owner.

use vstd::prelude::*;

verus! {

/// One live proxy: its key and the id of what owns it.
pub struct ProxyKeyEntry {
    pub proxy_key: String,
    pub owner: u64,
}

/// The owners in a list of owners with places.
pub open spec fn owners_of(found: Seq<(u64, int)>) -> Seq<u64> {
    Seq::new(found.len(), |i: int| found[i].0)
}

/// For each owner that holds one of the keys, the place of the first of
/// its keys among them; the owners stand in the order of those places. A
/// key that is not held counts for nobody.
pub open spec fn first_by_owner(held: Map<Seq<char>, u64>, keys: Seq<Seq<char>>) -> Seq<(u64, int)>
    decreases keys.len(),
{
    if keys.len() == 0 {
        Seq::empty()
    } else {
        let before = first_by_owner(held, keys.drop_last());
        let key = keys.last();
        if held.contains_key(key) && !owners_of(before).contains(held[key]) {
            before.push((held[key], keys.len() - 1))
        } else {
            before
        }
    }
}

/// Whether `id` is among the ids.
fn contains_id(ids: &Vec<u64>, id: u64) -> (found: bool)
    ensures
        found == ids@.contains(id),
{
    let mut i: usize = 0;
    while i < ids.len()
        invariant
            i <= ids.len(),
            forall|j: int| 0 <= j < i ==> ids@[j] != id,
        decreases ids.len() - i,
    {
        if ids[i] == id {
            return true;
        }
        i = i + 1;
    }
    false
}

/// Live proxy keys, each held once, with the id that owns it (a service in
/// the registry, a user in a service's connection set). Entries stay in the
/// order in which their keys came.
pub struct ProxyKeyTable {
    entries: Vec<ProxyKeyEntry>,
}

impl ProxyKeyTable {
    /// The key of entry `i`.
    pub closed spec fn key_at(&self, i: int) -> Seq<char> {
        self.entries[i].proxy_key@
    }

    /// The owner of entry `i`.
    pub closed spec fn owner_at(&self, i: int) -> u64 {
        self.entries[i].owner
    }

    /// The number of entries.
    pub closed spec fn count(&self) -> nat {
        self.entries.len() as nat
    }

    /// No key is held twice.
    pub open spec fn wf(&self) -> bool {
        forall|i: int, j: int|
            0 <= i < self.count() && 0 <= j < self.count() && #[trigger] self.key_at(i)
                == #[trigger] self.key_at(j) ==> i == j
    }

    /// Whether `key` is held.
    pub open spec fn has(&self, key: Seq<char>) -> bool {
        exists|i: int| 0 <= i < self.count() && #[trigger] self.key_at(i) == key
    }

    /// The place of `key` among the entries.
    pub open spec fn index_of(&self, key: Seq<char>) -> int {
        choose|i: int| 0 <= i < self.count() && #[trigger] self.key_at(i) == key
    }

    /// The keys held, in the order in which they came.
    pub open spec fn keys(&self) -> Seq<Seq<char>> {
        Seq::new(self.count(), |i: int| self.key_at(i))
    }

    /// The owners, in the order of `keys`.
    pub open spec fn owners(&self) -> Seq<u64> {
        Seq::new(self.count(), |i: int| self.owner_at(i))
    }

    /// The table as a map from key to owner.
    pub open spec fn view(&self) -> Map<Seq<char>, u64> {
        Map::new(|k: Seq<char>| self.has(k), |k: Seq<char>| self.owner_at(self.index_of(k)))
    }

    /// In a well-formed table the entry at `i` is the one found under its key.
    pub proof fn lemma_index(&self, i: int)
        requires
            self.wf(),
            0 <= i < self.count(),
        ensures
            self.has(self.key_at(i)),
            self.index_of(self.key_at(i)) == i,
            self@.contains_key(self.key_at(i)),
            self@[self.key_at(i)] == self.owner_at(i),
    {
    }

    /// A table with no entries.
    pub fn new() -> (table: ProxyKeyTable)
        ensures
            table.wf(),
            table@ == Map::<Seq<char>, u64>::empty(),
            table.keys() == Seq::<Seq<char>>::empty(),
            table.owners() == Seq::<u64>::empty(),
    {
        let table = ProxyKeyTable { entries: Vec::new() };
        assert(table@ =~= Map::<Seq<char>, u64>::empty());
        assert(table.keys() =~= Seq::<Seq<char>>::empty());
        assert(table.owners() =~= Seq::<u64>::empty());
        table
    }

    /// The number of keys held.
    pub fn len(&self) -> (n: usize)
        ensures
            n == self.keys().len(),
    {
        self.entries.len()
    }

    /// Whether no key is held.
    pub fn is_empty(&self) -> (empty: bool)
        ensures
            empty == (self.keys().len() == 0),
    {
        self.entries.len() == 0
    }

    /// Where `key` stands among the entries, if it is held.
    fn position(&self, key: &str) -> (found: Option<usize>)
        ensures
            match found {
                Some(i) => i < self.count() && self.key_at(i as int) == key@,
                None => !self.has(key@),
            },
    {
        let wanted = String::from_str(key);
        let mut i: usize = 0;
        while i < self.entries.len()
            invariant
                i <= self.count(),
                wanted@ == key@,
                forall|j: int| 0 <= j < i ==> #[trigger] self.key_at(j) != key@,
            decreases self.count() - i,
        {
            if self.entries[i].proxy_key == wanted {
                return Some(i);
            }
            i = i + 1;
        }
        None
    }

    /// Whether `key` is held.
    pub fn contains_key(&self, key: &str) -> (held: bool)
        ensures
            held == self@.contains_key(key@),
    {
        self.position(key).is_some()
    }

    /// The owner of `key`, if it is held.
    pub fn get(&self, key: &str) -> (owner: Option<u64>)
        requires
            self.wf(),
        ensures
            owner == (if self@.contains_key(key@) {
                Some(self@[key@])
            } else {
                None
            }),
    {
        match self.position(key) {
            Some(i) => {
                proof {
                    self.lemma_index(i as int);
                }
                Some(self.entries[i].owner)
            },
            None => None,
        }
    }

    /// Holds `key` for `owner` unless it is held already; says whether it was added.
    pub fn insert(&mut self, key: &str, owner: u64) -> (added: bool)
        requires
            old(self).wf(),
        ensures
            final(self).wf(),
            added == !old(self)@.contains_key(key@),
            added ==> final(self)@ == old(self)@.insert(key@, owner),
            added ==> final(self).keys() == old(self).keys().push(key@),
            added ==> final(self).owners() == old(self).owners().push(owner),
            !added ==> *final(self) == *old(self),
    {
        if self.position(key).is_some() {
            return false;
        }
        let ghost before = *self;
        self.entries.push(ProxyKeyEntry { proxy_key: String::from_str(key), owner });
        proof {
            let n = before.count() as int;
            assert(self.count() == n + 1);
            assert(forall|i: int| 0 <= i < n ==> self.key_at(i) == before.key_at(i));
            assert(forall|i: int| 0 <= i < n ==> self.owner_at(i) == before.owner_at(i));
            assert(self.key_at(n) == key@);
            assert(self.owner_at(n) == owner);
            assert(!before.has(key@));
            assert(self.wf()) by {
                assert forall|i: int, j: int|
                    0 <= i < self.count() && 0 <= j < self.count() && #[trigger] self.key_at(i)
                        == #[trigger] self.key_at(j) implies i == j by {
                    if i < n {
                        assert(before.key_at(i) == self.key_at(i));
                    }
                    if j < n {
                        assert(before.key_at(j) == self.key_at(j));
                    }
                }
            }
            assert(self.keys() =~= before.keys().push(key@));
            assert(self.owners() =~= before.owners().push(owner));
            assert forall|k: Seq<char>| self.has(k) <==> (k == key@ || before.has(k)) by {
                if before.has(k) {
                    let i = before.index_of(k);
                    assert(self.key_at(i) == k);
                }
                if k == key@ {
                    assert(self.key_at(n) == k);
                }
                if self.has(k) {
                    let i = self.index_of(k);
                    if i < n {
                        assert(before.key_at(i) == k);
                    }
                }
            }
            assert forall|k: Seq<char>| #[trigger] self.has(k) implies self.owner_at(
                self.index_of(k),
            ) == before@.insert(key@, owner)[k] by {
                let i = self.index_of(k);
                if i < n {
                    before.lemma_index(i);
                }
            }
            assert(self@ =~= before@.insert(key@, owner));
        }
        true
    }

    /// Lets go of `key`; gives its owner if it was held.
    pub fn remove(&mut self, key: &str) -> (owner: Option<u64>)
        requires
            old(self).wf(),
        ensures
            final(self).wf(),
            owner == (if old(self)@.contains_key(key@) {
                Some(old(self)@[key@])
            } else {
                None
            }),
            final(self)@ == old(self)@.remove(key@),
            !final(self)@.contains_key(key@),
            owner is None ==> *final(self) == *old(self),
            owner is Some ==> final(self).keys() == old(self).keys().remove(
                old(self).index_of(key@),
            ),
            owner is Some ==> final(self).owners() == old(self).owners().remove(
                old(self).index_of(key@),
            ),
    {
        match self.position(key) {
            None => {
                assert(self@ =~= self@.remove(key@));
                None
            },
            Some(at) => {
                let ghost before = *self;
                proof {
                    before.lemma_index(at as int);
                }
                let entry = self.entries.remove(at);
                proof {
                    let n = before.count() as int;
                    let a = at as int;
                    assert(self.count() == n - 1);
                    assert(forall|i: int| 0 <= i < a ==> self.key_at(i) == before.key_at(i));
                    assert(forall|i: int| a <= i < n - 1 ==> self.key_at(i) == before.key_at(i + 1));
                    assert(forall|i: int| 0 <= i < a ==> self.owner_at(i) == before.owner_at(i));
                    assert(forall|i: int|
                        a <= i < n - 1 ==> self.owner_at(i) == before.owner_at(i + 1));
                    assert(self.wf()) by {
                        assert forall|i: int, j: int|
                            0 <= i < self.count() && 0 <= j < self.count() && #[trigger] self.key_at(
                                i,
                            ) == #[trigger] self.key_at(j) implies i == j by {
                            let bi = if i < a {
                                i
                            } else {
                                i + 1
                            };
                            let bj = if j < a {
                                j
                            } else {
                                j + 1
                            };
                            assert(before.key_at(bi) == before.key_at(bj));
                        }
                    }
                    assert(self.keys() =~= before.keys().remove(a));
                    assert(self.owners() =~= before.owners().remove(a));
                    assert forall|k: Seq<char>| self.has(k) <==> (k != key@ && before.has(k)) by {
                        if self.has(k) {
                            let i = self.index_of(k);
                            let bi = if i < a {
                                i
                            } else {
                                i + 1
                            };
                            assert(before.key_at(bi) == k);
                        }
                        if k != key@ && before.has(k) {
                            let bi = before.index_of(k);
                            let i = if bi < a {
                                bi
                            } else {
                                bi - 1
                            };
                            assert(self.key_at(i) == k);
                        }
                    }
                    assert forall|k: Seq<char>| #[trigger] self.has(k) implies self.owner_at(
                        self.index_of(k),
                    ) == before@[k] by {
                        let i = self.index_of(k);
                        let bi = if i < a {
                            i
                        } else {
                            i + 1
                        };
                        before.lemma_index(bi);
                    }
                    assert(self@ =~= before@.remove(key@));
                }
                Some(entry.owner)
            },
        }
    }

    /// For each owner that holds one of the keys, the owner and the place
    /// of the first of its keys among them, in the order of those places.
    pub fn first_by_owner(&self, keys: &Vec<String>) -> (found: Vec<(u64, usize)>)
        requires
            self.wf(),
        ensures
            found@.len() == first_by_owner(self@, keys@.map_values(|k: String| k@)).len(),
            forall|j: int|
                0 <= j < found@.len() ==> (#[trigger] found@[j]).0 == first_by_owner(
                    self@,
                    keys@.map_values(|k: String| k@),
                )[j].0 && found@[j].1 == first_by_owner(
                    self@,
                    keys@.map_values(|k: String| k@),
                )[j].1 && found@[j].1 < keys@.len(),
    {
        let ghost all = keys@.map_values(|k: String| k@);
        let mut found: Vec<(u64, usize)> = Vec::new();
        let mut owners: Vec<u64> = Vec::new();
        let mut i: usize = 0;
        assert(all.take(0) =~= Seq::<Seq<char>>::empty());
        while i < keys.len()
            invariant
                i <= keys.len(),
                self.wf(),
                all == keys@.map_values(|k: String| k@),
                found@.len() == first_by_owner(self@, all.take(i as int)).len(),
                owners@ == owners_of(first_by_owner(self@, all.take(i as int))),
                forall|j: int|
                    0 <= j < found@.len() ==> (#[trigger] found@[j]).0 == first_by_owner(
                        self@,
                        all.take(i as int),
                    )[j].0 && found@[j].1 == first_by_owner(self@, all.take(i as int))[j].1
                        && found@[j].1 < i,
            decreases keys.len() - i,
        {
            let ghost before = first_by_owner(self@, all.take(i as int));
            proof {
                let next = all.take(i + 1);
                assert(next.drop_last() =~= all.take(i as int));
                assert(next.last() == keys@[i as int]@);
            }
            match self.get(keys[i].as_str()) {
                Some(owner) => {
                    if !contains_id(&owners, owner) {
                        found.push((owner, i));
                        owners.push(owner);
                        proof {
                            let after = first_by_owner(self@, all.take(i + 1));
                            assert(after == before.push((owner, i as int)));
                            assert(owners@ =~= owners_of(after));
                        }
                    }
                },
                None => {},
            }
            i = i + 1;
        }
        assert(all.take(i as int) =~= all);
        found
    }

    /// The key and owner at place `i`, in the order in which the keys came.
    pub fn entry(&self, i: usize) -> (entry: (&str, u64))
        requires
            i < self.keys().len(),
        ensures
            entry.0@ == self.keys()[i as int],
            entry.1 == self.owners()[i as int],
    {
        (self.entries[i].proxy_key.as_str(), self.entries[i].owner)
    }
}

} // verus!
