//! The mapping entity and the mapping table it lives in.
//!
//! A table holds `(key, url)` pairs with at most one pair per key; the five
//! operations (list, get, insert, update, delete) are specified over a
//! mathematical view of the table, a sequence of `(key, url)` character
//! sequences in storage order.

use vstd::prelude::*;

verus! {

/// One stored mapping: a unique `key` redirecting to a `url`.
#[derive(Debug)]
pub struct UrlMap {
    pub key: String,
    pub url: String,
}

impl UrlMap {
    pub fn new(key: String, url: String) -> (m: UrlMap)
        ensures
            m.key == key,
            m.url == url,
    {
        UrlMap { key, url }
    }
}

impl Clone for UrlMap {
    fn clone(&self) -> (res: Self)
        ensures
            res == *self,
    {
        UrlMap { key: self.key.clone(), url: self.url.clone() }
    }
}

/// The mathematical content of a table: the `(key, url)` pairs in storage order.
pub type TableView = Seq<(Seq<char>, Seq<char>)>;

/// The view of a sequence of mappings: each mapping as its `(key, url)` pair.
pub open spec fn maps_view(ms: Seq<UrlMap>) -> TableView {
    Seq::new(ms.len(), |i: int| (ms[i].key@, ms[i].url@))
}

/// No two pairs share a key.
pub open spec fn unique_keys(s: TableView) -> bool {
    forall|i: int, j: int|
        #![trigger s[i], s[j]]
        0 <= i < s.len() && 0 <= j < s.len() && i != j ==> s[i].0 != s[j].0
}

/// Some pair carries the key `k`.
pub open spec fn contains_key(s: TableView, k: Seq<char>) -> bool {
    exists|i: int| 0 <= i < s.len() && s[i].0 == k
}

/// The position of the pair carrying `k`; meaningful when `contains_key(s, k)`
/// holds, and unique when the keys are unique.
pub open spec fn key_index(s: TableView, k: Seq<char>) -> int {
    choose|i: int| 0 <= i < s.len() && s[i].0 == k
}

/// The url stored under `k`, if any.
pub open spec fn lookup(s: TableView, k: Seq<char>) -> Option<Seq<char>> {
    if contains_key(s, k) {
        Some(s[key_index(s, k)].1)
    } else {
        None
    }
}

/// What an insert of `(k, u)` leaves behind: a new pair at the end, or the
/// table unchanged when the key is already taken.
pub open spec fn insert_model(s: TableView, k: Seq<char>, u: Seq<char>) -> TableView {
    if contains_key(s, k) {
        s
    } else {
        s.push((k, u))
    }
}

/// What an update of `(k, u)` leaves behind: the pair under `k` now carries
/// `u`, or the table unchanged when the key is absent.
pub open spec fn update_model(s: TableView, k: Seq<char>, u: Seq<char>) -> TableView {
    if contains_key(s, k) {
        s.update(key_index(s, k), (k, u))
    } else {
        s
    }
}

/// What a delete of `k` leaves behind: the pair under `k` gone, or the table
/// unchanged when the key is absent.
pub open spec fn delete_model(s: TableView, k: Seq<char>) -> TableView {
    if contains_key(s, k) {
        s.remove(key_index(s, k))
    } else {
        s
    }
}

/// When the keys of `s` are unique and `k` is present, `key_index(s, k)` is
/// the one position that carries `k`.
pub proof fn lemma_key_index(s: TableView, k: Seq<char>)
    requires
        unique_keys(s),
        contains_key(s, k),
    ensures
        0 <= key_index(s, k) < s.len(),
        s[key_index(s, k)].0 == k,
        forall|i: int| 0 <= i < s.len() && s[i].0 == k ==> i == key_index(s, k),
{
    let i0 = key_index(s, k);
    assert(0 <= i0 < s.len() && s[i0].0 == k) by {
        assert(exists|i: int| 0 <= i < s.len() && s[i].0 == k);
    }
    assert forall|i: int| 0 <= i < s.len() && s[i].0 == k implies i == i0 by {
        if i != i0 {
            assert(s[i].0 != s[i0].0);
        }
    }
}

/// A store error: the key sought was absent, or the key inserted was taken.
/// A real backing store can fail for further reasons (lost connectivity among
/// them); the actor forwards whatever error the store produced, so nothing
/// here depends on the error set being closed.
#[derive(Debug, Clone, Copy, PartialEq, Eq, Structural)]
pub enum StoreError {
    NotFound,
    DuplicateKey,
}

/// The mapping table: `(key, url)` pairs, at most one per key.
pub struct Store {
    url_maps: Vec<UrlMap>,
}

impl View for Store {
    type V = TableView;

    closed spec fn view(&self) -> TableView {
        maps_view(self.url_maps@)
    }
}

impl Store {
    /// The table invariant: keys are unique.
    pub open spec fn wf(&self) -> bool {
        unique_keys(self@)
    }

    /// An empty table.
    pub fn new() -> (s: Store)
        ensures
            s@ == Seq::<(Seq<char>, Seq<char>)>::empty(),
            s.wf(),
    {
        let s = Store { url_maps: Vec::new() };
        proof {
            assert(s@ =~= Seq::<(Seq<char>, Seq<char>)>::empty());
        }
        s
    }

    /// Where `key` sits in the table, if anywhere.
    fn index_of(&self, key: &String) -> (r: Option<usize>)
        ensures
            (r matches Some(i) ==> i < self@.len() && self@[i as int].0 == key@
                && contains_key(self@, key@)),
            r is None ==> !contains_key(self@, key@),
    {
        let n = self.url_maps.len();
        let mut i: usize = 0;
        while i < n
            invariant
                n == self.url_maps@.len(),
                i <= n,
                forall|j: int| 0 <= j < i ==> self@[j].0 != key@,
            decreases n - i,
        {
            if self.url_maps[i].key == *key {
                assert(self@[i as int].0 == key@);
                return Some(i);
            }
            assert(self@[i as int].0 != key@);
            i += 1;
        }
        assert(!contains_key(self@, key@));
        None
    }

    /// All mappings, in storage order.
    pub fn list(&self) -> (r: Vec<UrlMap>)
        ensures
            maps_view(r@) == self@,
    {
        let mut r: Vec<UrlMap> = Vec::new();
        let n = self.url_maps.len();
        let mut i: usize = 0;
        while i < n
            invariant
                n == self.url_maps@.len(),
                i <= n,
                r@.len() == i,
                forall|j: int| 0 <= j < i ==> r@[j] == self.url_maps@[j],
            decreases n - i,
        {
            r.push(self.url_maps[i].clone());
            i += 1;
        }
        proof {
            assert(maps_view(r@) =~= self@);
        }
        r
    }

    /// The mapping stored under `key`, or `NotFound`.
    pub fn get(&self, key: &String) -> (r: Result<UrlMap, StoreError>)
        requires
            self.wf(),
        ensures
            r is Ok <==> contains_key(self@, key@),
            (r matches Ok(m) ==> m.key@ == key@ && lookup(self@, key@) == Some(m.url@)),
            (r matches Err(e) ==> e == StoreError::NotFound && lookup(self@, key@) is None),
    {
        match self.index_of(key) {
            Some(i) => {
                let m = self.url_maps[i].clone();
                proof {
                    lemma_key_index(self@, key@);
                    assert(key_index(self@, key@) == i as int);
                    assert(m.key@ == self@[i as int].0);
                    assert(m.url@ == self@[i as int].1);
                }
                Ok(m)
            },
            None => Err(StoreError::NotFound),
        }
    }

    /// Stores `url_map` under its key, or refuses with `DuplicateKey` and
    /// leaves the table as it was. On success the stored mapping is echoed
    /// back.
    pub fn insert(&mut self, url_map: UrlMap) -> (r: Result<UrlMap, StoreError>)
        requires
            old(self).wf(),
        ensures
            final(self).wf(),
            final(self)@ == insert_model(old(self)@, url_map.key@, url_map.url@),
            r is Ok <==> !contains_key(old(self)@, url_map.key@),
            (r matches Ok(m) ==> m == url_map),
            (r matches Err(e) ==> e == StoreError::DuplicateKey),
    {
        match self.index_of(&url_map.key) {
            Some(_) => Err(StoreError::DuplicateKey),
            None => {
                let m = url_map.clone();
                let ghost s0 = self@;
                let ghost p = (url_map.key@, url_map.url@);
                self.url_maps.push(url_map);
                proof {
                    assert(self@ =~= s0.push(p));
                    assert forall|i: int, j: int|
                        0 <= i < self@.len() && 0 <= j < self@.len() && i != j
                        implies #[trigger] self@[i].0 != #[trigger] self@[j].0 by {
                        if i < s0.len() && j < s0.len() {
                            assert(s0[i].0 != s0[j].0);
                        } else if j == s0.len() {
                            assert(!(0 <= i < s0.len() && s0[i].0 == p.0));
                        } else {
                            assert(!(0 <= j < s0.len() && s0[j].0 == p.0));
                        }
                    }
                }
                Ok(m)
            },
        }
    }

    /// Replaces the url stored under the key of `url_map`, or refuses with
    /// `NotFound` and leaves the table as it was. The key itself, and every
    /// other mapping, stay untouched; on success the updated mapping is
    /// echoed back.
    pub fn update(&mut self, url_map: UrlMap) -> (r: Result<UrlMap, StoreError>)
        requires
            old(self).wf(),
        ensures
            final(self).wf(),
            final(self)@ == update_model(old(self)@, url_map.key@, url_map.url@),
            r is Ok <==> contains_key(old(self)@, url_map.key@),
            (r matches Ok(m) ==> m == url_map),
            (r matches Err(e) ==> e == StoreError::NotFound),
    {
        match self.index_of(&url_map.key) {
            Some(i) => {
                let m = url_map.clone();
                let ghost s0 = self@;
                let ghost p = (url_map.key@, url_map.url@);
                proof {
                    lemma_key_index(s0, p.0);
                    assert(key_index(s0, p.0) == i as int);
                }
                let _replaced = self.url_maps.remove(i);
                self.url_maps.insert(i, url_map);
                proof {
                    assert(self@ =~= s0.update(i as int, p));
                    assert forall|x: int, y: int|
                        0 <= x < self@.len() && 0 <= y < self@.len() && x != y
                        implies #[trigger] self@[x].0 != #[trigger] self@[y].0 by {
                        assert(self@[x].0 == s0[x].0);
                        assert(self@[y].0 == s0[y].0);
                    }
                }
                Ok(m)
            },
            None => Err(StoreError::NotFound),
        }
    }

    /// Removes and returns the mapping stored under `key`, or refuses with
    /// `NotFound` and leaves the table as it was.
    pub fn delete(&mut self, key: &String) -> (r: Result<UrlMap, StoreError>)
        requires
            old(self).wf(),
        ensures
            final(self).wf(),
            final(self)@ == delete_model(old(self)@, key@),
            r is Ok <==> contains_key(old(self)@, key@),
            (r matches Ok(m) ==> m.key@ == key@ && lookup(old(self)@, key@) == Some(m.url@)),
            (r matches Err(e) ==> e == StoreError::NotFound),
    {
        match self.index_of(key) {
            Some(i) => {
                let ghost s0 = self@;
                proof {
                    lemma_key_index(s0, key@);
                    assert(key_index(s0, key@) == i as int);
                }
                let m = self.url_maps.remove(i);
                proof {
                    assert(self@ =~= s0.remove(i as int));
                    assert forall|x: int, y: int|
                        0 <= x < self@.len() && 0 <= y < self@.len() && x != y
                        implies #[trigger] self@[x].0 != #[trigger] self@[y].0 by {
                        let x0 = if x < i as int { x } else { x + 1 };
                        let y0 = if y < i as int { y } else { y + 1 };
                        assert(self@[x].0 == s0[x0].0);
                        assert(self@[y].0 == s0[y0].0);
                        assert(s0[x0].0 != s0[y0].0);
                    }
                }
                Ok(m)
            },
            None => Err(StoreError::NotFound),
        }
    }
}

} // verus!
