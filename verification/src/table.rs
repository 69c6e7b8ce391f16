//! Tables from names to values with each name at most once: raffle
//! weights, the entries of a running raffle, quotes and custom commands.

use vstd::prelude::*;
use crate::text::str_eq;

verus! {

/// The index of the first entry from the `i`-th on with key `k`.
pub open spec fn key_index<V>(s: Seq<(Seq<char>, V)>, k: Seq<char>, i: int) -> Option<int>
    decreases s.len() - i,
{
    if 0 <= i < s.len() {
        if s[i].0 == k {
            Some(i)
        } else {
            key_index(s, k, i + 1)
        }
    } else {
        None
    }
}

/// The number stored under `k`.
pub open spec fn lookup<V>(s: Seq<(Seq<char>, V)>, k: Seq<char>) -> Option<V> {
    match key_index(s, k, 0) {
        Some(i) => Some(s[i].1),
        None => None,
    }
}

/// No key occurs twice.
pub open spec fn keys_unique<V>(s: Seq<(Seq<char>, V)>) -> bool {
    forall|i: int, j: int| 0 <= i < j < s.len() ==> #[trigger] s[i].0 != #[trigger] s[j].0
}

/// The table with `v` stored under `k`: in place where `k` is present, at
/// the end otherwise.
pub open spec fn upsert<V>(s: Seq<(Seq<char>, V)>, k: Seq<char>, v: V) -> Seq<(Seq<char>, V)> {
    match key_index(s, k, 0) {
        Some(i) => s.update(i, (k, v)),
        None => s.push((k, v)),
    }
}

/// The table without the entry for `k`.
pub open spec fn remove_key<V>(s: Seq<(Seq<char>, V)>, k: Seq<char>) -> Seq<(Seq<char>, V)> {
    match key_index(s, k, 0) {
        Some(i) => s.remove(i),
        None => s,
    }
}

/// Whether `k` has an entry.
pub open spec fn has_key<V>(s: Seq<(Seq<char>, V)>, k: Seq<char>) -> bool {
    key_index(s, k, 0) is Some
}

pub proof fn lemma_key_index<V>(s: Seq<(Seq<char>, V)>, k: Seq<char>, i: int)
    requires
        0 <= i,
    ensures
        match key_index(s, k, i) {
            Some(j) => i <= j < s.len() && s[j].0 == k && forall|m: int| i <= m < j ==> s[m].0 != k,
            None => forall|m: int| i <= m < s.len() ==> s[m].0 != k,
        },
    decreases s.len() - i,
{
    if 0 <= i < s.len() && s[i].0 != k {
        lemma_key_index(s, k, i + 1);
    }
}

/// In a table without repeated keys, an entry is found at its index.
pub proof fn lemma_key_index_at<V>(s: Seq<(Seq<char>, V)>, j: int)
    requires
        keys_unique(s),
        0 <= j < s.len(),
    ensures
        key_index(s, s[j].0, 0) == Some(j),
{
    lemma_key_index(s, s[j].0, 0);
    match key_index(s, s[j].0, 0) {
        Some(m) => {
            if m < j {
                assert(s[m].0 != s[j].0);
            }
        },
        None => {},
    }
}

pub proof fn lemma_upsert_unique<V>(s: Seq<(Seq<char>, V)>, k: Seq<char>, v: V)
    requires
        keys_unique(s),
    ensures
        keys_unique(upsert(s, k, v)),
        lookup(upsert(s, k, v), k) == Some(v),
        forall|k2: Seq<char>| k2 != k ==> lookup(upsert(s, k, v), k2) == lookup(s, k2),
{
    lemma_key_index(s, k, 0);
    let t = upsert(s, k, v);
    assert(keys_unique(t));
    match key_index(s, k, 0) {
        Some(i) => lemma_key_index_at(t, i),
        None => lemma_key_index_at(t, s.len() as int),
    }
    assert forall|k2: Seq<char>| k2 != k implies lookup(t, k2) == lookup(s, k2) by {
        lemma_key_index(s, k2, 0);
        lemma_key_index(t, k2, 0);
        match key_index(s, k2, 0) {
            Some(j) => {
                lemma_key_index_at(t, j);
            },
            None => {},
        }
        match key_index(t, k2, 0) {
            Some(j) => {
                if j < s.len() {
                    lemma_key_index_at(s, j);
                }
            },
            None => {},
        }
    }
}

pub proof fn lemma_remove_unique<V>(s: Seq<(Seq<char>, V)>, k: Seq<char>)
    requires
        keys_unique(s),
    ensures
        keys_unique(remove_key(s, k)),
        lookup(remove_key(s, k), k) is None,
        forall|k2: Seq<char>| k2 != k ==> lookup(remove_key(s, k), k2) == lookup(s, k2),
{
    lemma_key_index(s, k, 0);
    let t = remove_key(s, k);
    assert(keys_unique(t));
    lemma_key_index(t, k, 0);
    assert forall|k2: Seq<char>| k2 != k implies lookup(t, k2) == lookup(s, k2) by {
        lemma_key_index(s, k2, 0);
        lemma_key_index(t, k2, 0);
        match key_index(s, k2, 0) {
            Some(j) => {
                let i = key_index(s, k, 0);
                if i is Some && i->0 < j {
                    lemma_key_index_at(t, j - 1);
                } else {
                    lemma_key_index_at(t, j);
                }
            },
            None => {},
        }
        match key_index(t, k2, 0) {
            Some(j) => {
                let i = key_index(s, k, 0);
                if i is Some && i->0 <= j {
                    lemma_key_index_at(s, j + 1);
                } else {
                    lemma_key_index_at(s, j);
                }
            },
            None => {},
        }
    }
}

/// A key has an entry exactly when some entry holds it.
pub proof fn lemma_has_key<V>(s: Seq<(Seq<char>, V)>, k: Seq<char>)
    ensures
        has_key(s, k) <==> exists|i: int| 0 <= i < s.len() && (#[trigger] s[i]).0 == k,
{
    lemma_key_index(s, k, 0);
}

/// The keys of a table after `upsert` are its keys and the new one.
pub proof fn lemma_upsert_keys<V>(s: Seq<(Seq<char>, V)>, k: Seq<char>, v: V, k2: Seq<char>)
    ensures
        has_key(upsert(s, k, v), k2) <==> (has_key(s, k2) || k2 == k),
{
    lemma_key_index(s, k, 0);
    lemma_has_key(s, k2);
    lemma_has_key(upsert(s, k, v), k2);
    let t = upsert(s, k, v);
    if has_key(s, k2) {
        let i = choose|i: int| 0 <= i < s.len() && (#[trigger] s[i]).0 == k2;
        assert(t[i].0 == k2);
    }
    if k2 == k {
        match key_index(s, k, 0) {
            Some(i) => assert(t[i].0 == k2),
            None => assert(t[s.len() as int].0 == k2),
        }
    }
    if has_key(t, k2) {
        let i = choose|i: int| 0 <= i < t.len() && (#[trigger] t[i]).0 == k2;
        if i < s.len() && s[i].0 != k2 {
            assert(t[i].0 == k);
        }
    }
}

/// The keys of a table after `remove_key` are its keys but the removed one.
pub proof fn lemma_remove_keys<V>(s: Seq<(Seq<char>, V)>, k: Seq<char>, k2: Seq<char>)
    requires
        keys_unique(s),
    ensures
        has_key(remove_key(s, k), k2) <==> (has_key(s, k2) && k2 != k),
{
    lemma_remove_unique(s, k);
    if k2 != k {
        assert(lookup(remove_key(s, k), k2) == lookup(s, k2));
    }
}

/// Adding one to each entry's weight: keys stay, the entries' weights grow
/// by one and the others stay.
pub proof fn lemma_bump(w: Seq<(Seq<char>, u32)>, joined: Seq<(Seq<char>, u32)>)
    requires
        keys_unique(w),
        keys_unique(joined),
        forall|i: int| 0 <= i < joined.len() ==> #[trigger] has_key(w, joined[i].0),
        forall|i: int| 0 <= i < joined.len() ==> (#[trigger] lookup(w, joined[i].0))->0 < u32::MAX,
    ensures
        keys_unique(crate::gamejam::bot::bump_all(w, joined)),
        forall|k: Seq<char>|
            #![trigger has_key(crate::gamejam::bot::bump_all(w, joined), k)]
            has_key(crate::gamejam::bot::bump_all(w, joined), k) == has_key(w, k),
        forall|k: Seq<char>|
            (forall|i: int| 0 <= i < joined.len() ==> joined[i].0 != k) ==> #[trigger] lookup(
                crate::gamejam::bot::bump_all(w, joined),
                k,
            ) == lookup(w, k),
        forall|i: int|
            0 <= i < joined.len() ==> #[trigger] lookup(crate::gamejam::bot::bump_all(w, joined), joined[i].0)
                == Some((lookup(w, joined[i].0)->0 + 1) as u32),
    decreases joined.len(),
{
    if joined.len() > 0 {
        let j0 = joined.drop_last();
        assert forall|i: int| 0 <= i < j0.len() implies #[trigger] has_key(w, j0[i].0) by {
            assert(j0[i] == joined[i]);
        }
        assert forall|i: int| 0 <= i < j0.len() implies (#[trigger] lookup(w, j0[i].0))->0 < u32::MAX by {
            assert(j0[i] == joined[i]);
        }
        lemma_bump(w, j0);
        let w1 = crate::gamejam::bot::bump_all(w, j0);
        let k = joined.last().0;
        assert(forall|i: int| 0 <= i < j0.len() ==> j0[i].0 != k) by {
            assert forall|i: int| 0 <= i < j0.len() implies j0[i].0 != k by {
                assert(j0[i] == joined[i]);
                assert(joined[i].0 != joined[joined.len() - 1].0);
            }
        }
        assert(lookup(w1, k) == lookup(w, k));
        assert(has_key(w, joined[joined.len() - 1].0));
        lemma_key_index(w, k, 0);
        let nv = (lookup(w1, k)->0 + 1) as u32;
        lemma_upsert_unique(w1, k, nv);
        assert forall|k2: Seq<char>| #[trigger] has_key(crate::gamejam::bot::bump_all(w, joined), k2) == has_key(w, k2) by {
            lemma_upsert_keys(w1, k, nv, k2);
        }
        let b = crate::gamejam::bot::bump_all(w, joined);
        assert(b == upsert(w1, k, nv));
        assert forall|i: int|
            0 <= i < joined.len() implies #[trigger] lookup(crate::gamejam::bot::bump_all(w, joined), joined[i].0)
                == Some((lookup(w, joined[i].0)->0 + 1) as u32) by {
            if i < joined.len() - 1 {
                assert(j0[i] == joined[i]);
                assert(joined[i].0 != k);
                assert(lookup(upsert(w1, k, nv), joined[i].0) == lookup(w1, joined[i].0));
                assert(lookup(w1, j0[i].0) == Some((lookup(w, j0[i].0)->0 + 1) as u32));
            }
        }
        assert forall|k2: Seq<char>|
            (forall|i: int| 0 <= i < joined.len() ==> joined[i].0 != k2) implies #[trigger] lookup(
                crate::gamejam::bot::bump_all(w, joined),
                k2,
            ) == lookup(w, k2) by {
            assert(joined[joined.len() - 1].0 != k2);
            assert(lookup(upsert(w1, k, nv), k2) == lookup(w1, k2));
            assert forall|i: int| 0 <= i < j0.len() implies j0[i].0 != k2 by {
                assert(j0[i] == joined[i]);
            }
        }
    }
}

/// Names with a number each.
pub struct LuckTable {
    entries: Vec<(String, u32)>,
}

impl View for LuckTable {
    type V = Seq<(Seq<char>, u32)>;

    closed spec fn view(&self) -> Seq<(Seq<char>, u32)> {
        self.entries@.map_values(|e: (String, u32)| (e.0@, e.1))
    }
}

impl LuckTable {
    /// No name occurs twice.
    pub open spec fn wf(&self) -> bool {
        keys_unique(self@)
    }

    /// An empty table.
    pub fn new() -> (r: LuckTable)
        ensures
            r@ == Seq::<(Seq<char>, u32)>::empty(),
            r.wf(),
    {
        let r = LuckTable { entries: Vec::new() };
        proof {
            assert(r@ =~= Seq::<(Seq<char>, u32)>::empty());
        }
        r
    }

    /// The number of entries.
    pub fn len(&self) -> (n: usize)
        ensures
            n == self@.len(),
    {
        self.entries.len()
    }

    /// The index of the entry for `key`.
    fn index_of(&self, key: &str) -> (r: Option<usize>)
        ensures
            match key_index(self@, key@, 0) {
                Some(i) => r matches Some(j) && j == i,
                None => r is None,
            },
    {
        let mut i: usize = 0;
        while i < self.entries.len()
            invariant
                i <= self.entries@.len(),
                self@.len() == self.entries@.len(),
                key_index(self@, key@, 0) == key_index(self@, key@, i as int),
            decreases self.entries@.len() - i,
        {
            if str_eq(self.entries[i].0.as_str(), key) {
                return Some(i);
            }
            i = i + 1;
        }
        None
    }

    /// The number stored under `key`.
    pub fn get(&self, key: &str) -> (r: Option<u32>)
        ensures
            r == lookup(self@, key@),
    {
        proof {
            lemma_key_index(self@, key@, 0);
        }
        match self.index_of(key) {
            Some(i) => Some(self.entries[i].1),
            None => None,
        }
    }

    /// Stores `value` under `key`, in place of what was there.
    pub fn insert(&mut self, key: String, value: u32)
        requires
            old(self).wf(),
        ensures
            final(self).wf(),
            final(self)@ == upsert(old(self)@, key@, value),
    {
        proof {
            lemma_key_index(self@, key@, 0);
            lemma_upsert_unique(self@, key@, value);
        }
        match self.index_of(key.as_str()) {
            Some(i) => {
                self.entries.set(i, (key, value));
                proof {
                    assert(self@ =~= upsert(old(self)@, key@, value));
                }
            },
            None => {
                self.entries.push((key, value));
                proof {
                    assert(self@ =~= upsert(old(self)@, key@, value));
                }
            },
        }
    }

    /// Removes the entry for `key`; returns the number it held.
    pub fn remove(&mut self, key: &str) -> (r: Option<u32>)
        requires
            old(self).wf(),
        ensures
            final(self).wf(),
            final(self)@ == remove_key(old(self)@, key@),
            r == lookup(old(self)@, key@),
    {
        proof {
            lemma_key_index(self@, key@, 0);
            lemma_remove_unique(self@, key@);
        }
        match self.index_of(key) {
            Some(i) => {
                let e = self.entries.remove(i);
                proof {
                    assert(self@ =~= remove_key(old(self)@, key@));
                }
                Some(e.1)
            },
            None => None,
        }
    }

    /// The number stored under `key`, storing `default` there first where
    /// the key has no entry.
    pub fn get_or_insert(&mut self, key: String, default: u32) -> (r: u32)
        requires
            old(self).wf(),
        ensures
            final(self).wf(),
            match lookup(old(self)@, key@) {
                Some(v) => r == v && final(self)@ == old(self)@,
                None => r == default && final(self)@ == old(self)@.push((key@, default)),
            },
    {
        proof {
            lemma_key_index(self@, key@, 0);
        }
        match self.get(key.as_str()) {
            Some(v) => v,
            None => {
                self.insert(key, default);
                default
            },
        }
    }

    /// Adds one to the number stored under `key`.
    pub fn increment(&mut self, key: &str)
        requires
            old(self).wf(),
            lookup(old(self)@, key@) matches Some(v) && v < u32::MAX,
        ensures
            final(self).wf(),
            final(self)@ == upsert(old(self)@, key@, (lookup(old(self)@, key@)->0 + 1) as u32),
    {
        proof {
            lemma_key_index(self@, key@, 0);
            lemma_upsert_unique(self@, key@, (lookup(old(self)@, key@)->0 + 1) as u32);
        }
        match self.index_of(key) {
            Some(i) => {
                let v = self.entries[i].1;
                let k = self.entries[i].0.clone();
                self.entries.set(i, (k, v + 1));
                proof {
                    assert(self@ =~= upsert(old(self)@, key@, (v + 1) as u32));
                }
            },
            None => {},
        }
    }

    /// Whether no name occurs twice (a table read from a save may break
    /// this).
    pub fn unique_keys(&self) -> (b: bool)
        ensures
            b == self.wf(),
    {
        let n = self.entries.len();
        let mut i: usize = 0;
        while i < n
            invariant
                i <= n,
                n == self@.len(),
                forall|a: int, b: int| 0 <= a < b < self@.len() && a < i ==> #[trigger] self@[a].0 != #[trigger] self@[b].0,
            decreases n - i,
        {
            let mut j: usize = i + 1;
            while j < n
                invariant
                    i < j <= n,
                    n == self@.len(),
                    forall|a: int, b: int| 0 <= a < b < self@.len() && a < i ==> #[trigger] self@[a].0 != #[trigger] self@[b].0,
                    forall|b: int| i < b < j ==> self@[i as int].0 != #[trigger] self@[b].0,
                decreases n - j,
            {
                if str_eq(self.entries[i].0.as_str(), self.entries[j].0.as_str()) {
                    assert(self@[i as int].0 == self@[j as int].0);
                    return false;
                }
                j = j + 1;
            }
            i = i + 1;
        }
        true
    }

    /// A copy of the entries, in table order.
    pub fn entries(&self) -> (r: Vec<(String, u32)>)
        ensures
            r@.len() == self@.len(),
            forall|i: int| 0 <= i < r@.len() ==> (#[trigger] r@[i]).0@ == self@[i].0 && r@[i].1 == self@[i].1,
    {
        let mut r: Vec<(String, u32)> = Vec::new();
        let mut i: usize = 0;
        while i < self.entries.len()
            invariant
                i <= self.entries@.len(),
                self@.len() == self.entries@.len(),
                r@.len() == i,
                forall|j: int| 0 <= j < i ==> (#[trigger] r@[j]).0@ == self@[j].0 && r@[j].1 == self@[j].1,
            decreases self.entries@.len() - i,
        {
            r.push((self.entries[i].0.clone(), self.entries[i].1));
            i = i + 1;
        }
        r
    }
}

/// Names with a text each.
pub struct TextTable {
    entries: Vec<(String, String)>,
}

impl View for TextTable {
    type V = Seq<(Seq<char>, Seq<char>)>;

    closed spec fn view(&self) -> Seq<(Seq<char>, Seq<char>)> {
        self.entries@.map_values(|e: (String, String)| (e.0@, e.1@))
    }
}

impl TextTable {
    /// No name occurs twice.
    pub open spec fn wf(&self) -> bool {
        keys_unique(self@)
    }

    /// An empty table.
    pub fn new() -> (r: TextTable)
        ensures
            r@ == Seq::<(Seq<char>, Seq<char>)>::empty(),
            r.wf(),
    {
        let r = TextTable { entries: Vec::new() };
        proof {
            assert(r@ =~= Seq::<(Seq<char>, Seq<char>)>::empty());
        }
        r
    }

    /// The number of entries.
    pub fn len(&self) -> (n: usize)
        ensures
            n == self@.len(),
    {
        self.entries.len()
    }

    fn index_of(&self, key: &str) -> (r: Option<usize>)
        ensures
            match key_index(self@, key@, 0) {
                Some(i) => r matches Some(j) && j == i,
                None => r is None,
            },
    {
        let mut i: usize = 0;
        while i < self.entries.len()
            invariant
                i <= self.entries@.len(),
                self@.len() == self.entries@.len(),
                key_index(self@, key@, 0) == key_index(self@, key@, i as int),
            decreases self.entries@.len() - i,
        {
            if str_eq(self.entries[i].0.as_str(), key) {
                return Some(i);
            }
            i = i + 1;
        }
        None
    }

    /// Whether `key` has an entry.
    pub fn contains_key(&self, key: &str) -> (b: bool)
        ensures
            b == has_key(self@, key@),
    {
        self.index_of(key).is_some()
    }

    /// The text stored under `key`.
    pub fn get(&self, key: &str) -> (r: Option<String>)
        ensures
            match lookup(self@, key@) {
                Some(t) => r matches Some(x) && x@ == t,
                None => r is None,
            },
    {
        proof {
            lemma_key_index(self@, key@, 0);
        }
        match self.index_of(key) {
            Some(i) => Some(self.entries[i].1.clone()),
            None => None,
        }
    }

    /// A copy of the table.
    pub fn copy(&self) -> (r: TextTable)
        ensures
            r@ == self@,
    {
        let mut entries: Vec<(String, String)> = Vec::new();
        let mut i: usize = 0;
        while i < self.entries.len()
            invariant
                i <= self.entries@.len(),
                entries@.len() == i,
                forall|j: int|
                    0 <= j < i ==> (#[trigger] entries@[j]).0@ == self.entries@[j].0@ && entries@[j].1@
                        == self.entries@[j].1@,
            decreases self.entries@.len() - i,
        {
            entries.push((self.entries[i].0.clone(), self.entries[i].1.clone()));
            i = i + 1;
        }
        let r = TextTable { entries };
        proof {
            assert(r@ =~= self@);
        }
        r
    }

    /// The `i`-th entry.
    pub fn entry(&self, i: usize) -> (r: (String, String))
        requires
            i < self@.len(),
        ensures
            r.0@ == self@[i as int].0,
            r.1@ == self@[i as int].1,
    {
        (self.entries[i].0.clone(), self.entries[i].1.clone())
    }

    /// Stores `value` under `key`, in place of what was there.
    pub fn insert(&mut self, key: String, value: String)
        requires
            old(self).wf(),
        ensures
            final(self).wf(),
            final(self)@ == upsert(old(self)@, key@, value@),
    {
        proof {
            lemma_key_index(self@, key@, 0);
            lemma_upsert_unique(self@, key@, value@);
        }
        let ghost vv = value@;
        match self.index_of(key.as_str()) {
            Some(i) => {
                self.entries.set(i, (key, value));
                proof {
                    assert(self@ =~= upsert(old(self)@, key@, vv));
                }
            },
            None => {
                self.entries.push((key, value));
                proof {
                    assert(self@ =~= upsert(old(self)@, key@, vv));
                }
            },
        }
    }

    /// Removes the entry for `key`; returns the text it held.
    pub fn remove(&mut self, key: &str) -> (r: Option<String>)
        requires
            old(self).wf(),
        ensures
            final(self).wf(),
            final(self)@ == remove_key(old(self)@, key@),
            match lookup(old(self)@, key@) {
                Some(t) => r matches Some(x) && x@ == t,
                None => r is None,
            },
    {
        proof {
            lemma_key_index(self@, key@, 0);
            lemma_remove_unique(self@, key@);
        }
        match self.index_of(key) {
            Some(i) => {
                let e = self.entries.remove(i);
                proof {
                    assert(self@ =~= remove_key(old(self)@, key@));
                }
                Some(e.1)
            },
            None => None,
        }
    }
}

} // verus!
