//! `EnvMap`: a map from environment variable names to values, kept as a
//! vector of distinct keys in insertion order. Its view is the mathematical
//! map from key to value; `insert` on a present key replaces the value in
//! place, as `HashMap::insert` does.
use vstd::prelude::*;

verus! {

broadcast use vstd::seq::group_seq_axioms, vstd::set::group_set_axioms, vstd::map::group_map_axioms;

/// The view of one entry.
pub open spec fn entry_view(p: (String, String)) -> (Seq<char>, Seq<char>) {
    (p.0@, p.1@)
}

/// The views of a vector's entries.
pub open spec fn pairs_view(v: Seq<(String, String)>) -> Seq<(Seq<char>, Seq<char>)> {
    v.map_values(|p: (String, String)| entry_view(p))
}

/// No key occurs twice in `s`.
pub open spec fn keys_unique(s: Seq<(Seq<char>, Seq<char>)>) -> bool {
    forall|i: int, j: int|
        0 <= i < s.len() && 0 <= j < s.len() && i != j ==> #[trigger] s[i].0 != #[trigger] s[j].0
}

/// `k` is the key of some entry of `s`.
pub open spec fn has_key(s: Seq<(Seq<char>, Seq<char>)>, k: Seq<char>) -> bool {
    exists|i: int| 0 <= i < s.len() && #[trigger] s[i].0 == k
}

/// The map that a sequence of entries with distinct keys denotes.
pub open spec fn pairs_to_map(s: Seq<(Seq<char>, Seq<char>)>) -> Map<Seq<char>, Seq<char>> {
    Map::new(
        |k: Seq<char>| has_key(s, k),
        |k: Seq<char>| s[choose|i: int| 0 <= i < s.len() && #[trigger] s[i].0 == k].1,
    )
}

/// The entries of `s` with distinct keys give `pairs_to_map(s)` its values.
pub proof fn lemma_pairs_to_map_at(s: Seq<(Seq<char>, Seq<char>)>, i: int)
    requires
        keys_unique(s),
        0 <= i < s.len(),
    ensures
        pairs_to_map(s).contains_key(s[i].0),
        pairs_to_map(s)[s[i].0] == s[i].1,
{
    let k = s[i].0;
    assert(has_key(s, k));
    let c = choose|j: int| 0 <= j < s.len() && #[trigger] s[j].0 == k;
    assert(c == i);
}

/// Appending an entry with a new key inserts it into the map.
pub proof fn lemma_pairs_to_map_push(s: Seq<(Seq<char>, Seq<char>)>, k: Seq<char>, v: Seq<char>)
    requires
        keys_unique(s),
        !has_key(s, k),
    ensures
        keys_unique(s.push((k, v))),
        pairs_to_map(s.push((k, v))) == pairs_to_map(s).insert(k, v),
{
    let t = s.push((k, v));
    assert forall|i: int, j: int|
        0 <= i < t.len() && 0 <= j < t.len() && i != j implies #[trigger] t[i].0
        != #[trigger] t[j].0 by {
        if i < s.len() && j < s.len() {
            assert(s[i].0 != s[j].0);
        } else if i < s.len() {
            assert(t[i].0 == s[i].0);
        } else {
            assert(t[j].0 == s[j].0);
        }
    }
    assert forall|key: Seq<char>| #[trigger] has_key(t, key) == (has_key(s, key) || key == k) by {
        if has_key(s, key) {
            let i = choose|i: int| 0 <= i < s.len() && #[trigger] s[i].0 == key;
            assert(t[i].0 == key);
        }
        if key == k {
            assert(t[s.len() as int].0 == key);
        }
        if has_key(t, key) && key != k {
            let i = choose|i: int| 0 <= i < t.len() && #[trigger] t[i].0 == key;
            assert(s[i].0 == key);
        }
    }
    assert forall|key: Seq<char>| #[trigger]
        pairs_to_map(t).contains_key(key) implies pairs_to_map(t)[key] == pairs_to_map(s).insert(
        k,
        v,
    )[key] by {
        let i = choose|i: int| 0 <= i < t.len() && #[trigger] t[i].0 == key;
        lemma_pairs_to_map_at(t, i);
        if i < s.len() {
            assert(t[i] == s[i]);
            lemma_pairs_to_map_at(s, i);
        }
    }
    assert(pairs_to_map(t) =~= pairs_to_map(s).insert(k, v));
}

/// Inserting an entry with a new key at any position inserts it into the map.
pub proof fn lemma_pairs_to_map_insert_at(
    s: Seq<(Seq<char>, Seq<char>)>,
    p: int,
    k: Seq<char>,
    v: Seq<char>,
)
    requires
        keys_unique(s),
        !has_key(s, k),
        0 <= p <= s.len(),
    ensures
        keys_unique(s.insert(p, (k, v))),
        pairs_to_map(s.insert(p, (k, v))) == pairs_to_map(s).insert(k, v),
{
    let t = s.insert(p, (k, v));
    assert forall|i: int| 0 <= i < t.len() implies #[trigger] t[i] == (if i < p {
        s[i]
    } else if i == p {
        (k, v)
    } else {
        s[i - 1]
    }) by {}
    assert forall|i: int, j: int|
        0 <= i < t.len() && 0 <= j < t.len() && i != j implies #[trigger] t[i].0
        != #[trigger] t[j].0 by {
        if i != p && j != p {
            let a = if i < p { i } else { i - 1 };
            let b = if j < p { j } else { j - 1 };
            assert(s[a].0 != s[b].0);
        } else if i == p {
            let b = if j < p { j } else { j - 1 };
            assert(s[b].0 != k);
        } else {
            let a = if i < p { i } else { i - 1 };
            assert(s[a].0 != k);
        }
    }
    assert forall|key: Seq<char>| #[trigger] has_key(t, key) == (has_key(s, key) || key == k) by {
        if has_key(s, key) {
            let i = choose|i: int| 0 <= i < s.len() && #[trigger] s[i].0 == key;
            if i < p {
                assert(t[i].0 == key);
            } else {
                assert(t[i + 1].0 == key);
            }
        }
        if key == k {
            assert(t[p].0 == key);
        }
        if has_key(t, key) && key != k {
            let i = choose|i: int| 0 <= i < t.len() && #[trigger] t[i].0 == key;
            if i < p {
                assert(s[i].0 == key);
            } else {
                assert(s[i - 1].0 == key);
            }
        }
    }
    assert forall|key: Seq<char>| #[trigger]
        pairs_to_map(t).contains_key(key) implies pairs_to_map(t)[key] == pairs_to_map(s).insert(
        k,
        v,
    )[key] by {
        let i = choose|i: int| 0 <= i < t.len() && #[trigger] t[i].0 == key;
        lemma_pairs_to_map_at(t, i);
        if i < p {
            lemma_pairs_to_map_at(s, i);
        } else if i > p {
            lemma_pairs_to_map_at(s, i - 1);
        }
    }
    assert(pairs_to_map(t) =~= pairs_to_map(s).insert(k, v));
}

/// Replacing the value of the entry at `i` updates the map at its key.
pub proof fn lemma_pairs_to_map_update(s: Seq<(Seq<char>, Seq<char>)>, i: int, v: Seq<char>)
    requires
        keys_unique(s),
        0 <= i < s.len(),
    ensures
        keys_unique(s.update(i, (s[i].0, v))),
        pairs_to_map(s.update(i, (s[i].0, v))) == pairs_to_map(s).insert(s[i].0, v),
{
    let k = s[i].0;
    let t = s.update(i, (k, v));
    assert forall|a: int, b: int|
        0 <= a < t.len() && 0 <= b < t.len() && a != b implies #[trigger] t[a].0
        != #[trigger] t[b].0 by {
        assert(t[a].0 == s[a].0);
        assert(t[b].0 == s[b].0);
    }
    assert forall|key: Seq<char>| #[trigger] has_key(t, key) == has_key(s, key) by {
        if has_key(s, key) {
            let j = choose|j: int| 0 <= j < s.len() && #[trigger] s[j].0 == key;
            assert(t[j].0 == key);
        }
        if has_key(t, key) {
            let j = choose|j: int| 0 <= j < t.len() && #[trigger] t[j].0 == key;
            assert(s[j].0 == key);
        }
    }
    assert(has_key(s, k)) by {
        assert(s[i].0 == k);
    }
    assert forall|key: Seq<char>| #[trigger]
        pairs_to_map(t).contains_key(key) implies pairs_to_map(t)[key] == pairs_to_map(s).insert(
        k,
        v,
    )[key] by {
        let j = choose|j: int| 0 <= j < t.len() && #[trigger] t[j].0 == key;
        lemma_pairs_to_map_at(t, j);
        if j != i {
            assert(t[j] == s[j]);
            lemma_pairs_to_map_at(s, j);
        }
    }
    assert(pairs_to_map(t) =~= pairs_to_map(s).insert(k, v));
}

/// The map of distinct entries has as many keys as there are entries.
pub proof fn lemma_pairs_to_map_len(s: Seq<(Seq<char>, Seq<char>)>)
    requires
        keys_unique(s),
    ensures
        pairs_to_map(s).dom().finite(),
        pairs_to_map(s).len() == s.len(),
{
    let keys = s.map_values(|p: (Seq<char>, Seq<char>)| p.0);
    assert(keys.no_duplicates()) by {
        assert forall|i: int, j: int|
            0 <= i < keys.len() && 0 <= j < keys.len() && i != j implies keys[i] != keys[j] by {
            assert(s[i].0 != s[j].0);
        }
    }
    assert forall|k: Seq<char>| #[trigger] keys.contains(k) == has_key(s, k) by {
        if keys.contains(k) {
            let i = choose|i: int| 0 <= i < keys.len() && keys[i] == k;
            assert(s[i].0 == k);
        }
        if has_key(s, k) {
            let i = choose|i: int| 0 <= i < s.len() && #[trigger] s[i].0 == k;
            assert(keys[i] == k);
        }
    }
    assert(pairs_to_map(s).dom() =~= keys.to_set());
    keys.unique_seq_to_set();
    vstd::seq_lib::seq_to_set_is_finite(keys);
}

/// Environment variables, by name.
pub struct EnvMap {
    entries: Vec<(String, String)>,
}

impl View for EnvMap {
    type V = Map<Seq<char>, Seq<char>>;

    open spec fn view(&self) -> Map<Seq<char>, Seq<char>> {
        pairs_to_map(self.pairs())
    }
}

impl EnvMap {
    /// The entries, in insertion order.
    pub closed spec fn pairs(&self) -> Seq<(Seq<char>, Seq<char>)> {
        pairs_view(self.entries@)
    }

    /// No key occurs twice.
    pub open spec fn wf(&self) -> bool {
        keys_unique(self.pairs())
    }

    /// An empty map.
    pub fn new() -> (r: EnvMap)
        ensures
            r.wf(),
            r@ == Map::<Seq<char>, Seq<char>>::empty(),
    {
        let r = EnvMap { entries: Vec::new() };
        assert(r.pairs() =~= Seq::<(Seq<char>, Seq<char>)>::empty());
        assert(r@ =~= Map::<Seq<char>, Seq<char>>::empty());
        r
    }

    /// The entries, in insertion order.
    pub fn entries(&self) -> (r: &Vec<(String, String)>)
        ensures
            pairs_view(r@) == self.pairs(),
    {
        &self.entries
    }

    /// The number of keys.
    pub fn len(&self) -> (r: usize)
        requires
            self.wf(),
        ensures
            r == self@.len(),
    {
        proof {
            lemma_pairs_to_map_len(self.pairs());
        }
        self.entries.len()
    }

    fn position(&self, key: &String) -> (r: Option<usize>)
        requires
            self.wf(),
        ensures
            r matches Some(i) ==> i < self.pairs().len() && self.pairs()[i as int].0 == key@,
            r is None ==> !has_key(self.pairs(), key@),
    {
        let n = self.entries.len();
        let mut i: usize = 0;
        while i < n
            invariant
                n == self.entries@.len(),
                self.pairs().len() == n,
                i <= n,
                forall|j: int| 0 <= j < i ==> self.pairs()[j].0 != key@,
            decreases n - i,
        {
            if self.entries[i].0.eq(key) {
                return Some(i);
            }
            i = i + 1;
        }
        proof {
            if has_key(self.pairs(), key@) {
                let j = choose|j: int| 0 <= j < self.pairs().len() && #[trigger] self.pairs()[j].0 == key@;
                assert(self.pairs()[j].0 != key@);
            }
        }
        None
    }

    /// The value of `key`, if present.
    pub fn get(&self, key: &str) -> (r: Option<&String>)
        requires
            self.wf(),
        ensures
            r matches Some(v) ==> self@.contains_key(key@) && v@ == self@[key@],
            r is None ==> !self@.contains_key(key@),
    {
        let k = key.to_owned();
        match self.position(&k) {
            Some(i) => {
                proof {
                    lemma_pairs_to_map_at(self.pairs(), i as int);
                }
                Some(&self.entries[i].1)
            },
            None => None,
        }
    }

    /// Whether `key` is present.
    pub fn contains_key(&self, key: &str) -> (r: bool)
        requires
            self.wf(),
        ensures
            r == self@.contains_key(key@),
    {
        let k = key.to_owned();
        match self.position(&k) {
            Some(i) => {
                proof {
                    lemma_pairs_to_map_at(self.pairs(), i as int);
                }
                true
            },
            None => false,
        }
    }

    /// Sets `key` to `value`, replacing any earlier value in place.
    pub fn insert(&mut self, key: String, value: String)
        requires
            old(self).wf(),
        ensures
            final(self).wf(),
            final(self)@ == old(self)@.insert(key@, value@),
    {
        match self.position(&key) {
            Some(i) => {
                let ghost s = self.pairs();
                self.entries.set(i, (key, value));
                proof {
                    assert(self.pairs() =~= s.update(i as int, (s[i as int].0, value@)));
                    lemma_pairs_to_map_update(s, i as int, value@);
                }
            },
            None => {
                let ghost s = self.pairs();
                let ghost kv = (key@, value@);
                self.entries.push((key, value));
                proof {
                    assert(self.pairs() =~= s.push(kv));
                    lemma_pairs_to_map_push(s, kv.0, kv.1);
                }
            },
        }
    }

    /// A copy with the same entries in the same order.
    pub fn duplicate(&self) -> (r: EnvMap)
        ensures
            r.pairs() == self.pairs(),
            r@ == self@,
    {
        let n = self.entries.len();
        let mut entries: Vec<(String, String)> = Vec::new();
        let mut i: usize = 0;
        while i < n
            invariant
                n == self.entries@.len(),
                i <= n,
                entries@.len() == i,
                forall|j: int| 0 <= j < i ==> #[trigger] entry_view(entries@[j]) == entry_view(self.entries@[j]),
            decreases n - i,
        {
            let k = self.entries[i].0.clone();
            let v = self.entries[i].1.clone();
            entries.push((k, v));
            i = i + 1;
        }
        let r = EnvMap { entries };
        assert(r.pairs() =~= self.pairs());
        r
    }
}

} // verus!
