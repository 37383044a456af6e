//! The clients that are logged in, by id.

use vstd::prelude::*;

verus! {

/// The logged-in clients, each under the id it announced. Registering an id
/// that is already there replaces its client.
pub struct Registry<V> {
    entries: Vec<(String, V)>,
}

/// No id occurs twice in `s`.
pub open spec fn keys_unique<V>(s: Seq<(String, V)>) -> bool {
    forall|i: int, j: int| 0 <= i < j < s.len() ==> #[trigger] s[i].0@ != #[trigger] s[j].0@
}

/// Some entry of `s` has the id `k`.
pub open spec fn has_key<V>(s: Seq<(String, V)>, k: Seq<char>) -> bool {
    exists|i: int| 0 <= i < s.len() && #[trigger] s[i].0@ == k
}

/// The position of an entry of `s` with the id `k`.
pub open spec fn index_of<V>(s: Seq<(String, V)>, k: Seq<char>) -> int {
    choose|i: int| 0 <= i < s.len() && #[trigger] s[i].0@ == k
}

/// The map from ids to clients that `s` holds.
pub open spec fn entries_map<V>(s: Seq<(String, V)>) -> Map<Seq<char>, V> {
    Map::new(|k: Seq<char>| has_key(s, k), |k: Seq<char>| s[index_of(s, k)].1)
}

proof fn lemma_index_of<V>(s: Seq<(String, V)>, k: Seq<char>, i: int)
    requires
        keys_unique(s),
        0 <= i < s.len(),
        s[i].0@ == k,
    ensures
        index_of(s, k) == i,
{
    let j = index_of(s, k);
    assert(0 <= j < s.len() && s[j].0@ == k);
    if j < i {
        assert(s[j].0@ != s[i].0@);
    } else if i < j {
        assert(s[i].0@ != s[j].0@);
    }
}

proof fn lemma_push_new_key<V>(s: Seq<(String, V)>, e: (String, V))
    requires
        keys_unique(s),
        !has_key(s, e.0@),
    ensures
        keys_unique(s.push(e)),
        entries_map(s.push(e)) =~= entries_map(s).insert(e.0@, e.1),
{
    let t = s.push(e);
    assert forall|i: int, j: int| 0 <= i < j < t.len() implies #[trigger] t[i].0@ != #[trigger] t[j].0@ by {
        if j == s.len() {
            assert(t[i] == s[i]);
        } else {
            assert(t[i] == s[i] && t[j] == s[j]);
        }
    }
    lemma_index_of(t, e.0@, s.len() as int);
    assert forall|k: Seq<char>| #[trigger] has_key(t, k) == (has_key(s, k) || k == e.0@) by {
        if has_key(s, k) {
            let i = index_of(s, k);
            assert(t[i] == s[i]);
        }
        if has_key(t, k) && k != e.0@ {
            let i = index_of(t, k);
            assert(i < s.len());
            assert(s[i] == t[i]);
        }
    }
    assert forall|k: Seq<char>| has_key(s, k) && k != e.0@ implies #[trigger] t[index_of(t, k)].1
        == s[index_of(s, k)].1 by {
        let i = index_of(s, k);
        assert(t[i] == s[i]);
        lemma_index_of(t, k, i);
    }
}

proof fn lemma_remove_at<V>(s: Seq<(String, V)>, i: int)
    requires
        keys_unique(s),
        0 <= i < s.len(),
    ensures
        keys_unique(s.remove(i)),
        !has_key(s.remove(i), s[i].0@),
        entries_map(s.remove(i)) =~= entries_map(s).remove(s[i].0@),
{
    let t = s.remove(i);
    let key = s[i].0@;
    assert forall|a: int, b: int| 0 <= a < b < t.len() implies #[trigger] t[a].0@ != #[trigger] t[b].0@ by {
        let sa = if a < i { a } else { a + 1 };
        let sb = if b < i { b } else { b + 1 };
        assert(t[a] == s[sa] && t[b] == s[sb]);
    }
    assert forall|j: int| 0 <= j < t.len() implies #[trigger] t[j].0@ != key by {
        let sj = if j < i { j } else { j + 1 };
        assert(t[j] == s[sj]);
    }
    assert forall|k: Seq<char>| #[trigger] has_key(t, k) == (has_key(s, k) && k != key) by {
        if has_key(t, k) {
            let j = index_of(t, k);
            let sj = if j < i { j } else { j + 1 };
            assert(t[j] == s[sj]);
        }
        if has_key(s, k) && k != key {
            let j = index_of(s, k);
            assert(j != i);
            let tj = if j < i { j } else { j - 1 };
            assert(t[tj] == s[j]);
        }
    }
    assert forall|k: Seq<char>| has_key(t, k) implies #[trigger] t[index_of(t, k)].1 == s[index_of(
        s,
        k,
    )].1 by {
        let j = index_of(t, k);
        let sj = if j < i { j } else { j + 1 };
        assert(t[j] == s[sj]);
        lemma_index_of(s, k, sj);
    }
}

impl<V> View for Registry<V> {
    type V = Map<Seq<char>, V>;

    closed spec fn view(&self) -> Map<Seq<char>, V> {
        entries_map(self.entries@)
    }
}

impl<V> Registry<V> {
    #[verifier::type_invariant]
    spec fn well_formed(&self) -> bool {
        keys_unique(self.entries@)
    }

    /// An empty registry.
    pub fn new() -> (r: Registry<V>)
        ensures
            r@ == Map::<Seq<char>, V>::empty(),
    {
        let r = Registry { entries: Vec::new() };
        assert(r@ =~= Map::<Seq<char>, V>::empty());
        r
    }

    fn find(&self, id: &String) -> (r: Option<usize>)
        ensures
            r matches Some(i) ==> i < self.entries@.len() && self.entries@[i as int].0@ == id@,
            r is None ==> !has_key(self.entries@, id@),
    {
        let n = self.entries.len();
        let mut i: usize = 0;
        while i < n
            invariant
                n == self.entries@.len(),
                i <= n,
                forall|j: int| 0 <= j < i ==> #[trigger] self.entries@[j].0@ != id@,
            decreases n - i,
        {
            if self.entries[i].0 == *id {
                return Some(i);
            }
            i = i + 1;
        }
        None
    }

    /// Whether a client is registered under `id`.
    pub fn contains(&self, id: &String) -> (r: bool)
        ensures
            r == self@.contains_key(id@),
    {
        self.find(id).is_some()
    }

    /// The client registered under `id`.
    pub fn get(&self, id: &String) -> (r: Option<&V>)
        ensures
            r matches Some(v) ==> self@.contains_key(id@) && *v == self@[id@],
            r is None ==> !self@.contains_key(id@),
    {
        proof {
            use_type_invariant(self);
        }
        match self.find(id) {
            Some(i) => {
                proof {
                    lemma_index_of(self.entries@, id@, i as int);
                }
                Some(&self.entries[i].1)
            },
            None => None,
        }
    }

    /// Registers `value` under `id`, giving back the client it replaces.
    pub fn insert(&mut self, id: String, value: V) -> (r: Option<V>)
        ensures
            final(self)@ == old(self)@.insert(id@, value),
            r matches Some(v) ==> old(self)@.contains_key(id@) && v == old(self)@[id@],
            r is None ==> !old(self)@.contains_key(id@),
    {
        proof {
            use_type_invariant(&*self);
        }
        let found = self.find(&id);
        let mut entries: Vec<(String, V)> = Vec::new();
        std::mem::swap(&mut entries, &mut self.entries);
        let ghost before = entries@;
        let replaced = match found {
            Some(i) => {
                proof {
                    lemma_index_of(before, id@, i as int);
                    lemma_remove_at(before, i as int);
                }
                let old_entry = entries.remove(i);
                Some(old_entry.1)
            },
            None => None,
        };
        proof {
            lemma_push_new_key(entries@, (id, value));
            assert(entries_map(before).remove(id@).insert(id@, value) =~= entries_map(before).insert(
                id@,
                value,
            ));
        }
        entries.push((id, value));
        self.entries = entries;
        replaced
    }

    /// Removes the client registered under `id`, giving it back.
    pub fn remove(&mut self, id: &String) -> (r: Option<V>)
        ensures
            final(self)@ == old(self)@.remove(id@),
            r matches Some(v) ==> old(self)@.contains_key(id@) && v == old(self)@[id@],
            r is None ==> !old(self)@.contains_key(id@),
    {
        proof {
            use_type_invariant(&*self);
        }
        match self.find(id) {
            Some(i) => {
                let mut entries: Vec<(String, V)> = Vec::new();
                std::mem::swap(&mut entries, &mut self.entries);
                proof {
                    lemma_index_of(entries@, id@, i as int);
                    lemma_remove_at(entries@, i as int);
                }
                let entry = entries.remove(i);
                self.entries = entries;
                Some(entry.1)
            },
            None => {
                assert(old(self)@.remove(id@) =~= old(self)@);
                None
            },
        }
    }
}

/// What a registration writes, a lookup reads: after registering `v` under
/// `k`, `k` gives `v` and every other id gives what it gave before; after
/// removing `k`, `k` gives nothing.
pub proof fn law_registry_read_after_write<V>(m: Map<Seq<char>, V>, k: Seq<char>, other: Seq<char>, v: V)
    requires
        other != k,
    ensures
        m.insert(k, v).contains_key(k) && m.insert(k, v)[k] == v,
        m.insert(k, v).contains_key(other) == m.contains_key(other),
        m.contains_key(other) ==> m.insert(k, v)[other] == m[other],
        !m.remove(k).contains_key(k),
        m.remove(k).contains_key(other) == m.contains_key(other),
{
}

} // verus!
