//! A small map from slugs to values, kept as a vector of distinct keys.
use vstd::prelude::*;

verus! {

/// No two entries of `s` share a key.
pub open spec fn keys_distinct<V>(s: Seq<(String, V)>) -> bool {
    forall|i: int, j: int| 0 <= i < s.len() && 0 <= j < s.len() && i != j ==> s[i].0@ != s[j].0@
}

/// The keys of `s` mapped to their values.
pub open spec fn entries_map<V>(s: Seq<(String, V)>) -> Map<Seq<char>, V> {
    Map::new(
        |k: Seq<char>| exists|i: int| 0 <= i < s.len() && #[trigger] s[i].0@ == k,
        |k: Seq<char>| s[choose|i: int| 0 <= i < s.len() && #[trigger] s[i].0@ == k].1,
    )
}

/// Values keyed by slug.
pub struct SlugMap<V> {
    entries: Vec<(String, V)>,
}

impl<V> View for SlugMap<V> {
    type V = Map<Seq<char>, V>;

    closed spec fn view(&self) -> Map<Seq<char>, V> {
        entries_map(self.entries@)
    }
}

proof fn lemma_entries_map_at<V>(s: Seq<(String, V)>, i: int)
    requires
        keys_distinct(s),
        0 <= i < s.len(),
    ensures
        entries_map(s).contains_key(s[i].0@),
        entries_map(s)[s[i].0@] == s[i].1,
{
    let k = s[i].0@;
    assert(entries_map(s).contains_key(k));
    let j = choose|j: int| 0 <= j < s.len() && #[trigger] s[j].0@ == k;
    assert(j == i);
}

proof fn lemma_entries_map_remove<V>(s: Seq<(String, V)>, i: int)
    requires
        keys_distinct(s),
        0 <= i < s.len(),
    ensures
        keys_distinct(s.remove(i)),
        entries_map(s.remove(i)) =~= entries_map(s).remove(s[i].0@),
{
    let t = s.remove(i);
    let k = s[i].0@;
    assert forall|a: int, b: int| 0 <= a < t.len() && 0 <= b < t.len() && a != b implies t[a].0@
        != t[b].0@ by {
        let a2 = if a < i { a } else { a + 1 };
        let b2 = if b < i { b } else { b + 1 };
        assert(t[a] == s[a2]);
        assert(t[b] == s[b2]);
    }
    assert forall|key: Seq<char>| #[trigger] entries_map(t).contains_key(key) <==> entries_map(
        s,
    ).remove(k).contains_key(key) by {
        if entries_map(t).contains_key(key) {
            let a = choose|a: int| 0 <= a < t.len() && #[trigger] t[a].0@ == key;
            let a2 = if a < i { a } else { a + 1 };
            assert(t[a] == s[a2]);
        }
        if entries_map(s).remove(k).contains_key(key) {
            let a = choose|a: int| 0 <= a < s.len() && #[trigger] s[a].0@ == key;
            assert(a != i);
            let a2 = if a < i { a } else { a - 1 };
            assert(t[a2] == s[a]);
        }
    }
    assert forall|key: Seq<char>| #[trigger] entries_map(t).contains_key(key) implies entries_map(
        t,
    )[key] == entries_map(s)[key] by {
        let a = choose|a: int| 0 <= a < t.len() && #[trigger] t[a].0@ == key;
        let a2 = if a < i { a } else { a + 1 };
        assert(t[a] == s[a2]);
        lemma_entries_map_at(t, a);
        lemma_entries_map_at(s, a2);
    }
}

proof fn lemma_entries_map_push<V>(s: Seq<(String, V)>, e: (String, V))
    requires
        keys_distinct(s),
        !entries_map(s).contains_key(e.0@),
    ensures
        keys_distinct(s.push(e)),
        entries_map(s.push(e)) =~= entries_map(s).insert(e.0@, e.1),
{
    let t = s.push(e);
    assert forall|a: int, b: int| 0 <= a < t.len() && 0 <= b < t.len() && a != b implies t[a].0@
        != t[b].0@ by {
        if a < s.len() && b < s.len() {
            assert(t[a] == s[a] && t[b] == s[b]);
        } else if a < s.len() {
            assert(t[a] == s[a]);
            assert(entries_map(s).contains_key(s[a].0@));
        } else {
            assert(t[b] == s[b]);
            assert(entries_map(s).contains_key(s[b].0@));
        }
    }
    assert forall|key: Seq<char>| #[trigger] entries_map(t).contains_key(key) <==> entries_map(
        s,
    ).insert(e.0@, e.1).contains_key(key) by {
        if entries_map(t).contains_key(key) {
            let a = choose|a: int| 0 <= a < t.len() && #[trigger] t[a].0@ == key;
            if a < s.len() {
                assert(t[a] == s[a]);
            }
        }
        if entries_map(s).contains_key(key) {
            let a = choose|a: int| 0 <= a < s.len() && #[trigger] s[a].0@ == key;
            assert(t[a] == s[a]);
        }
        if key == e.0@ {
            assert(t[s.len() as int] == e);
        }
    }
    assert forall|key: Seq<char>| #[trigger] entries_map(t).contains_key(key) implies entries_map(
        t,
    )[key] == entries_map(s).insert(e.0@, e.1)[key] by {
        let a = choose|a: int| 0 <= a < t.len() && #[trigger] t[a].0@ == key;
        lemma_entries_map_at(t, a);
        if a < s.len() {
            assert(t[a] == s[a]);
            lemma_entries_map_at(s, a);
        } else {
            assert(t[a] == e);
        }
    }
}

proof fn lemma_entries_map_update<V>(s: Seq<(String, V)>, i: int, e: (String, V))
    requires
        keys_distinct(s),
        0 <= i < s.len(),
        s[i].0@ == e.0@,
    ensures
        keys_distinct(s.update(i, e)),
        entries_map(s.update(i, e)) =~= entries_map(s).insert(e.0@, e.1),
{
    let t = s.update(i, e);
    assert forall|a: int, b: int| 0 <= a < t.len() && 0 <= b < t.len() && a != b implies t[a].0@
        != t[b].0@ by {
        assert(t[a].0@ == s[a].0@);
        assert(t[b].0@ == s[b].0@);
    }
    assert forall|key: Seq<char>| #[trigger] entries_map(t).contains_key(key) <==> entries_map(
        s,
    ).insert(e.0@, e.1).contains_key(key) by {
        if entries_map(t).contains_key(key) {
            let a = choose|a: int| 0 <= a < t.len() && #[trigger] t[a].0@ == key;
            assert(s[a].0@ == key);
        }
        if entries_map(s).contains_key(key) {
            let a = choose|a: int| 0 <= a < s.len() && #[trigger] s[a].0@ == key;
            assert(t[a].0@ == key);
        }
        if key == e.0@ {
            assert(t[i].0@ == key);
        }
    }
    assert forall|key: Seq<char>| #[trigger] entries_map(t).contains_key(key) implies entries_map(
        t,
    )[key] == entries_map(s).insert(e.0@, e.1)[key] by {
        let a = choose|a: int| 0 <= a < t.len() && #[trigger] t[a].0@ == key;
        lemma_entries_map_at(t, a);
        if a != i {
            assert(t[a] == s[a]);
            lemma_entries_map_at(s, a);
        }
    }
}

impl<V> SlugMap<V> {
    #[verifier::type_invariant]
    spec fn inv(self) -> bool {
        keys_distinct(self.entries@)
    }

    /// An empty map.
    pub fn new() -> (r: SlugMap<V>)
        ensures
            r@ == Map::<Seq<char>, V>::empty(),
    {
        let r = SlugMap { entries: Vec::new() };
        assert(r@ =~= Map::<Seq<char>, V>::empty());
        r
    }

    fn position(&self, key: &str) -> (r: Option<usize>)
        ensures
            match r {
                Some(i) => i < self.entries@.len() && self.entries@[i as int].0@ == key@,
                None => !self@.contains_key(key@),
            },
    {
        let k: String = key.to_owned();
        let mut i: usize = 0;
        while i < self.entries.len()
            invariant
                k@ == key@,
                i <= self.entries@.len(),
                forall|j: int| 0 <= j < i ==> #[trigger] self.entries@[j].0@ != key@,
            decreases self.entries@.len() - i,
        {
            if self.entries[i].0 == k {
                return Some(i);
            }
            i = i + 1;
        }
        None
    }

    /// The value under `key`, if any.
    pub fn get(&self, key: &str) -> (r: Option<&V>)
        ensures
            match r {
                Some(v) => self@.contains_key(key@) && *v == self@[key@],
                None => !self@.contains_key(key@),
            },
    {
        proof {
            use_type_invariant(self);
        }
        match self.position(key) {
            Some(i) => {
                proof {
                    lemma_entries_map_at(self.entries@, i as int);
                }
                Some(&self.entries[i].1)
            },
            None => None,
        }
    }

    /// Takes the value under `key` out of the map.
    pub fn remove(&mut self, key: &str) -> (r: Option<V>)
        ensures
            final(self)@ == old(self)@.remove(key@),
            match r {
                Some(v) => old(self)@.contains_key(key@) && v == old(self)@[key@],
                None => !old(self)@.contains_key(key@),
            },
    {
        proof {
            use_type_invariant(&*self);
        }
        match self.position(key) {
            Some(i) => {
                proof {
                    lemma_entries_map_at(self.entries@, i as int);
                    lemma_entries_map_remove(self.entries@, i as int);
                }
                let mut v: Vec<(String, V)> = Vec::new();
                std::mem::swap(&mut v, &mut self.entries);
                let (_, value) = v.remove(i);
                self.entries = v;
                Some(value)
            },
            None => {
                assert(old(self)@.remove(key@) =~= old(self)@);
                None
            },
        }
    }

    /// The entries of the map, each key once.
    pub fn entries(&self) -> (r: &Vec<(String, V)>)
        ensures
            keys_distinct(r@),
            entries_map(r@) == self@,
            forall|i: int| 0 <= i < r@.len() ==> self@.contains_key(#[trigger] r@[i].0@) && self@[r@[i].0@]
                == r@[i].1,
    {
        proof {
            use_type_invariant(self);
            assert forall|i: int| 0 <= i < self.entries@.len() implies self@.contains_key(
                #[trigger] self.entries@[i].0@,
            ) && self@[self.entries@[i].0@] == self.entries@[i].1 by {
                lemma_entries_map_at(self.entries@, i);
            }
        }
        &self.entries
    }

    /// Puts `value` under `key`, which holds no value yet.
    pub fn insert_new(&mut self, key: String, value: V)
        requires
            !old(self)@.contains_key(key@),
        ensures
            final(self)@ == old(self)@.insert(key@, value),
    {
        proof {
            use_type_invariant(&*self);
            lemma_entries_map_push(self.entries@, (key, value));
        }
        let mut v: Vec<(String, V)> = Vec::new();
        std::mem::swap(&mut v, &mut self.entries);
        v.push((key, value));
        self.entries = v;
    }

    /// Puts `value` under `key`, replacing any value there.
    pub fn insert(&mut self, key: String, value: V)
        ensures
            final(self)@ == old(self)@.insert(key@, value),
    {
        proof {
            use_type_invariant(&*self);
        }
        match self.position(key.as_str()) {
            Some(i) => {
                proof {
                    lemma_entries_map_update(self.entries@, i as int, (key, value));
                }
                let mut v: Vec<(String, V)> = Vec::new();
                std::mem::swap(&mut v, &mut self.entries);
                v.set(i, (key, value));
                self.entries = v;
            },
            None => {
                proof {
                    lemma_entries_map_push(self.entries@, (key, value));
                }
                let mut v: Vec<(String, V)> = Vec::new();
                std::mem::swap(&mut v, &mut self.entries);
                v.push((key, value));
                self.entries = v;
            },
        }
    }
}

} // verus!
