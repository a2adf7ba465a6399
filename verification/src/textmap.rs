//! A finite map keyed by text, kept as a list of entries with distinct keys.
//! It holds Kubernetes labels and annotations, environment variables and the
//! hub's table of sessions.
use vstd::prelude::*;
use vstd::string::*;
use crate::text::same_text;

verus! {

/// The map that a list of entries denotes, later entries overriding earlier.
pub open spec fn entries_map<V>(s: Seq<(String, V)>) -> Map<Seq<char>, V>
    decreases s.len(),
{
    if s.len() == 0 {
        Map::empty()
    } else {
        entries_map(s.drop_last()).insert(s.last().0@, s.last().1)
    }
}

/// No key occurs twice.
pub open spec fn distinct_keys<V>(s: Seq<(String, V)>) -> bool {
    forall|i: int, j: int| 0 <= i < j < s.len() ==> #[trigger] s[i].0@ != #[trigger] s[j].0@
}

proof fn lemma_entries_map_char<V>(s: Seq<(String, V)>)
    requires
        distinct_keys(s),
    ensures
        forall|i: int|
            0 <= i < s.len() ==> #[trigger] entries_map(s).contains_key(s[i].0@) && entries_map(
                s,
            )[s[i].0@] == s[i].1,
        forall|q: Seq<char>|
            #[trigger] entries_map(s).contains_key(q) ==> exists|j: int|
                0 <= j < s.len() && #[trigger] s[j].0@ == q,
        entries_map(s).dom().finite(),
        entries_map(s).len() == s.len(),
    decreases s.len(),
{
    if s.len() > 0 {
        let t = s.drop_last();
        assert forall|i: int, j: int| 0 <= i < j < t.len() implies #[trigger] t[i].0@
            != #[trigger] t[j].0@ by {
            assert(t[i] == s[i] && t[j] == s[j]);
        }
        lemma_entries_map_char(t);
        let last = s.last();
        assert(!entries_map(t).contains_key(last.0@)) by {
            if entries_map(t).contains_key(last.0@) {
                let j = choose|j: int| 0 <= j < t.len() && #[trigger] t[j].0@ == last.0@;
                assert(s[j].0@ == s[s.len() - 1].0@);
            }
        }
        assert forall|i: int| 0 <= i < s.len() implies #[trigger] entries_map(s).contains_key(
            s[i].0@,
        ) && entries_map(s)[s[i].0@] == s[i].1 by {
            if i < s.len() - 1 {
                assert(s[i] == t[i]);
                assert(s[i].0@ != s[s.len() - 1].0@);
            }
        }
        assert forall|q: Seq<char>| #[trigger] entries_map(s).contains_key(q) implies exists|
            j: int,
        | 0 <= j < s.len() && #[trigger] s[j].0@ == q by {
            if q != last.0@ {
                let j = choose|j: int| 0 <= j < t.len() && #[trigger] t[j].0@ == q;
                assert(s[j] == t[j]);
            } else {
                assert(s[s.len() - 1].0@ == q);
            }
        }
    }
}

/// A map from text keys to values of type `V`.
pub struct TextMap<V> {
    entries: Vec<(String, V)>,
}

impl<V> View for TextMap<V> {
    type V = Map<Seq<char>, V>;

    closed spec fn view(&self) -> Map<Seq<char>, V> {
        entries_map(self.entries@)
    }
}

impl<V> TextMap<V> {
    #[verifier::type_invariant]
    closed spec fn keys_are_distinct(self) -> bool {
        distinct_keys(self.entries@)
    }

    /// The empty map.
    pub fn new() -> (m: Self)
        ensures
            m@ == Map::<Seq<char>, V>::empty(),
    {
        TextMap { entries: Vec::new() }
    }

    /// The number of keys.
    pub fn len(&self) -> (n: usize)
        ensures
            n == self@.len(),
            self@.dom().finite(),
    {
        proof {
            use_type_invariant(self);
            lemma_entries_map_char(self.entries@);
        }
        self.entries.len()
    }

    /// Whether no key is present.
    pub fn is_empty(&self) -> (b: bool)
        ensures
            b == (self@.len() == 0),
    {
        self.len() == 0
    }

    /// The position of `key` among the entries, if present.
    fn find(&self, key: &str) -> (r: Option<usize>)
        ensures
            match r {
                Some(i) => i < self.entries@.len() && self.entries@[i as int].0@ == key@,
                None => !self@.contains_key(key@),
            },
    {
        proof {
            use_type_invariant(self);
            lemma_entries_map_char(self.entries@);
        }
        let n: usize = self.entries.len();
        let mut i: usize = 0;
        while i < n
            invariant
                i <= n,
                n == self.entries@.len(),
                forall|j: int| 0 <= j < i ==> #[trigger] self.entries@[j].0@ != key@,
            decreases n - i,
        {
            if same_text(self.entries[i].0.as_str(), key) {
                return Some(i);
            }
            i = i + 1;
        }
        proof {
            if self@.contains_key(key@) {
                let j = choose|j: int|
                    0 <= j < self.entries@.len() && #[trigger] self.entries@[j].0@ == key@;
                assert(self.entries@[j].0@ != key@);
            }
        }
        None
    }

    /// Whether `key` is present.
    pub fn contains_key(&self, key: &str) -> (b: bool)
        ensures
            b == self@.contains_key(key@),
    {
        proof {
            use_type_invariant(self);
            lemma_entries_map_char(self.entries@);
        }
        match self.find(key) {
            Some(_) => true,
            None => false,
        }
    }

    /// The value stored under `key`.
    pub fn get(&self, key: &str) -> (r: Option<&V>)
        ensures
            match r {
                Some(v) => self@.contains_key(key@) && self@[key@] == *v,
                None => !self@.contains_key(key@),
            },
    {
        proof {
            use_type_invariant(self);
            lemma_entries_map_char(self.entries@);
        }
        match self.find(key) {
            Some(i) => {
                proof {
                    assert(entries_map(self.entries@).contains_key(self.entries@[i as int].0@));
                }
                Some(&self.entries[i].1)
            },
            None => None,
        }
    }

    /// Stores `value` under `key`, replacing any earlier value.
    pub fn insert(&mut self, key: String, value: V)
        ensures
            final(self)@ == old(self)@.insert(key@, value),
    {
        proof {
            use_type_invariant(&*self);
            lemma_entries_map_char(self.entries@);
        }
        let ghost old_entries = self.entries@;
        match self.find(key.as_str()) {
            Some(i) => {
                let ghost new_entries = old_entries.update(i as int, (key, value));
                proof {
                    assert forall|a: int, b: int| 0 <= a < b < new_entries.len() implies #[trigger] new_entries[a].0@
                        != #[trigger] new_entries[b].0@ by {
                        assert(old_entries[a].0@ != old_entries[b].0@);
                    }
                    lemma_entries_map_char(new_entries);
                    let m0 = entries_map(old_entries);
                    let m1 = entries_map(new_entries);
                    assert forall|q: Seq<char>| #[trigger] m1.contains_key(q) == m0.insert(key@, value).contains_key(q) by {
                        if m1.contains_key(q) {
                            let j = choose|j: int| 0 <= j < new_entries.len() && #[trigger] new_entries[j].0@ == q;
                            if j != i {
                                assert(old_entries[j].0@ == q);
                            }
                        }
                        if m0.contains_key(q) {
                            let j = choose|j: int| 0 <= j < old_entries.len() && #[trigger] old_entries[j].0@ == q;
                            assert(new_entries[j].0@ == q);
                        }
                    }
                    assert forall|q: Seq<char>| #[trigger] m1.contains_key(q) implies m1[q] == m0.insert(key@, value)[q] by {
                        let j = choose|j: int| 0 <= j < new_entries.len() && #[trigger] new_entries[j].0@ == q;
                        if j != i {
                            assert(old_entries[j].0@ == q);
                            assert(new_entries[j] == old_entries[j]);
                        }
                    }
                    assert(m1 =~= m0.insert(key@, value));
                }
                let mut entries: Vec<(String, V)> = Vec::new();
                std::mem::swap(&mut entries, &mut self.entries);
                entries.set(i, (key, value));
                self.entries = entries;
            },
            None => {
                let ghost new_entries = old_entries.push((key, value));
                proof {
                    assert forall|a: int, b: int| 0 <= a < b < new_entries.len() implies #[trigger] new_entries[a].0@
                        != #[trigger] new_entries[b].0@ by {
                        if b == old_entries.len() {
                            assert(entries_map(old_entries).contains_key(old_entries[a].0@));
                        } else {
                            assert(old_entries[a].0@ != old_entries[b].0@);
                        }
                    }
                    assert(new_entries.drop_last() =~= old_entries);
                }
                let mut entries: Vec<(String, V)> = Vec::new();
                std::mem::swap(&mut entries, &mut self.entries);
                entries.push((key, value));
                self.entries = entries;
            },
        }
    }

    /// Removes `key` and its value, if present.
    pub fn remove(&mut self, key: &str)
        ensures
            final(self)@ == old(self)@.remove(key@),
    {
        let _ = self.take(key);
    }

    /// Removes `key` and hands back its value, if present.
    pub fn take(&mut self, key: &str) -> (r: Option<V>)
        ensures
            final(self)@ == old(self)@.remove(key@),
            match r {
                Some(v) => old(self)@.contains_key(key@) && old(self)@[key@] == v,
                None => !old(self)@.contains_key(key@),
            },
    {
        proof {
            use_type_invariant(&*self);
            lemma_entries_map_char(self.entries@);
        }
        let ghost old_entries = self.entries@;
        match self.find(key) {
            Some(i) => {
                let ghost new_entries = old_entries.remove(i as int);
                proof {
                    assert forall|a: int, b: int| 0 <= a < b < new_entries.len() implies #[trigger] new_entries[a].0@
                        != #[trigger] new_entries[b].0@ by {
                        let a0 = if a < i { a } else { a + 1 };
                        let b0 = if b < i { b } else { b + 1 };
                        assert(new_entries[a] == old_entries[a0]);
                        assert(new_entries[b] == old_entries[b0]);
                        assert(old_entries[a0].0@ != old_entries[b0].0@);
                    }
                    lemma_entries_map_char(new_entries);
                    let m0 = entries_map(old_entries);
                    let m1 = entries_map(new_entries);
                    assert forall|q: Seq<char>| #[trigger] m1.contains_key(q) == m0.remove(key@).contains_key(q) by {
                        if m1.contains_key(q) {
                            let j = choose|j: int| 0 <= j < new_entries.len() && #[trigger] new_entries[j].0@ == q;
                            let j0 = if j < i { j } else { j + 1 };
                            assert(new_entries[j] == old_entries[j0]);
                            assert(old_entries[j0].0@ != old_entries[i as int].0@);
                        }
                        if m0.contains_key(q) && q != key@ {
                            let j = choose|j: int| 0 <= j < old_entries.len() && #[trigger] old_entries[j].0@ == q;
                            if j < i {
                                assert(new_entries[j] == old_entries[j]);
                            } else {
                                assert(j != i);
                                assert(new_entries[j - 1] == old_entries[j]);
                            }
                        }
                    }
                    assert forall|q: Seq<char>| #[trigger] m1.contains_key(q) implies m1[q] == m0.remove(key@)[q] by {
                        let j = choose|j: int| 0 <= j < new_entries.len() && #[trigger] new_entries[j].0@ == q;
                        let j0 = if j < i { j } else { j + 1 };
                        assert(new_entries[j] == old_entries[j0]);
                    }
                    assert(m1 =~= m0.remove(key@));
                }
                proof {
                    assert(entries_map(old_entries).contains_key(old_entries[i as int].0@));
                }
                let mut entries: Vec<(String, V)> = Vec::new();
                std::mem::swap(&mut entries, &mut self.entries);
                let (_, v) = entries.remove(i);
                self.entries = entries;
                Some(v)
            },
            None => {
                proof {
                    assert(entries_map(old_entries) =~= entries_map(old_entries).remove(key@));
                }
                None
            },
        }
    }

    /// The keys, each once, in no particular order.
    pub fn keys(&self) -> (ks: Vec<String>)
        ensures
            ks.len() == self@.len(),
            forall|i: int| 0 <= i < ks.len() ==> self@.contains_key(#[trigger] ks@[i]@),
            forall|k: Seq<char>| #[trigger] self@.contains_key(k) ==> exists|i: int|
                0 <= i < ks.len() && #[trigger] ks@[i]@ == k,
            forall|i: int, j: int| 0 <= i < j < ks.len() ==> #[trigger] ks@[i]@ != #[trigger] ks@[j]@,
    {
        proof {
            use_type_invariant(self);
            lemma_entries_map_char(self.entries@);
        }
        let n: usize = self.entries.len();
        let mut ks: Vec<String> = Vec::new();
        let mut i: usize = 0;
        while i < n
            invariant
                i <= n,
                n == self.entries@.len(),
                ks.len() == i,
                forall|j: int| 0 <= j < i ==> #[trigger] ks@[j]@ == self.entries@[j].0@,
            decreases n - i,
        {
            ks.push(self.entries[i].0.clone());
            i = i + 1;
        }
        proof {
            assert forall|k: Seq<char>| #[trigger] self@.contains_key(k) implies exists|i: int|
                0 <= i < ks.len() && #[trigger] ks@[i]@ == k by {
                let j = choose|j: int| 0 <= j < self.entries@.len() && #[trigger] self.entries@[j].0@ == k;
                assert(ks@[j]@ == k);
            }
            assert forall|a: int, b: int| 0 <= a < b < ks.len() implies #[trigger] ks@[a]@ != #[trigger] ks@[b]@ by {
                assert(self.entries@[a].0@ != self.entries@[b].0@);
            }
        }
        ks
    }
}

impl TextMap<String> {
    /// A copy of this map.
    pub fn duplicate(&self) -> (r: Self)
        ensures
            r@ == self@,
    {
        proof {
            use_type_invariant(self);
        }
        let n: usize = self.entries.len();
        let mut entries: Vec<(String, String)> = Vec::new();
        let mut i: usize = 0;
        while i < n
            invariant
                i <= n,
                n == self.entries@.len(),
                entries@ =~= self.entries@.subrange(0, i as int),
            decreases n - i,
        {
            let k = self.entries[i].0.clone();
            let v = self.entries[i].1.clone();
            entries.push((k, v));
            i = i + 1;
        }
        proof {
            assert(entries@ =~= self.entries@);
        }
        TextMap { entries }
    }
}

} // verus!
