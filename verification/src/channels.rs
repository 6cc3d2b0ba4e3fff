//! A map from channel ids to addresses, kept as a vector of pairs whose keys
//! never repeat.

use vstd::prelude::*;

verus! {

/// Whether some pair of `s` has the key `k`.
pub open spec fn has_key(s: Seq<(String, String)>, k: Seq<char>) -> bool {
    exists|i: int| 0 <= i < s.len() && (#[trigger] s[i]).0@ == k
}

/// Whether no two pairs of `s` share a key.
pub open spec fn keys_unique(s: Seq<(String, String)>) -> bool {
    forall|i: int, j: int|
        0 <= i < s.len() && 0 <= j < s.len() && i != j ==> (#[trigger] s[i]).0@ != (#[trigger] s[j]).0@
}

/// The map that the pairs of `s` describe.
pub open spec fn map_of(s: Seq<(String, String)>) -> Map<Seq<char>, Seq<char>> {
    Map::new(
        |k: Seq<char>| has_key(s, k),
        |k: Seq<char>| s[choose|i: int| 0 <= i < s.len() && (#[trigger] s[i]).0@ == k].1@,
    )
}

proof fn lemma_map_of_entry(s: Seq<(String, String)>, i: int)
    requires
        keys_unique(s),
        0 <= i < s.len(),
    ensures
        map_of(s).contains_key(s[i].0@),
        map_of(s)[s[i].0@] == s[i].1@,
{
    let k = s[i].0@;
    assert(has_key(s, k));
    let j = choose|j: int| 0 <= j < s.len() && (#[trigger] s[j]).0@ == k;
    assert(s[j].0@ == k);
    if j != i {
        assert(s[i].0@ != s[j].0@);
    }
}

proof fn lemma_map_of_ext(s: Seq<(String, String)>, m: Map<Seq<char>, Seq<char>>)
    requires
        keys_unique(s),
        forall|i: int|
            0 <= i < s.len() ==> m.contains_key((#[trigger] s[i]).0@) && m[s[i].0@] == s[i].1@,
        forall|k: Seq<char>| m.contains_key(k) ==> has_key(s, k),
    ensures
        map_of(s) == m,
{
    assert forall|k: Seq<char>| map_of(s).contains_key(k) <==> m.contains_key(k) by {
        if has_key(s, k) {
            let i = choose|i: int| 0 <= i < s.len() && (#[trigger] s[i]).0@ == k;
            assert(m.contains_key(s[i].0@));
        }
    }
    assert forall|k: Seq<char>| map_of(s).contains_key(k) implies map_of(s)[k] == m[k] by {
        let i = choose|i: int| 0 <= i < s.len() && (#[trigger] s[i]).0@ == k;
        lemma_map_of_entry(s, i);
    }
    assert(map_of(s) =~= m);
}

/// The addresses of all channels: at most one address per channel id.
pub struct ChannelMap {
    entries: Vec<(String, String)>,
}

impl View for ChannelMap {
    type V = Map<Seq<char>, Seq<char>>;

    closed spec fn view(&self) -> Map<Seq<char>, Seq<char>> {
        map_of(self.entries@)
    }
}

impl ChannelMap {
    #[verifier::type_invariant]
    spec fn inv(self) -> bool {
        keys_unique(self.entries@)
    }

    /// A map with no channel.
    pub fn new() -> (r: ChannelMap)
        ensures
            r@ == Map::<Seq<char>, Seq<char>>::empty(),
    {
        let r = ChannelMap { entries: Vec::new() };
        proof {
            lemma_map_of_ext(r.entries@, Map::empty());
        }
        r
    }

    /// The number of channels.
    pub fn len(&self) -> (r: usize)
        ensures
            r == self@.len(),
            self@.dom().finite(),
    {
        proof {
            use_type_invariant(self);
            self.lemma_dom_len();
        }
        self.entries.len()
    }

    proof fn lemma_dom_len(&self)
        requires
            keys_unique(self.entries@),
        ensures
            self@.dom().finite(),
            self@.len() == self.entries@.len(),
        decreases self.entries@.len(),
    {
        let s = self.entries@;
        let keys = s.map_values(|p: (String, String)| p.0@);
        assert forall|i: int, j: int| 0 <= i < keys.len() && 0 <= j < keys.len() && i != j implies keys[i] != keys[j] by {
            assert(s[i].0@ != s[j].0@);
        }
        assert(keys.no_duplicates());
        assert forall|k: Seq<char>| self@.dom().contains(k) <==> keys.to_set().contains(k) by {
            if has_key(s, k) {
                let i = choose|i: int| 0 <= i < s.len() && (#[trigger] s[i]).0@ == k;
                assert(keys[i] == k);
            }
            if keys.to_set().contains(k) {
                assert(keys.contains(k));
                let i = choose|i: int| 0 <= i < keys.len() && keys[i] == k;
                assert(s[i].0@ == k);
            }
        }
        assert(self@.dom() =~= keys.to_set());
        keys.unique_seq_to_set();
    }

    /// The address stored for `key`, if any.
    pub fn get(&self, key: &str) -> (r: Option<&String>)
        ensures
            match r {
                Some(v) => self@.contains_key(key@) && v@ == self@[key@],
                None => !self@.contains_key(key@),
            },
    {
        proof {
            use_type_invariant(self);
        }
        let key: String = key.to_owned();
        match find_key(&self.entries, &key) {
            Some(i) => {
                proof {
                    lemma_map_of_entry(self.entries@, i as int);
                }
                Some(&self.entries[i].1)
            },
            None => None,
        }
    }

    /// Sets the address of `key` to `value` and gives back the address it
    /// had before.
    pub fn insert(&mut self, key: String, value: String) -> (r: Option<String>)
        ensures
            final(self)@ == old(self)@.insert(key@, value@),
            match r {
                Some(v) => old(self)@.contains_key(key@) && v@ == old(self)@[key@],
                None => !old(self)@.contains_key(key@),
            },
    {
        proof {
            use_type_invariant(&*self);
        }
        let ghost old_entries = self.entries@;
        let ghost old_map = self@;
        let mut entries: Vec<(String, String)> = Vec::new();
        std::mem::swap(&mut entries, &mut self.entries);
        let r = match find_key(&entries, &key) {
            Some(i) => {
                let previous: String = entries[i].1.clone();
                proof {
                    lemma_map_of_entry(old_entries, i as int);
                }
                let ghost k = key@;
                let ghost v = value@;
                entries.set(i, (key, value));
                proof {
                    let s = entries@;
                    let m = old_map.insert(k, v);
                    assert(keys_unique(s)) by {
                        assert forall|a: int, b: int|
                            0 <= a < s.len() && 0 <= b < s.len() && a != b implies (#[trigger] s[a]).0@
                            != (#[trigger] s[b]).0@ by {
                            assert(old_entries[a].0@ != old_entries[b].0@);
                        }
                    }
                    assert forall|j: int| 0 <= j < s.len() implies m.contains_key(
                        (#[trigger] s[j]).0@,
                    ) && m[s[j].0@] == s[j].1@ by {
                        if j != i {
                            lemma_map_of_entry(old_entries, j);
                            assert(old_entries[j].0@ != old_entries[i as int].0@);
                        }
                    }
                    assert forall|kk: Seq<char>| m.contains_key(kk) implies has_key(s, kk) by {
                        if kk != k {
                            let j = choose|j: int|
                                0 <= j < old_entries.len() && (#[trigger] old_entries[j]).0@ == kk;
                            assert(s[j].0@ == kk);
                        } else {
                            assert(s[i as int].0@ == kk);
                        }
                    }
                    lemma_map_of_ext(s, m);
                }
                Some(previous)
            },
            None => {
                let ghost k = key@;
                let ghost v = value@;
                entries.push((key, value));
                proof {
                    let s = entries@;
                    let n = old_entries.len() as int;
                    let m = old_map.insert(k, v);
                    assert(keys_unique(s)) by {
                        assert forall|a: int, b: int|
                            0 <= a < s.len() && 0 <= b < s.len() && a != b implies (#[trigger] s[a]).0@
                            != (#[trigger] s[b]).0@ by {
                            if a < n && b < n {
                                assert(old_entries[a].0@ != old_entries[b].0@);
                            } else if a < n {
                                assert(old_entries[a].0@ != k);
                            } else {
                                assert(old_entries[b].0@ != k);
                            }
                        }
                    }
                    assert forall|j: int| 0 <= j < s.len() implies m.contains_key(
                        (#[trigger] s[j]).0@,
                    ) && m[s[j].0@] == s[j].1@ by {
                        if j < n {
                            lemma_map_of_entry(old_entries, j);
                            assert(old_entries[j].0@ != k);
                        }
                    }
                    assert forall|kk: Seq<char>| m.contains_key(kk) implies has_key(s, kk) by {
                        if kk != k {
                            let j = choose|j: int|
                                0 <= j < old_entries.len() && (#[trigger] old_entries[j]).0@ == kk;
                            assert(s[j].0@ == kk);
                        } else {
                            assert(s[n].0@ == kk);
                        }
                    }
                    lemma_map_of_ext(s, m);
                }
                None
            },
        };
        self.entries = entries;
        r
    }

    /// Removes `key` and gives back the address it had.
    pub fn remove(&mut self, key: &str) -> (r: Option<String>)
        ensures
            final(self)@ == old(self)@.remove(key@),
            match r {
                Some(v) => old(self)@.contains_key(key@) && v@ == old(self)@[key@],
                None => !old(self)@.contains_key(key@),
            },
    {
        proof {
            use_type_invariant(&*self);
        }
        let ghost old_entries = self.entries@;
        let ghost old_map = self@;
        let key: String = key.to_owned();
        match find_key(&self.entries, &key) {
            Some(i) => {
                proof {
                    lemma_map_of_entry(old_entries, i as int);
                }
                let mut entries: Vec<(String, String)> = Vec::new();
                std::mem::swap(&mut entries, &mut self.entries);
                let (_, previous) = entries.remove(i);
                proof {
                    let s = entries@;
                    let k = key@;
                    let m = old_map.remove(k);
                    assert(s =~= old_entries.remove(i as int));
                    assert(keys_unique(s)) by {
                        assert forall|a: int, b: int|
                            0 <= a < s.len() && 0 <= b < s.len() && a != b implies (#[trigger] s[a]).0@
                            != (#[trigger] s[b]).0@ by {
                            let oa = if a < i { a } else { a + 1 };
                            let ob = if b < i { b } else { b + 1 };
                            assert(old_entries[oa].0@ != old_entries[ob].0@);
                        }
                    }
                    assert forall|j: int| 0 <= j < s.len() implies m.contains_key(
                        (#[trigger] s[j]).0@,
                    ) && m[s[j].0@] == s[j].1@ by {
                        let oj = if j < i { j } else { j + 1 };
                        lemma_map_of_entry(old_entries, oj);
                        assert(old_entries[oj].0@ != old_entries[i as int].0@);
                    }
                    assert forall|kk: Seq<char>| m.contains_key(kk) implies has_key(s, kk) by {
                        let j = choose|j: int|
                            0 <= j < old_entries.len() && (#[trigger] old_entries[j]).0@ == kk;
                        if j < i {
                            assert(s[j].0@ == kk);
                        } else {
                            assert(j != i);
                            assert(s[j - 1].0@ == kk);
                        }
                    }
                    lemma_map_of_ext(s, m);
                }
                self.entries = entries;
                Some(previous)
            },
            None => {
                assert(old_map.remove(key@) =~= old_map);
                None
            },
        }
    }

    /// A copy of the map.
    pub fn snapshot(&self) -> (r: ChannelMap)
        ensures
            r@ == self@,
    {
        proof {
            use_type_invariant(self);
        }
        let n = self.entries.len();
        let mut out: Vec<(String, String)> = Vec::new();
        let mut i: usize = 0;
        while i < n
            invariant
                n == self.entries@.len(),
                i <= n,
                out@ =~= self.entries@.take(i as int),
            decreases n - i,
        {
            let k: String = self.entries[i].0.clone();
            let v: String = self.entries[i].1.clone();
            out.push((k, v));
            assert(out@ =~= self.entries@.take(i + 1));
            i = i + 1;
        }
        assert(out@ =~= self.entries@);
        ChannelMap { entries: out }
    }

    /// The channel id and address pairs, each channel once.
    pub fn pairs(&self) -> (r: &[(String, String)])
        ensures
            keys_unique(r@),
            map_of(r@) == self@,
    {
        proof {
            use_type_invariant(self);
        }
        self.entries.as_slice()
    }
}

/// The index of the pair of `entries` whose key is `key`.
fn find_key(entries: &Vec<(String, String)>, key: &String) -> (r: Option<usize>)
    ensures
        match r {
            Some(i) => i < entries@.len() && entries@[i as int].0@ == key@,
            None => !has_key(entries@, key@),
        },
{
    let n = entries.len();
    let mut i: usize = 0;
    while i < n
        invariant
            n == entries@.len(),
            i <= n,
            forall|j: int| 0 <= j < i ==> (#[trigger] entries@[j]).0@ != key@,
        decreases n - i,
    {
        if entries[i].0 == *key {
            return Some(i);
        }
        i = i + 1;
    }
    None
}

} // verus!
