//! The sequential heart of the store: a mapping from keys to encoded
//! text, kept as a vector of entries with pairwise-distinct keys and
//! modelled as a `Map<Seq<char>, Seq<char>>`.

use vstd::map::*;
use vstd::prelude::*;

use crate::codec::{json_object_of, json_object_text};
use crate::ConfigError;

verus! {

/// The keys of the entries are pairwise distinct.
pub open spec fn distinct_keys(s: Seq<(String, String)>) -> bool {
    forall|i: int, j: int| 0 <= i < j < s.len() ==> s[i].0@ != s[j].0@
}

/// The mapping that a sequence of (key, value) entries denotes; a later
/// entry overrides an earlier one with the same key.
pub open spec fn map_of_pairs(s: Seq<(String, String)>) -> Map<Seq<char>, Seq<char>>
    decreases s.len(),
{
    if s.len() == 0 {
        Map::empty()
    } else {
        map_of_pairs(s.drop_last()).insert(s.last().0@, s.last().1@)
    }
}

/// Some entry of `s` carries the key `k`.
pub open spec fn has_key(s: Seq<(String, String)>, k: Seq<char>) -> bool {
    exists|i: int| 0 <= i < s.len() && s[i].0@ == k
}

/// The denoted mapping contains exactly the keys of the entries.
pub proof fn lemma_map_of_pairs_contains(s: Seq<(String, String)>, k: Seq<char>)
    ensures
        map_of_pairs(s).contains_key(k) <==> has_key(s, k),
    decreases s.len(),
{
    if s.len() == 0 {
    } else {
        lemma_map_of_pairs_contains(s.drop_last(), k);
        if k == s.last().0@ {
            assert(s[s.len() - 1].0@ == k);
        } else {
            if has_key(s.drop_last(), k) {
                let i = choose|i: int| 0 <= i < s.drop_last().len() && s.drop_last()[i].0@ == k;
                assert(s[i].0@ == k);
            }
            if has_key(s, k) {
                let i = choose|i: int| 0 <= i < s.len() && s[i].0@ == k;
                assert(s.drop_last()[i].0@ == k);
            }
        }
    }
}

/// With distinct keys, the mapping sends each entry's key to that
/// entry's value.
pub proof fn lemma_map_of_pairs_index(s: Seq<(String, String)>, i: int)
    requires
        distinct_keys(s),
        0 <= i < s.len(),
    ensures
        map_of_pairs(s).contains_key(s[i].0@),
        map_of_pairs(s)[s[i].0@] == s[i].1@,
    decreases s.len(),
{
    if i == s.len() - 1 {
    } else {
        assert(distinct_keys(s.drop_last())) by {
            assert(forall|p: int, q: int|
                0 <= p < q < s.drop_last().len() ==> s.drop_last()[p].0@ == s[p].0@
                    && s.drop_last()[q].0@ == s[q].0@);
        }
        lemma_map_of_pairs_index(s.drop_last(), i);
        assert(s.drop_last()[i] == s[i]);
        assert(s.last().0@ != s[i].0@);
    }
}

/// The store: entries with pairwise-distinct keys, viewed as a mapping
/// from key to encoded text.
pub struct StoreMap {
    entries: Vec<(String, String)>,
}

impl View for StoreMap {
    type V = Map<Seq<char>, Seq<char>>;

    closed spec fn view(&self) -> Map<Seq<char>, Seq<char>> {
        map_of_pairs(self.entries@)
    }
}

impl StoreMap {
    /// Well-formedness: no key appears twice.
    pub closed spec fn wf(&self) -> bool {
        distinct_keys(self.entries@)
    }

    /// An empty store.
    pub fn empty() -> (r: StoreMap)
        ensures
            r.wf(),
            r@ == Map::<Seq<char>, Seq<char>>::empty(),
    {
        StoreMap { entries: Vec::new() }
    }

    /// The index of the entry carrying `key`, if any.
    fn position(&self, key: &str) -> (r: Option<usize>)
        ensures
            match r {
                Some(i) => i < self.entries@.len() && self.entries@[i as int].0@ == key@,
                None => forall|j: int| 0 <= j < self.entries@.len()
                    ==> self.entries@[j].0@ != key@,
            },
    {
        let k: String = key.to_owned();
        let mut i: usize = 0;
        while i < self.entries.len()
            invariant
                i <= self.entries@.len(),
                k@ == key@,
                forall|j: int| 0 <= j < i ==> self.entries@[j].0@ != key@,
            decreases self.entries@.len() - i,
        {
            if self.entries[i].0 == k {
                return Some(i);
            }
            i = i + 1;
        }
        None
    }

    /// Look up `key`: the stored encoded text, or `None` when absent.
    pub fn get(&self, key: &str) -> (r: Option<String>)
        requires
            self.wf(),
        ensures
            r is Some <==> self@.contains_key(key@),
            r is Some ==> r->0@ == self@[key@],
    {
        proof {
            lemma_map_of_pairs_contains(self.entries@, key@);
        }
        match self.position(key) {
            Some(i) => {
                proof {
                    lemma_map_of_pairs_index(self.entries@, i as int);
                }
                Some(self.entries[i].1.clone())
            },
            None => {
                proof {
                    if has_key(self.entries@, key@) {
                        let j = choose|j: int|
                            0 <= j < self.entries@.len() && self.entries@[j].0@ == key@;
                        assert(self.entries@[j].0@ != key@);
                    }
                }
                None
            },
        }
    }

    /// Whether `key` is currently present.
    pub fn contains(&self, key: &str) -> (r: bool)
        requires
            self.wf(),
        ensures
            r == self@.contains_key(key@),
    {
        let found = self.get(key);
        found.is_some()
    }

    /// Remove the entry carrying `key`, if any; absent keys are a no-op.
    pub fn remove(&mut self, key: &str)
        requires
            old(self).wf(),
        ensures
            final(self).wf(),
            final(self)@ == old(self)@.remove(key@),
            !final(self)@.contains_key(key@),
    {
        let ghost s = self.entries@;
        let k: String = key.to_owned();
        let mut kept: Vec<(String, String)> = Vec::new();
        let mut i: usize = 0;
        while i < self.entries.len()
            invariant
                i <= s.len(),
                k@ == key@,
                self.entries@ == s,
                distinct_keys(s),
                forall|j: int| 0 <= j < kept@.len() ==> kept@[j].0@ != key@,
                forall|j: int| 0 <= j < kept@.len()
                    ==> exists|j2: int| 0 <= j2 < i && #[trigger] kept@[j] == s[j2],
                distinct_keys(kept@),
                map_of_pairs(kept@) == map_of_pairs(s.take(i as int)).remove(key@),
            decreases s.len() - i,
        {
            let e = &self.entries[i];
            proof {
                assert(s.take(i + 1).drop_last() =~= s.take(i as int));
                assert(s.take(i + 1).last() == s[i as int]);
            }
            if e.0 == k {
                proof {
                    assert_maps_equal!(
                        map_of_pairs(s.take(i as int)).insert(s[i as int].0@, s[i as int].1@)
                            .remove(key@),
                        map_of_pairs(s.take(i as int)).remove(key@)
                    );
                }
            } else {
                let ghost kept_old = kept@;
                proof {
                    assert forall|j: int| 0 <= j < kept_old.len()
                        implies kept_old[j].0@ != s[i as int].0@ by {
                        let j2 = choose|j2: int| 0 <= j2 < i && kept_old[j] == s[j2];
                        assert(s[j2].0@ != s[i as int].0@);
                    }
                }
                kept.push((e.0.clone(), e.1.clone()));
                proof {
                    assert(kept@.drop_last() =~= kept_old);
                    assert(kept@.last() == (s[i as int].0, s[i as int].1));
                    assert_maps_equal!(
                        map_of_pairs(s.take(i as int)).insert(s[i as int].0@, s[i as int].1@)
                            .remove(key@),
                        map_of_pairs(s.take(i as int)).remove(key@)
                            .insert(s[i as int].0@, s[i as int].1@)
                    );
                }
            }
            i = i + 1;
        }
        proof {
            assert(s.take(s.len() as int) =~= s);
        }
        self.entries = kept;
        proof {
            lemma_map_of_pairs_contains(self.entries@, key@);
        }
    }

    /// Insert `key` with encoded text `value`, overwriting any previous
    /// entry for the same key.
    pub fn insert(&mut self, key: &str, value: &str)
        requires
            old(self).wf(),
        ensures
            final(self).wf(),
            final(self)@ == old(self)@.insert(key@, value@),
    {
        self.remove(key);
        let ghost mid = self.entries@;
        proof {
            lemma_map_of_pairs_contains(mid, key@);
        }
        self.entries.push((key.to_owned(), value.to_owned()));
        proof {
            assert(self.entries@.drop_last() =~= mid);
            assert(forall|j: int| 0 <= j < mid.len() ==> self.entries@[j] == mid[j]);
            assert forall|j: int| 0 <= j < mid.len()
                implies mid[j].0@ != key@ by {
                if mid[j].0@ == key@ {
                    assert(has_key(mid, key@));
                }
            }
            assert_maps_equal!(
                old(self)@.remove(key@).insert(key@, value@),
                old(self)@.insert(key@, value@)
            );
        }
    }

    /// A snapshot of all present keys; no key appears twice, and the
    /// set of returned keys is exactly the domain of the mapping.
    pub fn keys(&self) -> (r: Vec<String>)
        requires
            self.wf(),
        ensures
            forall|j: int| 0 <= j < r@.len() ==> self@.contains_key(#[trigger] r@[j]@),
            forall|k: Seq<char>| self@.contains_key(k)
                ==> exists|j: int| 0 <= j < r@.len() && r@[j]@ == k,
            forall|j1: int, j2: int| 0 <= j1 < j2 < r@.len() ==> r@[j1]@ != r@[j2]@,
    {
        let mut r: Vec<String> = Vec::new();
        let mut i: usize = 0;
        while i < self.entries.len()
            invariant
                i <= self.entries@.len(),
                self.wf(),
                r@.len() == i,
                forall|j: int| 0 <= j < i ==> r@[j]@ == self.entries@[j].0@,
            decreases self.entries@.len() - i,
        {
            r.push(self.entries[i].0.clone());
            i = i + 1;
        }
        proof {
            assert forall|j: int| 0 <= j < r@.len()
                implies self@.contains_key(#[trigger] r@[j]@) by {
                lemma_map_of_pairs_index(self.entries@, j);
            }
            assert forall|k: Seq<char>| self@.contains_key(k)
                implies exists|j: int| 0 <= j < r@.len() && r@[j]@ == k by {
                lemma_map_of_pairs_contains(self.entries@, k);
                let j = choose|j: int|
                    0 <= j < self.entries@.len() && self.entries@[j].0@ == k;
                assert(r@[j]@ == k);
            }
        }
        r
    }

    /// The bulk pretty-printed text of the whole store; parsing that
    /// text back yields exactly this mapping.
    pub fn to_payload(&self) -> (r: String)
        requires
            self.wf(),
        ensures
            r@ == json_object_text(self@),
            json_object_of(r@) == Some(self@),
    {
        crate::codec::encode_entries(&self.entries)
    }

    /// Merge every entry decoded from `text` into the store, each one
    /// overwriting any present entry with its key. A text that does not
    /// decode to a mapping fails, and nothing changes.
    pub fn merge_payload(&mut self, text: &str) -> (r: Result<(), ConfigError>)
        requires
            old(self).wf(),
        ensures
            final(self).wf(),
            r is Ok <==> json_object_of(text@) is Some,
            r is Ok ==> final(self)@
                == old(self)@.union_prefer_right(json_object_of(text@)->0),
            r is Err ==> final(self)@ == old(self)@ && r->Err_0 is Other,
    {
        match crate::codec::decode_entries(text) {
            Err(m) => Err(ConfigError::Other(m)),
            Ok(pairs) => {
                let mut i: usize = 0;
                while i < pairs.len()
                    invariant
                        i <= pairs@.len(),
                        distinct_keys(pairs@),
                        self.wf(),
                        map_of_pairs(pairs@) == json_object_of(text@)->0,
                        self@ == old(self)@.union_prefer_right(
                            map_of_pairs(pairs@.take(i as int)),
                        ),
                    decreases pairs@.len() - i,
                {
                    self.insert(pairs[i].0.as_str(), pairs[i].1.as_str());
                    proof {
                        assert(pairs@.take(i + 1).drop_last() =~= pairs@.take(i as int));
                        assert(pairs@.take(i + 1).last() == pairs@[i as int]);
                        assert_maps_equal!(
                            old(self)@.union_prefer_right(map_of_pairs(pairs@.take(i as int)))
                                .insert(pairs@[i as int].0@, pairs@[i as int].1@),
                            old(self)@.union_prefer_right(map_of_pairs(pairs@.take(i + 1)))
                        );
                    }
                    i = i + 1;
                }
                proof {
                    assert(pairs@.take(pairs@.len() as int) =~= pairs@);
                }
                Ok(())
            },
        }
    }
}

/// Law: persistence round-trips. The bulk text of a store, merged into
/// a fresh store, rebuilds exactly the same mapping.
pub fn store_rebuilt_from_payload(s: &StoreMap) -> (r: StoreMap)
    requires
        s.wf(),
    ensures
        r.wf(),
        r@ == s@,
{
    let payload = s.to_payload();
    let mut r = StoreMap::empty();
    let merged = r.merge_payload(payload.as_str());
    proof {
        assert(merged is Ok);
        assert_maps_equal!(
            Map::<Seq<char>, Seq<char>>::empty().union_prefer_right(s@),
            s@
        );
    }
    r
}

/// Law: storing a value under a key and then reading that key yields
/// exactly the stored value.
pub proof fn lemma_put_then_get(m: Map<Seq<char>, Seq<char>>, k: Seq<char>, v: Seq<char>)
    ensures
        m.insert(k, v).contains_key(k),
        m.insert(k, v)[k] == v,
{
}

/// Law: a key removed from the store is absent afterwards: a presence
/// test is false and a lookup finds nothing.
pub proof fn lemma_absent_after_remove(m: Map<Seq<char>, Seq<char>>, k: Seq<char>)
    ensures
        !m.remove(k).contains_key(k),
{
}

/// Law: removing an absent key changes nothing, and removing a key
/// twice has the same effect as removing it once.
pub proof fn lemma_remove_idempotent(m: Map<Seq<char>, Seq<char>>, k: Seq<char>)
    ensures
        !m.contains_key(k) ==> m.remove(k) == m,
        m.remove(k).remove(k) == m.remove(k),
{
    if !m.contains_key(k) {
        assert_maps_equal!(m.remove(k), m);
    }
    assert_maps_equal!(m.remove(k).remove(k), m.remove(k));
}

/// Law: merging loaded entries into a store overrides at every loaded
/// key, keeps every other present entry, and adds nothing else.
pub proof fn lemma_merge_prefers_loaded(
    m: Map<Seq<char>, Seq<char>>,
    l: Map<Seq<char>, Seq<char>>,
    k: Seq<char>,
)
    ensures
        l.contains_key(k) ==> m.union_prefer_right(l).contains_key(k)
            && m.union_prefer_right(l)[k] == l[k],
        !l.contains_key(k) && m.contains_key(k) ==> m.union_prefer_right(l).contains_key(k)
            && m.union_prefer_right(l)[k] == m[k],
        m.union_prefer_right(l).contains_key(k) ==> m.contains_key(k) || l.contains_key(k),
{
}

} // verus!
