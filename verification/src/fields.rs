use vstd::prelude::*;

use std::collections::BTreeMap;

verus! {

/// The map that a sequence of `(key, value)` insertions leaves behind: a later pair
/// overrides an earlier one with the same key.
pub open spec fn pairs_map(ps: Seq<(Seq<char>, Seq<char>)>) -> Map<Seq<char>, Seq<char>>
    decreases ps.len(),
{
    if ps.len() == 0 {
        Map::empty()
    } else {
        pairs_map(ps.drop_last()).insert(ps.last().0, ps.last().1)
    }
}

/// The character views of owned string pairs.
pub open spec fn string_pairs(v: Seq<(String, String)>) -> Seq<(Seq<char>, Seq<char>)> {
    v.map_values(|p: (String, String)| (p.0@, p.1@))
}

/// No key occurs twice among `ps`.
pub open spec fn unique_keys(ps: Seq<(Seq<char>, Seq<char>)>) -> bool {
    forall|i: int, j: int| 0 <= i < j < ps.len() ==> ps[i].0 != ps[j].0
}

/// The JSON text of a list that holds one object: `m`'s keys and their string values,
/// as `serde_json::to_string` writes a `vec![m]` of a `BTreeMap<String, String>`; `None`
/// where that call fails.
pub uninterp spec fn json_list_of_map(m: Map<Seq<char>, Seq<char>>) -> Option<Seq<char>>;

#[verifier::external_type_specification]
#[verifier::external_body]
pub struct ExJsonError(serde_json::Error);

/// A map from text keys to text values, each key held once, in the order it first came.
///
/// Its view is the map itself, as a `BTreeMap` that received the same `insert` calls
/// would hold.
#[derive(Debug)]
pub struct FieldMap {
    entries: Vec<(String, String)>,
}

impl View for FieldMap {
    type V = Map<Seq<char>, Seq<char>>;

    open spec fn view(&self) -> Map<Seq<char>, Seq<char>> {
        pairs_map(self.pairs())
    }
}

/// Pairs that do not hold `key` after index `i` leave its entry as the first `i` pairs do.
pub proof fn lemma_pairs_map_tail_without_key(
    ps: Seq<(Seq<char>, Seq<char>)>,
    i: int,
    key: Seq<char>,
)
    requires
        0 <= i <= ps.len(),
        forall|j: int| i <= j < ps.len() ==> ps[j].0 != key,
    ensures
        pairs_map(ps).contains_key(key) == pairs_map(ps.take(i)).contains_key(key),
        pairs_map(ps).contains_key(key) ==> pairs_map(ps)[key] == pairs_map(ps.take(i))[key],
    decreases ps.len(),
{
    if ps.len() == i {
        assert(ps.take(i) == ps);
    } else {
        let init = ps.drop_last();
        assert(init.take(i) == ps.take(i));
        lemma_pairs_map_tail_without_key(init, i, key);
    }
}

/// Pairs without `key` leave no entry for it.
pub proof fn lemma_pairs_map_without_key(ps: Seq<(Seq<char>, Seq<char>)>, key: Seq<char>)
    requires
        forall|j: int| 0 <= j < ps.len() ==> ps[j].0 != key,
    ensures
        !pairs_map(ps).contains_key(key),
{
    lemma_pairs_map_tail_without_key(ps, 0, key);
    assert(ps.take(0) =~= Seq::<(Seq<char>, Seq<char>)>::empty());
}

/// With keys held once, giving the pair at `i` a new value sets that key's entry.
pub proof fn lemma_pairs_map_update(ps: Seq<(Seq<char>, Seq<char>)>, i: int, v: Seq<char>)
    requires
        unique_keys(ps),
        0 <= i < ps.len(),
    ensures
        pairs_map(ps.update(i, (ps[i].0, v))) == pairs_map(ps).insert(ps[i].0, v),
    decreases ps.len(),
{
    let k = ps[i].0;
    let qs = ps.update(i, (k, v));
    let init = ps.drop_last();
    if i == ps.len() - 1 {
        assert(qs.drop_last() == init);
        assert(pairs_map(qs) =~= pairs_map(ps).insert(k, v));
    } else {
        assert(qs.drop_last() == init.update(i, (k, v)));
        lemma_pairs_map_update(init, i, v);
        assert(ps.last().0 != k);
        assert(pairs_map(qs) =~= pairs_map(ps).insert(k, v));
    }
}

/// Where `key` stands among the pairs, if it is there.
fn key_position(entries: &Vec<(String, String)>, key: &String) -> (r: Option<usize>)
    ensures
        match r {
            Some(i) => i < entries@.len() && string_pairs(entries@)[i as int].0 == key@,
            None => forall|j: int|
                0 <= j < entries@.len() ==> string_pairs(entries@)[j].0 != key@,
        },
{
    let mut i: usize = 0;
    while i < entries.len()
        invariant
            i <= entries@.len(),
            forall|j: int| 0 <= j < i ==> string_pairs(entries@)[j].0 != key@,
        decreases entries@.len() - i,
    {
        if entries[i].0 == *key {
            return Some(i);
        }
        i = i + 1;
    }
    None
}

impl FieldMap {
    /// The pairs the map holds, each key once, in the order the keys first came.
    pub closed spec fn pairs(&self) -> Seq<(Seq<char>, Seq<char>)> {
        string_pairs(self.entries@)
    }

    #[verifier::type_invariant]
    closed spec fn keys_held_once(&self) -> bool {
        unique_keys(self.pairs())
    }

    /// An empty map.
    pub fn new() -> (m: FieldMap)
        ensures
            m@ == Map::<Seq<char>, Seq<char>>::empty(),
    {
        let m = FieldMap { entries: Vec::new() };
        assert(m.pairs() =~= Seq::<(Seq<char>, Seq<char>)>::empty());
        m
    }

    /// Sets `key` to `value`, replacing any earlier value of `key`.
    pub fn insert(&mut self, key: String, value: String)
        ensures
            final(self)@ == old(self)@.insert(key@, value@),
    {
        proof {
            use_type_invariant(&*self);
        }
        let ghost before = self.pairs();
        let mut entries: Vec<(String, String)> = Vec::new();
        std::mem::swap(&mut entries, &mut self.entries);
        assert(string_pairs(entries@) == before);
        let found = key_position(&entries, &key);
        let ghost k = key@;
        let ghost v = value@;
        match found {
            Some(i) => {
                proof {
                    lemma_pairs_map_update(before, i as int, v);
                }
                entries.set(i, (key, value));
                proof {
                    assert(string_pairs(entries@) =~= before.update(i as int, (k, v)));
                    assert forall|a: int, b: int|
                        0 <= a < b < string_pairs(entries@).len() implies string_pairs(
                        entries@,
                    )[a].0 != string_pairs(entries@)[b].0 by {
                        assert(string_pairs(entries@)[a].0 == before[a].0);
                        assert(string_pairs(entries@)[b].0 == before[b].0);
                    }
                }
            },
            None => {
                proof {
                    lemma_pairs_map_without_key(before, k);
                }
                entries.push((key, value));
                proof {
                    assert(string_pairs(entries@) =~= before.push((k, v)));
                    assert(string_pairs(entries@).drop_last() =~= before);
                }
            },
        }
        self.entries = entries;
    }

    /// The value of `key`, if the map holds one.
    pub fn get(&self, key: &str) -> (r: Option<&String>)
        ensures
            match r {
                Some(v) => self@.contains_key(key@) && self@[key@] == v@,
                None => !self@.contains_key(key@),
            },
    {
        let k = key.to_string();
        let mut i: usize = self.entries.len();
        while i > 0
            invariant
                i <= self.entries@.len(),
                k@ == key@,
                forall|j: int| i <= j < self.pairs().len() ==> self.pairs()[j].0 != key@,
            decreases i,
        {
            if self.entries[i - 1].0 == k {
                proof {
                    let ps = self.pairs();
                    lemma_pairs_map_tail_without_key(ps, i as int, key@);
                    assert(ps.take(i as int).drop_last() == ps.take(i - 1));
                    assert(ps.take(i as int).last() == ps[i - 1]);
                }
                return Some(&self.entries[i - 1].1);
            }
            i = i - 1;
        }
        proof {
            lemma_pairs_map_without_key(self.pairs(), key@);
        }
        None
    }

    /// The pairs the map holds, each key once, in the order the keys first came.
    pub fn entries(&self) -> (r: &Vec<(String, String)>)
        ensures
            pairs_map(string_pairs(r@)) == self@,
            unique_keys(string_pairs(r@)),
    {
        proof {
            use_type_invariant(self);
        }
        &self.entries
    }

    /// The JSON text of a list holding this map as its one object
    /// (`serde_json::to_string` of `vec![map]`, the map as a `BTreeMap<String, String>`):
    /// the named result `json_list_of_map`, or its failure.
    #[verifier::external_body]
    pub(crate) fn json_list(&self) -> (r: Result<String, serde_json::Error>)
        ensures
            match r {
                Ok(s) => json_list_of_map(self@) == Some(s@),
                Err(_) => json_list_of_map(self@) is None,
            },
    {
        let map: BTreeMap<String, String> = self.entries.iter().cloned().collect();
        serde_json::to_string(&vec![map])
    }
}

impl Clone for FieldMap {
    fn clone(&self) -> (r: Self)
        ensures
            r@ == self@,
    {
        proof {
            use_type_invariant(self);
        }
        let mut entries: Vec<(String, String)> = Vec::new();
        let mut i: usize = 0;
        while i < self.entries.len()
            invariant
                i <= self.entries@.len(),
                string_pairs(entries@) == self.pairs().take(i as int),
                unique_keys(self.pairs()),
            decreases self.entries@.len() - i,
        {
            let k = self.entries[i].0.clone();
            let v = self.entries[i].1.clone();
            let ghost before = entries@;
            entries.push((k, v));
            assert(self.pairs()[i as int] == (k@, v@));
            assert(self.pairs().take(i + 1) == self.pairs().take(i as int).push((k@, v@)));
            assert(string_pairs(entries@) =~= string_pairs(before).push((k@, v@)));
            i = i + 1;
        }
        assert(self.pairs().take(i as int) == self.pairs());
        FieldMap { entries }
    }
}

} // verus!
