//! A string-to-string map for process environments, with insertion order kept.

use vstd::prelude::*;
use vstd::string::*;

verus! {

/// The map that a list of `(key, value)` pairs gives when the pairs are
/// inserted in order: of two pairs with one key, the later one wins.
pub open spec fn map_of(ps: Seq<(Seq<char>, Seq<char>)>) -> Map<Seq<char>, Seq<char>>
    decreases ps.len(),
{
    if ps.len() == 0 {
        Map::empty()
    } else {
        map_of(ps.drop_last()).insert(ps.last().0, ps.last().1)
    }
}

/// A pair of strings, taken by its views.
pub open spec fn pair_view(p: (String, String)) -> (Seq<char>, Seq<char>) {
    (p.0@, p.1@)
}

/// A list of string pairs, taken by their views.
pub open spec fn pairs_view(ps: Seq<(String, String)>) -> Seq<(Seq<char>, Seq<char>)> {
    ps.map_values(|p: (String, String)| pair_view(p))
}

/// No key occurs twice among the pairs.
pub open spec fn keys_unique(ps: Seq<(Seq<char>, Seq<char>)>) -> bool {
    forall|i: int, j: int| 0 <= i < j < ps.len() ==> ps[i].0 != ps[j].0
}

/// With unique keys, each pair's key maps to that pair's value.
pub proof fn lemma_map_of_lookup(ps: Seq<(Seq<char>, Seq<char>)>, i: int)
    requires
        keys_unique(ps),
        0 <= i < ps.len(),
    ensures
        map_of(ps).contains_key(ps[i].0),
        map_of(ps)[ps[i].0] == ps[i].1,
    decreases ps.len(),
{
    if i < ps.len() - 1 {
        lemma_map_of_lookup(ps.drop_last(), i);
    }
}

/// A key that no pair has is not in the map.
pub proof fn lemma_map_of_absent(ps: Seq<(Seq<char>, Seq<char>)>, k: Seq<char>)
    requires
        forall|i: int| 0 <= i < ps.len() ==> ps[i].0 != k,
    ensures
        !map_of(ps).contains_key(k),
    decreases ps.len(),
{
    if ps.len() > 0 {
        lemma_map_of_absent(ps.drop_last(), k);
    }
}

/// With unique keys, giving the pair at `j` a new value is an insert into the map.
pub proof fn lemma_map_of_update(ps: Seq<(Seq<char>, Seq<char>)>, j: int, v: Seq<char>)
    requires
        keys_unique(ps),
        0 <= j < ps.len(),
    ensures
        map_of(ps.update(j, (ps[j].0, v))) == map_of(ps).insert(ps[j].0, v),
    decreases ps.len(),
{
    let qs = ps.update(j, (ps[j].0, v));
    if j == ps.len() - 1 {
        assert(qs.drop_last() =~= ps.drop_last());
        assert(map_of(qs) =~= map_of(ps).insert(ps[j].0, v));
    } else {
        lemma_map_of_update(ps.drop_last(), j, v);
        assert(qs.drop_last() =~= ps.drop_last().update(j, (ps[j].0, v)));
        assert(map_of(qs) =~= map_of(ps).insert(ps[j].0, v));
    }
}

/// A map from strings to strings, held as a list of pairs in which no key
/// occurs twice; the pairs keep the order in which their keys first came in.
pub struct EnvMap {
    entries: Vec<(String, String)>,
}

impl EnvMap {
    /// The pairs, taken by their views, in order.
    pub closed spec fn entries_view(self) -> Seq<(Seq<char>, Seq<char>)> {
        pairs_view(self.entries@)
    }

    /// The map that the pairs stand for.
    pub closed spec fn as_map(self) -> Map<Seq<char>, Seq<char>> {
        map_of(self.entries_view())
    }

    #[verifier::type_invariant]
    spec fn keys_are_unique(self) -> bool {
        keys_unique(self.entries_view())
    }

    /// An empty map.
    pub fn new() -> (m: Self)
        ensures
            m@ == Map::<Seq<char>, Seq<char>>::empty(),
            m.entries_view().len() == 0,
    {
        let m = EnvMap { entries: Vec::new() };
        assert(m.entries_view() =~= Seq::empty());
        m
    }

    /// Sets `key` to `value`, replacing the value that `key` had. A new key
    /// goes after the others; a key that was there keeps its place.
    pub fn insert(&mut self, key: String, value: String)
        ensures
            final(self)@ == old(self)@.insert(key@, value@),
            !old(self)@.contains_key(key@) ==> final(self).entries_view()
                == old(self).entries_view().push((key@, value@)),
            old(self)@.contains_key(key@) ==> {
                &&& final(self).entries_view().len() == old(self).entries_view().len()
                &&& forall|i: int|
                    0 <= i < old(self).entries_view().len()
                        ==> (#[trigger] final(self).entries_view()[i]).0
                        == old(self).entries_view()[i].0
            },
    {
        proof {
            use_type_invariant(&*self);
        }
        let mut entries: Vec<(String, String)> = Vec::new();
        std::mem::swap(&mut entries, &mut self.entries);
        let n = entries.len();
        let mut i: usize = 0;
        while i < n
            invariant
                n == entries@.len(),
                i <= n,
                pairs_view(entries@) == old(self).entries_view(),
                keys_unique(pairs_view(entries@)),
                forall|j: int| 0 <= j < i ==> entries@[j].0@ != key@,
            decreases n - i,
        {
            if entries[i].0 == key {
                let ghost before = pairs_view(entries@);
                entries.set(i, (key, value));
                proof {
                    assert(pairs_view(entries@) =~= before.update(
                        i as int,
                        (before[i as int].0, value@),
                    ));
                    lemma_map_of_update(before, i as int, value@);
                    lemma_map_of_lookup(before, i as int);
                }
                self.entries = entries;
                return;
            }
            i = i + 1;
        }
        let ghost before = pairs_view(entries@);
        proof {
            lemma_map_of_absent(before, key@);
        }
        entries.push((key, value));
        proof {
            assert(pairs_view(entries@) =~= before.push((key@, value@)));
            assert(pairs_view(entries@).drop_last() =~= before);
        }
        self.entries = entries;
    }

    /// The value of `key`, if `key` is in the map.
    pub fn get(&self, key: &str) -> (r: Option<&String>)
        ensures
            match r {
                Some(v) => self@.contains_key(key@) && v@ == self@[key@],
                None => !self@.contains_key(key@),
            },
    {
        proof {
            use_type_invariant(self);
        }
        let k = String::from_str(key);
        let n = self.entries.len();
        let mut i: usize = 0;
        while i < n
            invariant
                n == self.entries@.len(),
                i <= n,
                k@ == key@,
                keys_unique(self.entries_view()),
                forall|j: int| 0 <= j < i ==> self.entries@[j].0@ != key@,
            decreases n - i,
        {
            if self.entries[i].0 == k {
                proof {
                    lemma_map_of_lookup(self.entries_view(), i as int);
                }
                return Some(&self.entries[i].1);
            }
            i = i + 1;
        }
        proof {
            lemma_map_of_absent(self.entries_view(), key@);
        }
        None
    }

    /// Whether `key` is in the map.
    pub fn contains_key(&self, key: &str) -> (r: bool)
        ensures
            r == self@.contains_key(key@),
    {
        self.get(key).is_some()
    }

    /// A copy of the map.
    pub fn copy(&self) -> (r: EnvMap)
        ensures
            r@ == self@,
            r.entries_view() == self.entries_view(),
    {
        proof {
            use_type_invariant(self);
        }
        let n = self.entries.len();
        let mut entries: Vec<(String, String)> = Vec::new();
        let mut i: usize = 0;
        while i < n
            invariant
                n == self.entries@.len(),
                i <= n,
                pairs_view(entries@) == self.entries_view().take(i as int),
            decreases n - i,
        {
            let ghost before = pairs_view(entries@);
            entries.push((self.entries[i].0.clone(), self.entries[i].1.clone()));
            assert(pairs_view(entries@) =~= before.push(self.entries_view()[i as int]));
            assert(self.entries_view().take(i + 1) =~= self.entries_view().take(i as int).push(
                self.entries_view()[i as int],
            ));
            i = i + 1;
        }
        assert(self.entries_view().take(n as int) =~= self.entries_view());
        EnvMap { entries }
    }

    /// The pairs of the map, each key once, in the order in which the keys came in.
    pub fn entries(&self) -> (r: &Vec<(String, String)>)
        ensures
            pairs_view(r@) == self.entries_view(),
            map_of(pairs_view(r@)) == self@,
            keys_unique(pairs_view(r@)),
    {
        proof {
            use_type_invariant(self);
        }
        &self.entries
    }
}

impl View for EnvMap {
    type V = Map<Seq<char>, Seq<char>>;

    open spec fn view(&self) -> Map<Seq<char>, Seq<char>> {
        self.as_map()
    }
}

}
