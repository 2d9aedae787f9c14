//! Small lookup tables (character weights and n-gram counts) kept as vectors
//! of entries with distinct keys, read as maps.

use vstd::prelude::*;
use crate::text::{chars_of, same_chars};

verus! {

/// The map that inserting the pairs of `s` in order produces: a later pair
/// replaces an earlier one with the same key.
pub open spec fn pairs_map<K>(s: Seq<(K, u32)>) -> Map<K, u32>
    decreases s.len(),
{
    if s.len() == 0 {
        Map::empty()
    } else {
        pairs_map(s.drop_last()).insert(s.last().0, s.last().1)
    }
}

/// No key occurs twice in `s`.
pub open spec fn keys_distinct<K>(s: Seq<(K, u32)>) -> bool {
    forall|i: int, j: int| 0 <= i < j < s.len() ==> #[trigger] s[i].0 != #[trigger] s[j].0
}

/// The sum of the values of `s`.
pub open spec fn value_sum<K>(s: Seq<(K, u32)>) -> nat
    decreases s.len(),
{
    if s.len() == 0 {
        0
    } else {
        value_sum(s.drop_last()) + s.last().1 as nat
    }
}

/// The pairs of `pairs` with each key taken as its characters.
pub open spec fn str_pairs(pairs: Seq<(&str, u32)>) -> Seq<(Seq<char>, u32)> {
    Seq::new(pairs.len(), |i: int| (pairs[i].0@, pairs[i].1))
}

/// The entries of `v` with each key taken as its characters.
pub open spec fn gram_entries(v: Seq<(Vec<char>, u32)>) -> Seq<(Seq<char>, u32)> {
    Seq::new(v.len(), |i: int| (v[i].0@, v[i].1))
}

proof fn lemma_pairs_map_lookup<K>(s: Seq<(K, u32)>, i: int)
    requires
        keys_distinct(s),
        0 <= i < s.len(),
    ensures
        pairs_map(s).contains_key(s[i].0),
        pairs_map(s)[s[i].0] == s[i].1,
    decreases s.len(),
{
    if i < s.len() - 1 {
        lemma_pairs_map_lookup(s.drop_last(), i);
        assert(s.drop_last()[i] == s[i]);
        assert(s[i].0 != s[s.len() - 1].0);
    }
}

proof fn lemma_pairs_map_absent<K>(s: Seq<(K, u32)>, k: K)
    requires
        forall|i: int| 0 <= i < s.len() ==> (#[trigger] s[i]).0 != k,
    ensures
        !pairs_map(s).contains_key(k),
    decreases s.len(),
{
    if s.len() > 0 {
        assert forall|i: int| 0 <= i < s.drop_last().len() implies (#[trigger] s.drop_last()[i]).0 != k by {
            assert(s.drop_last()[i] == s[i]);
        }
        lemma_pairs_map_absent(s.drop_last(), k);
        assert(s[s.len() - 1].0 != k);
    }
}

proof fn lemma_pairs_map_update<K>(s: Seq<(K, u32)>, i: int, v: u32)
    requires
        keys_distinct(s),
        0 <= i < s.len(),
    ensures
        pairs_map(s.update(i, (s[i].0, v))) == pairs_map(s).insert(s[i].0, v),
    decreases s.len(),
{
    let t = s.update(i, (s[i].0, v));
    if i == s.len() - 1 {
        assert(t.drop_last() =~= s.drop_last());
        assert(pairs_map(t) =~= pairs_map(s).insert(s[i].0, v));
    } else {
        assert(t.drop_last() =~= s.drop_last().update(i, (s[i].0, v)));
        lemma_pairs_map_update(s.drop_last(), i, v);
        assert(s[i].0 != s[s.len() - 1].0);
        assert(pairs_map(t) =~= pairs_map(s).insert(s[i].0, v));
    }
}

/// The position of the entry with key `key`, if any.
fn find_char(entries: &Vec<(char, u32)>, key: char) -> (r: Option<usize>)
    ensures
        r matches Some(j) ==> j < entries@.len() && entries@[j as int].0 == key,
        r is None ==> forall|m: int| 0 <= m < entries@.len() ==> (#[trigger] entries@[m]).0 != key,
{
    let mut j: usize = 0;
    while j < entries.len()
        invariant
            j <= entries@.len(),
            forall|m: int| 0 <= m < j ==> (#[trigger] entries@[m]).0 != key,
        decreases entries.len() - j,
    {
        if entries[j].0 == key {
            return Some(j);
        }
        j = j + 1;
    }
    None
}

/// The position of the entry whose key has the characters `key`, if any.
fn find_gram(entries: &Vec<(Vec<char>, u32)>, key: &[char]) -> (r: Option<usize>)
    ensures
        r matches Some(j) ==> j < entries@.len() && gram_entries(entries@)[j as int].0 == key@,
        r is None ==> forall|m: int| 0 <= m < entries@.len() ==> (#[trigger] gram_entries(entries@)[m]).0 != key@,
{
    let mut j: usize = 0;
    while j < entries.len()
        invariant
            j <= entries@.len(),
            forall|m: int| 0 <= m < j ==> (#[trigger] gram_entries(entries@)[m]).0 != key@,
        decreases entries.len() - j,
    {
        if same_chars(&entries[j].0, key) {
            return Some(j);
        }
        j = j + 1;
    }
    None
}

/// A map from characters to weights.
#[derive(Clone, Debug)]
pub struct WeightTable {
    entries: Vec<(char, u32)>,
}

impl View for WeightTable {
    type V = Map<char, u32>;

    closed spec fn view(&self) -> Map<char, u32> {
        pairs_map(self.entries@)
    }
}

impl WeightTable {
    /// The table's invariant: distinct keys, and few enough entries that
    /// their sum fits in a `u64`.
    pub closed spec fn wf(&self) -> bool {
        &&& keys_distinct(self.entries@)
        &&& self.entries@.len() <= u32::MAX
    }

    /// The table holding `pairs` (a later pair replacing an earlier one with
    /// the same key), like `HashMap::from`.
    pub fn from_pairs(pairs: &[(char, u32)]) -> (t: Self)
        requires
            pairs@.len() <= u32::MAX,
        ensures
            t.wf(),
            t@ == pairs_map(pairs@),
    {
        let mut entries: Vec<(char, u32)> = Vec::new();
        let mut i: usize = 0;
        while i < pairs.len()
            invariant
                i <= pairs.len(),
                pairs@.len() <= u32::MAX,
                entries@.len() <= i,
                keys_distinct(entries@),
                pairs_map(entries@) == pairs_map(pairs@.take(i as int)),
            decreases pairs.len() - i,
        {
            let (key, value) = pairs[i];
            assert(pairs@.take(i + 1).drop_last() =~= pairs@.take(i as int));
            if let Some(j) = find_char(&entries, key) {
                let ghost before = entries@;
                proof {
                    lemma_pairs_map_update(entries@, j as int, value);
                }
                entries.set(j, (key, value));
                assert(entries@ =~= before.update(j as int, (before[j as int].0, value)));
            } else {
                proof {
                    lemma_pairs_map_absent(entries@, key);
                }
                let ghost before = entries@;
                entries.push((key, value));
                assert(entries@.drop_last() =~= before);
            }
            i = i + 1;
        }
        assert(pairs@.take(pairs.len() as int) =~= pairs@);
        WeightTable { entries }
    }

    /// The weight of `c`, or `default` when the table has none.
    pub fn get_or(&self, c: char, default: u32) -> (w: u32)
        requires
            self.wf(),
        ensures
            w == (if self@.contains_key(c) { self@[c] } else { default }),
    {
        match find_char(&self.entries, c) {
            Some(j) => {
                proof {
                    lemma_pairs_map_lookup(self.entries@, j as int);
                }
                self.entries[j].1
            },
            None => {
                proof {
                    lemma_pairs_map_absent(self.entries@, c);
                }
                default
            },
        }
    }
}

/// A map from character sequences (n-grams) to counts.
#[derive(Clone, Debug)]
pub struct GramTable {
    entries: Vec<(Vec<char>, u32)>,
}

impl View for GramTable {
    type V = Map<Seq<char>, u32>;

    closed spec fn view(&self) -> Map<Seq<char>, u32> {
        pairs_map(gram_entries(self.entries@))
    }
}

impl GramTable {
    /// The table's invariant: distinct keys, and few enough entries that
    /// their sum fits in a `u64`.
    pub closed spec fn wf(&self) -> bool {
        &&& keys_distinct(gram_entries(self.entries@))
        &&& self.entries@.len() <= u32::MAX
    }

    /// The sum of all counts.
    pub closed spec fn total(&self) -> nat {
        value_sum(gram_entries(self.entries@))
    }

    /// The number of distinct n-grams held.
    pub closed spec fn size(&self) -> nat {
        self.entries@.len()
    }

    /// The table holding `pairs` (a later pair replacing an earlier one with
    /// the same key).
    pub fn from_pairs(pairs: &[(&str, u32)]) -> (t: Self)
        requires
            pairs@.len() <= u32::MAX,
        ensures
            t.wf(),
            t@ == pairs_map(str_pairs(pairs@)),
    {
        let mut entries: Vec<(Vec<char>, u32)> = Vec::new();
        let mut i: usize = 0;
        while i < pairs.len()
            invariant
                i <= pairs.len(),
                pairs@.len() <= u32::MAX,
                entries@.len() <= i,
                keys_distinct(gram_entries(entries@)),
                pairs_map(gram_entries(entries@)) == pairs_map(str_pairs(pairs@.take(i as int))),
            decreases pairs.len() - i,
        {
            let (name, value) = pairs[i];
            let key = chars_of(name);
            assert(str_pairs(pairs@.take(i + 1)).drop_last() =~= str_pairs(pairs@.take(i as int)));
            assert(str_pairs(pairs@.take(i + 1)).last() == (key@, value));
            let ghost before = gram_entries(entries@);
            if let Some(j) = find_gram(&entries, &key) {
                proof {
                    lemma_pairs_map_update(before, j as int, value);
                }
                entries.set(j, (key, value));
                assert(gram_entries(entries@) =~= before.update(j as int, (before[j as int].0, value)));
            } else {
                proof {
                    lemma_pairs_map_absent(before, key@);
                }
                entries.push((key, value));
                assert(gram_entries(entries@) =~= before.push((key@, value)));
                assert(gram_entries(entries@).drop_last() =~= before);
            }
            i = i + 1;
        }
        assert(pairs@.take(pairs.len() as int) =~= pairs@);
        GramTable { entries }
    }

    /// The count of `gram`, or `0` when the table has none.
    pub fn count(&self, gram: &[char]) -> (n: u32)
        requires
            self.wf(),
        ensures
            n == (if self@.contains_key(gram@) { self@[gram@] } else { 0 }),
    {
        match find_gram(&self.entries, gram) {
            Some(j) => {
                proof {
                    lemma_pairs_map_lookup(gram_entries(self.entries@), j as int);
                }
                self.entries[j].1
            },
            None => {
                proof {
                    lemma_pairs_map_absent(gram_entries(self.entries@), gram@);
                }
                0
            },
        }
    }

    /// The number of distinct n-grams held.
    pub fn len(&self) -> (n: usize)
        ensures
            n == self.size(),
    {
        self.entries.len()
    }

    /// The sum of all counts.
    pub fn sum(&self) -> (s: u64)
        requires
            self.wf(),
        ensures
            s == self.total(),
    {
        let ghost e = gram_entries(self.entries@);
        let mut total: u64 = 0;
        let mut i: usize = 0;
        while i < self.entries.len()
            invariant
                e == gram_entries(self.entries@),
                self.entries@.len() <= u32::MAX,
                i <= self.entries@.len(),
                total == value_sum(e.take(i as int)),
                total <= i * 4294967295,
            decreases self.entries.len() - i,
        {
            assert(e.take(i + 1).drop_last() =~= e.take(i as int));
            total = total + self.entries[i].1 as u64;
            i = i + 1;
        }
        assert(e.take(self.entries.len() as int) =~= e);
        total
    }
}

} // verus!
