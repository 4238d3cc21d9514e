//! Occurrence counts kept in ordered maps: the count of a key sequence, one
//! more occurrence, and the merge of two counts.
use vstd::prelude::*;
use vstd::string::*;
use std::collections::BTreeMap;

use crate::text::str_eq;

verus! {

/// Number of occurrences of `k` in `keys`.
pub open spec fn occurrences<K>(keys: Seq<K>, k: K) -> nat
    decreases keys.len(),
{
    if keys.len() == 0 {
        0
    } else {
        occurrences(keys.drop_last(), k) + if keys.last() == k {
            1nat
        } else {
            0nat
        }
    }
}

/// How often each key of `keys` occurs; keys that do not occur are absent.
pub open spec fn tally<K>(keys: Seq<K>) -> Map<K, u64> {
    Map::new(|k: K| keys.contains(k), |k: K| occurrences(keys, k) as u64)
}

/// The count of a key in a count map, zero when absent.
pub open spec fn count_in<K>(m: Map<K, u64>, k: K) -> int {
    if m.contains_key(k) {
        m[k] as int
    } else {
        0
    }
}

/// The key-wise sum of two count maps.
pub open spec fn merged<K>(a: Map<K, u64>, b: Map<K, u64>) -> Map<K, u64> {
    Map::new(
        |k: K| a.contains_key(k) || b.contains_key(k),
        |k: K| (count_in(a, k) + count_in(b, k)) as u64,
    )
}

/// A key occurs at most as often as there are keys, and occurs iff it is present.
pub proof fn lemma_occurrences_bounds<K>(keys: Seq<K>, k: K)
    ensures
        occurrences(keys, k) <= keys.len(),
        keys.contains(k) <==> occurrences(keys, k) > 0,
    decreases keys.len(),
{
    if keys.len() > 0 {
        lemma_occurrences_bounds(keys.drop_last(), k);
        if keys.contains(k) && keys.last() != k {
            let i = choose|i: int| 0 <= i < keys.len() && keys[i] == k;
            assert(keys.drop_last()[i] == k);
        }
        if keys.drop_last().contains(k) {
            let i = choose|i: int| 0 <= i < keys.drop_last().len() && keys.drop_last()[i] == k;
            assert(keys[i] == k);
        }
        if keys.last() == k {
            assert(keys[keys.len() - 1] == k);
        }
    }
}

/// Counting one more key raises its count by one.
pub proof fn lemma_tally_push<K>(keys: Seq<K>, k: K)
    requires
        keys.len() < u64::MAX,
    ensures
        tally(keys.push(k)) == tally(keys).insert(k, (occurrences(keys, k) + 1) as u64),
{
    let p = keys.push(k);
    assert(p.drop_last() =~= keys);
    assert forall|j: K| p.contains(j) <==> (keys.contains(j) || j == k) by {
        if p.contains(j) && j != k {
            let i = choose|i: int| 0 <= i < p.len() && p[i] == j;
            assert(keys[i] == j);
        }
        if keys.contains(j) {
            let i = choose|i: int| 0 <= i < keys.len() && keys[i] == j;
            assert(p[i] == j);
        }
        if j == k {
            assert(p[keys.len() as int] == k);
        }
    }
    assert(tally(keys.push(k)) =~= tally(keys).insert(k, (occurrences(keys, k) + 1) as u64));
}

/// Occurrences in a concatenation add up.
pub proof fn lemma_occurrences_concat<K>(a: Seq<K>, b: Seq<K>, k: K)
    ensures
        occurrences(a + b, k) == occurrences(a, k) + occurrences(b, k),
    decreases b.len(),
{
    if b.len() == 0 {
        assert(a + b =~= a);
    } else {
        lemma_occurrences_concat(a, b.drop_last(), k);
        assert((a + b).drop_last() =~= a + b.drop_last());
    }
}

/// Counting two key sequences one after the other is merging their counts.
pub proof fn lemma_tally_concat<K>(a: Seq<K>, b: Seq<K>)
    requires
        a.len() + b.len() <= u64::MAX,
    ensures
        tally(a + b) == merged(tally(a), tally(b)),
        forall|k: K| #[trigger] count_in(tally(a), k) + count_in(tally(b), k) <= a.len() + b.len(),
{
    assert forall|k: K| #[trigger] count_in(tally(a), k) + count_in(tally(b), k) == occurrences(a + b, k) by {
        lemma_occurrences_concat(a, b, k);
        lemma_occurrences_bounds(a, k);
        lemma_occurrences_bounds(b, k);
    }
    assert forall|k: K| #[trigger] count_in(tally(a), k) + count_in(tally(b), k) <= a.len() + b.len() by {
        lemma_occurrences_bounds(a + b, k);
    }
    assert forall|k: K| (a + b).contains(k) <==> (a.contains(k) || b.contains(k)) by {
        lemma_occurrences_concat(a, b, k);
        lemma_occurrences_bounds(a, k);
        lemma_occurrences_bounds(b, k);
        lemma_occurrences_bounds(a + b, k);
    }
    assert(tally(a + b) =~= merged(tally(a), tally(b)));
}

/// The distinct keys of `keys`, each where it first occurs.
pub open spec fn first_seen<K>(keys: Seq<K>) -> Seq<K>
    decreases keys.len(),
{
    if keys.len() == 0 {
        Seq::empty()
    } else {
        let f = first_seen(keys.drop_last());
        if f.contains(keys.last()) {
            f
        } else {
            f.push(keys.last())
        }
    }
}

/// The first-seen keys hold each key of `keys` once, and nothing else.
pub proof fn lemma_first_seen<K>(keys: Seq<K>)
    ensures
        first_seen(keys).no_duplicates(),
        forall|k: K| #[trigger] first_seen(keys).contains(k) <==> keys.contains(k),
    decreases keys.len(),
{
    if keys.len() > 0 {
        let d = keys.drop_last();
        lemma_first_seen(d);
        assert forall|k: K| keys.contains(k) <==> (d.contains(k) || k == keys.last()) by {
            if keys.contains(k) && k != keys.last() {
                let i = choose|i: int| 0 <= i < keys.len() && keys[i] == k;
                assert(d[i] == k);
            }
            if d.contains(k) {
                let i = choose|i: int| 0 <= i < d.len() && d[i] == k;
                assert(keys[i] == k);
            }
            if k == keys.last() {
                assert(keys[keys.len() - 1] == k);
            }
        }
        let f = first_seen(d);
        if !f.contains(keys.last()) {
            assert forall|k: K| f.push(keys.last()).contains(k) <==> (f.contains(k) || k == keys.last()) by {
                if f.push(keys.last()).contains(k) && k != keys.last() {
                    let i = choose|i: int| 0 <= i < f.len() + 1 && f.push(keys.last())[i] == k;
                    assert(f[i] == k);
                }
                if f.contains(k) {
                    let i = choose|i: int| 0 <= i < f.len() && f[i] == k;
                    assert(f.push(keys.last())[i] == k);
                }
                if k == keys.last() {
                    assert(f.push(keys.last())[f.len() as int] == k);
                }
            }
        }
        assert forall|k: K| #[trigger] first_seen(keys).contains(k) <==> keys.contains(k) by {
            assert(f.contains(k) <==> d.contains(k));
        }
    }
}

/// The key-wise sum of a sequence of count maps.
pub open spec fn summed<K>(ms: Seq<Map<K, u64>>) -> Map<K, u64>
    decreases ms.len(),
{
    if ms.len() == 0 {
        Map::empty()
    } else {
        merged(summed(ms.drop_last()), ms.last())
    }
}

/// Nothing is counted in no keys.
pub proof fn lemma_tally_empty<K>()
    ensures
        tally(Seq::<K>::empty()) == Map::<K, u64>::empty(),
{
    assert(tally(Seq::<K>::empty()) =~= Map::<K, u64>::empty());
}

/// Counts one more occurrence of `k` in `m`, which counts `keys`.
pub(crate) fn bump<K: Ord + Copy>(m: &mut BTreeMap<K, u64>, k: K, Ghost(keys): Ghost<Seq<K>>)
    requires
        ordered_keys::<K>(),
        old(m)@ == tally(keys),
        keys.len() < u64::MAX,
    ensures
        final(m)@ == tally(keys.push(k)),
{
    proof {
        lemma_occurrences_bounds(keys, k);
        lemma_tally_push(keys, k);
    }
    let c: u64 = match m.get(&k) {
        Some(v) => *v,
        None => 0,
    };
    m.insert(k, c + 1);
}

/// Keys of type `K` are totally ordered the way `Ord` says.
pub open spec fn ordered_keys<K: Ord>() -> bool {
    vstd::laws_cmp::obeys_cmp::<K>()
}

/// The key of entry `j` of an ordered-map walk.
pub open spec fn walked_key<K>(s: Seq<(&K, &u64)>, j: int) -> K {
    *s[j].0
}

/// Key `k` is among the first `n` entries of an ordered-map walk.
pub open spec fn walked<K>(s: Seq<(&K, &u64)>, n: int, k: K) -> bool {
    exists|j: int| 0 <= j < n && walked_key(s, j) == k
}

/// Adds every count of `source` to `target`.
pub fn merge_map<K: Ord + Copy>(target: &mut BTreeMap<K, u64>, source: &BTreeMap<K, u64>)
    requires
        ordered_keys::<K>(),
        forall|k: K| #[trigger]
            count_in(old(target)@, k) + count_in(source@, k) <= u64::MAX,
    ensures
        final(target)@ == merged(old(target)@, source@),
{
    let ghost t0 = target@;
    let ghost src = source@;
    let ghost mut done: Set<K> = Set::empty();
    for kv in it: source.iter()
        invariant
            ordered_keys::<K>(),
            src == source@,
            forall|k: K| #[trigger] count_in(t0, k) + count_in(src, k) <= u64::MAX,
            it.seq().no_duplicates(),
            forall|j: int|
                0 <= j < it.seq().len() ==> src.contains_key(walked_key(it.seq(), j))
                    && src[walked_key(it.seq(), j)] == *it.seq()[j].1,
            forall|k: K| src.contains_key(k) ==> it.seq().contains((&k, &src[k])),
            forall|k: K|
                #[trigger] src.contains_key(k) ==> done.contains(k) || exists|j: int|
                    it.index() <= j < it.seq().len() && it.seq()[j] == (&k, &src[k]),
            forall|k: K| done.contains(k) <==> walked(it.seq(), it.index() as int, k),
            target@ == Map::new(
                |k: K| t0.contains_key(k) || done.contains(k),
                |k: K|
                    (count_in(t0, k) + if done.contains(k) {
                        count_in(src, k)
                    } else {
                        0
                    }) as u64,
            ),
    {
        let ghost idx = it.index() as int;
        let ghost sq = it.seq();
        let (k, c) = kv;
        assert(sq[idx] == kv);
        assert(walked_key(sq, idx) == *k);
        proof {
            if done.contains(*k) {
                let j = choose|j: int| 0 <= j < idx && walked_key(sq, j) == *k;
                assert(sq[j] == sq[idx]);
                assert(false);
            }
        }
        let old_count: u64 = match target.get(k) {
            Some(v) => *v,
            None => 0,
        };
        assert(old_count == count_in(t0, *k));
        assert(count_in(t0, *k) + count_in(src, *k) <= u64::MAX);
        target.insert(*k, old_count + *c);
        proof {
            done = done.insert(*k);
            assert forall|x: K| done.contains(x) <==> walked(sq, idx + 1, x) by {
                if walked(sq, idx + 1, x) && x != *k {
                    let j = choose|j: int| 0 <= j < idx + 1 && walked_key(sq, j) == x;
                    assert(walked_key(sq, j) == x);
                }
                if walked(sq, idx, x) {
                    let j = choose|j: int| 0 <= j < idx && walked_key(sq, j) == x;
                    assert(walked_key(sq, j) == x);
                }
                if x == *k {
                    assert(walked_key(sq, idx) == x);
                }
            }
            assert forall|x: K| #[trigger] src.contains_key(x) implies done.contains(x) || exists|j: int|
                idx + 1 <= j < sq.len() && sq[j] == (&x, &src[x]) by {
                if !done.contains(x) {
                    let j = choose|j: int| idx <= j < sq.len() && sq[j] == (&x, &src[x]);
                    assert(j != idx);
                }
            }
        }
        assert(target@ =~= Map::new(
            |x: K| t0.contains_key(x) || done.contains(x),
            |x: K|
                (count_in(t0, x) + if done.contains(x) {
                    count_in(src, x)
                } else {
                    0
                }) as u64,
        ));
    }
    assert forall|k: K| src.contains_key(k) implies done.contains(k) by {}
    assert forall|k: K| done.contains(k) implies src.contains_key(k) by {}
    assert(target@ =~= merged(t0, src));
}

/// Each key of `keys` counted once.
pub open spec fn presence<K>(keys: Seq<K>) -> Map<K, u64> {
    Map::new(|k: K| keys.contains(k), |k: K| 1u64)
}

/// The names of a list of named counts.
pub open spec fn counted_names(v: Seq<(String, u64)>) -> Seq<Seq<char>> {
    v.map_values(|e: (String, u64)| e.0@)
}

/// The counts of a list of named counts, by name (a later entry wins).
pub open spec fn counts_view(v: Seq<(String, u64)>) -> Map<Seq<char>, u64>
    decreases v.len(),
{
    if v.len() == 0 {
        Map::empty()
    } else {
        counts_view(v.drop_last()).insert(v.last().0@, v.last().1)
    }
}

/// With each name listed once, every entry is its name's count, and the
/// names counted are those listed.
pub proof fn lemma_counts_view(v: Seq<(String, u64)>)
    requires
        counted_names(v).no_duplicates(),
    ensures
        forall|j: int| 0 <= j < v.len() ==> counts_view(v)[#[trigger] v[j].0@] == v[j].1,
        forall|k: Seq<char>| #[trigger] counts_view(v).contains_key(k) <==> counted_names(v).contains(k),
    decreases v.len(),
{
    if v.len() > 0 {
        let d = v.drop_last();
        let n = counted_names(v);
        assert(counted_names(d) =~= n.drop_last());
        assert(counted_names(d).no_duplicates()) by {
            assert forall|a: int, b: int| 0 <= a < b < counted_names(d).len() implies counted_names(d)[a]
                != counted_names(d)[b] by {
                assert(n[a] != n[b]);
            }
        }
        lemma_counts_view(d);
        assert forall|j: int| 0 <= j < v.len() implies counts_view(v)[#[trigger] v[j].0@] == v[j].1 by {
            if j < v.len() - 1 {
                assert(n[j] != n[v.len() - 1]);
                assert(d[j] == v[j]);
            }
        }
        assert forall|k: Seq<char>| #[trigger] counts_view(v).contains_key(k) <==> n.contains(k) by {
            assert(counts_view(d).contains_key(k) == counted_names(d).contains(k));
            if n.contains(k) && k != v.last().0@ {
                let i = choose|i: int| 0 <= i < n.len() && n[i] == k;
                assert(counted_names(d)[i] == k);
            }
            if counted_names(d).contains(k) {
                let i = choose|i: int| 0 <= i < counted_names(d).len() && counted_names(d)[i] == k;
                assert(n[i] == k);
            }
            if k == v.last().0@ {
                assert(n[v.len() - 1] == k);
            }
        }
    }
}

/// Counters kept by name, each name once, in the order names were first
/// counted.
#[derive(Debug)]
pub struct NamedCounts {
    entries: Vec<(String, u64)>,
}

impl View for NamedCounts {
    type V = Map<Seq<char>, u64>;

    closed spec fn view(&self) -> Map<Seq<char>, u64> {
        counts_view(self.entries@)
    }
}

/// Where in `v` the name is counted, if anywhere.
fn find_name(v: &Vec<(String, u64)>, name: &str) -> (r: Option<usize>)
    ensures
        r matches Some(j) ==> j < v@.len() && v@[j as int].0@ == name@,
        r is None ==> !counted_names(v@).contains(name@),
{
    let mut j: usize = 0;
    while j < v.len()
        invariant
            j <= v@.len(),
            forall|i: int| 0 <= i < j ==> v@[i].0@ != name@,
        decreases v.len() - j,
    {
        if str_eq(v[j].0.as_str(), name) {
            return Some(j);
        }
        j += 1;
    }
    proof {
        if counted_names(v@).contains(name@) {
            let i = choose|i: int| 0 <= i < counted_names(v@).len() && counted_names(v@)[i] == name@;
            assert(v@[i].0@ == name@);
        }
    }
    None
}

impl NamedCounts {
    #[verifier::type_invariant]
    spec fn names_once(self) -> bool {
        counted_names(self.entries@).no_duplicates()
    }

    /// No counters yet.
    pub fn new() -> (c: Self)
        ensures
            c@ == Map::<Seq<char>, u64>::empty(),
    {
        let c = NamedCounts { entries: Vec::new() };
        assert(counted_names(c.entries@) =~= Seq::<Seq<char>>::empty());
        c
    }

    /// The counters, each name once, in the order names were first counted.
    pub fn entries(&self) -> (r: &Vec<(String, u64)>)
        ensures
            counts_view(r@) == self@,
            counted_names(r@).no_duplicates(),
    {
        proof {
            use_type_invariant(self);
        }
        &self.entries
    }

    /// Adds `n` to the counter of `name`, which starts at zero.
    pub fn add(&mut self, name: &str, n: u64)
        requires
            count_in(old(self)@, name@) + n <= u64::MAX,
        ensures
            final(self)@ == old(self)@.insert(name@, (count_in(old(self)@, name@) + n) as u64),
    {
        proof {
            use_type_invariant(&*self);
        }
        let mut v: Vec<(String, u64)> = Vec::new();
        std::mem::swap(&mut v, &mut self.entries);
        let ghost old_v = v@;
        let ghost names = counted_names(old_v);
        proof {
            lemma_counts_view(old_v);
        }
        match find_name(&v, name) {
            Some(j) => {
                let c = v[j].1;
                proof {
                    assert(names[j as int] == name@);
                }
                v.set(j, (String::from_str(name), c + n));
                proof {
                    assert(counted_names(v@) =~= names);
                    lemma_counts_view(v@);
                    assert forall|k: Seq<char>| #[trigger] counts_view(v@).contains_key(k)
                        <==> counts_view(old_v).insert(name@, (c + n) as u64).contains_key(k) by {
                        assert(names.contains(name@) == true) by {
                            assert(names[j as int] == name@);
                        }
                    }
                    assert forall|k: Seq<char>| #[trigger] counts_view(v@).contains_key(k) implies counts_view(v@)[k]
                        == counts_view(old_v).insert(name@, (c + n) as u64)[k] by {
                        let i = choose|i: int| 0 <= i < names.len() && names[i] == k;
                        assert(v@[i].0@ == k);
                        if i != j {
                            assert(old_v[i].0@ == k);
                        }
                    }
                    assert(counts_view(v@) =~= counts_view(old_v).insert(name@, (c + n) as u64));
                }
            },
            None => {
                v.push((String::from_str(name), n));
                proof {
                    assert(v@.drop_last() =~= old_v);
                    assert(counted_names(v@) =~= names.push(name@));
                    assert(counted_names(v@).no_duplicates()) by {
                        assert forall|a: int, b: int| 0 <= a < b < counted_names(v@).len() implies counted_names(
                            v@,
                        )[a] != counted_names(v@)[b] by {
                            if b == names.len() {
                                assert(names[a] != name@) by {
                                    if names[a] == name@ {
                                        assert(names.contains(name@));
                                    }
                                }
                            }
                        }
                    }
                }
            },
        }
        self.entries = v;
    }
}

} // verus!
