//! The text report of a generator-level survey: fixed-key count tables,
//! filtered tables walked in increasing key order, the most frequent codes,
//! and the string-keyed counts of the JSON summary.
use vstd::prelude::*;
use std::collections::BTreeMap;
use vstd::std_specs::cmp::{OrdSpec, PartialOrdSpec};
use vstd::std_specs::iter::IteratorSpec;

use crate::genpart_survey::{
    example_indices, interest_pdg, is_interest_pdg, lemma_picks_bounds, mother_pdg, particle_of_interest, picks, recommendation,
    survey_recommendation, GenPartSurvey, SurveyedEvent, KEY_PDGS,
};
use crate::tally::{count_in, ordered_keys, walked_key};
use crate::text::{decimal, push_decimal, push_signed, push_str, signed_decimal};

verus! {

/// `ks` lists the keys of `m` once each, in increasing key order: the order
/// in which an ordered map walks them.
pub open spec fn in_key_order<K>(ks: Seq<K>, m: Map<K, u64>) -> bool {
    &&& ks.no_duplicates()
    &&& ks.to_set() == m.dom()
    &&& vstd::std_specs::btree::increasing_seq(ks)
}

proof fn lemma_less_is_asymmetric<K: Ord>(a: K, b: K)
    requires
        ordered_keys::<K>(),
        a.cmp_spec(&b) is Less,
    ensures
        !(b.cmp_spec(&a) is Less),
{
    reveal(vstd::laws_cmp::obeys_cmp_ord);
    reveal(vstd::laws_cmp::obeys_partial_cmp_spec_properties);
    assert(a.partial_cmp_spec(&b) == Some(a.cmp_spec(&b)));
    assert(b.partial_cmp_spec(&a) == Some(b.cmp_spec(&a)));
}

proof fn lemma_increasing_orders_agree<K: Ord>(s: Seq<K>, t: Seq<K>)
    requires
        ordered_keys::<K>(),
        s.no_duplicates(),
        t.no_duplicates(),
        s.to_set() == t.to_set(),
        forall|i: int, j: int| #![trigger s[i], s[j]] 0 <= i < j < s.len() ==> s[i].cmp_spec(&s[j]) is Less,
        forall|i: int, j: int| #![trigger t[i], t[j]] 0 <= i < j < t.len() ==> t[i].cmp_spec(&t[j]) is Less,
    ensures
        s == t,
    decreases s.len(),
{
    s.unique_seq_to_set();
    t.unique_seq_to_set();
    if s.len() == 0 {
        assert(t =~= s);
    } else {
        assert(s.to_set().contains(s[0]));
        assert(t.contains(s[0]));
        let k = choose|k: int| 0 <= k < t.len() && t[k] == s[0];
        if k > 0 {
            assert(s.to_set().contains(t[0]));
            assert(s.contains(t[0]));
            let m = choose|m: int| 0 <= m < s.len() && s[m] == t[0];
            assert(m != 0);
            assert(s[0].cmp_spec(&s[m]) is Less);
            assert(t[0].cmp_spec(&t[k]) is Less);
            lemma_less_is_asymmetric(t[0], t[k]);
            assert(false);
        }
        let s1 = s.drop_first();
        let t1 = t.drop_first();
        assert forall|x: K| s1.to_set().contains(x) <==> t1.to_set().contains(x) by {
            if s1.to_set().contains(x) {
                assert(s1.contains(x));
                let i = choose|i: int| 0 <= i < s1.len() && s1[i] == x;
                assert(s[i + 1] == x);
                assert(s.contains(x));
                assert(s.to_set().contains(x));
                assert(t.to_set().contains(x));
                assert(t.contains(x));
                let j = choose|j: int| 0 <= j < t.len() && t[j] == x;
                assert(j != 0);
                assert(t1[j - 1] == x);
            }
            if t1.to_set().contains(x) {
                assert(t1.contains(x));
                let i = choose|i: int| 0 <= i < t1.len() && t1[i] == x;
                assert(t[i + 1] == x);
                assert(t.contains(x));
                assert(t.to_set().contains(x));
                assert(s.to_set().contains(x));
                assert(s.contains(x));
                let j = choose|j: int| 0 <= j < s.len() && s[j] == x;
                assert(j != 0);
                assert(s1[j - 1] == x);
            }
        }
        assert(s1.to_set() =~= t1.to_set());
        assert forall|i: int, j: int| #![trigger s1[i], s1[j]] 0 <= i < j < s1.len() implies s1[i].cmp_spec(&s1[j]) is Less by {
            assert(s1[i] == s[i + 1] && s1[j] == s[j + 1]);
        }
        assert forall|i: int, j: int| #![trigger t1[i], t1[j]] 0 <= i < j < t1.len() implies t1[i].cmp_spec(&t1[j]) is Less by {
            assert(t1[i] == t[i + 1] && t1[j] == t[j + 1]);
        }
        lemma_increasing_orders_agree(s1, t1);
        assert(t[0] == s[0]);
        assert(s.len() == t.len());
        assert forall|i: int| 0 <= i < s.len() implies s[i] == t[i] by {
            if i > 0 {
                assert(s[i] == s1[i - 1]);
                assert(t[i] == t1[i - 1]);
            }
        }
        assert(s =~= t);
    }
}

/// The increasing key order of a count map is unique: two key lists that
/// both list the map's keys once each in increasing order are the same list.
pub proof fn law_key_order_is_unique<K: Ord>(ks: Seq<K>, other: Seq<K>, m: Map<K, u64>)
    requires
        ordered_keys::<K>(),
        in_key_order(ks, m),
        in_key_order(other, m),
    ensures
        ks == other,
{
    broadcast use vstd::std_specs::btree::group_btree_axioms;
    lemma_increasing_orders_agree(ks, other);
}

/// The rows `row` writes for the keys `ks` of `m`, in that order.
pub open spec fn table_rows<K>(ks: Seq<K>, m: Map<K, u64>, row: spec_fn(K, u64) -> Seq<char>) -> Seq<char>
    decreases ks.len(),
{
    if ks.len() == 0 {
        Seq::empty()
    } else {
        table_rows(ks.drop_last(), m, row) + row(ks.last(), m[ks.last()])
    }
}

/// A row of the mother -> daughter table: kept where either code is of interest.
pub open spec fn relation_row(k: (i32, i32), c: u64) -> Seq<char> {
    if interest_pdg(k.0) || interest_pdg(k.1) {
        "  "@ + signed_decimal(k.0 as int) + "->"@ + signed_decimal(k.1 as int) + ": "@ + decimal(c as nat) + "\n"@
    } else {
        Seq::empty()
    }
}

/// The keys seen by a walk over an ordered map, in walk order.
pub open spec fn walk_keys<K>(s: Seq<(&K, &u64)>) -> Seq<K> {
    Seq::new(s.len(), |j: int| walked_key(s, j))
}

/// The walk over an ordered map visits its keys once each, in increasing order.
proof fn lemma_walk_in_key_order<K>(s: Seq<(&K, &u64)>, m: Map<K, u64>)
    requires
        s.no_duplicates(),
        vstd::std_specs::btree::increasing_seq(walk_keys(s)),
        forall|j: int| 0 <= j < s.len() ==> m.contains_key(walked_key(s, j)) && m[walked_key(s, j)] == *s[j].1,
        forall|k: K| m.contains_key(k) ==> s.contains((&k, &m[k])),
    ensures
        in_key_order(walk_keys(s), m),
{
    let ks = walk_keys(s);
    assert forall|i: int, j: int| 0 <= i < ks.len() && 0 <= j < ks.len() && i != j implies ks[i] != ks[j] by {
        if ks[i] == ks[j] {
            assert(s[i] == s[j]);
        }
    }
    assert forall|k: K| ks.to_set().contains(k) <==> m.dom().contains(k) by {
        if m.contains_key(k) {
            let j = choose|j: int| 0 <= j < s.len() && s[j] == (&k, &m[k]);
            assert(ks[j] == k);
        }
        if ks.to_set().contains(k) {
            assert(ks.contains(k));
            let j = choose|j: int| 0 <= j < ks.len() && ks[j] == k;
            assert(m.contains_key(walked_key(s, j)));
        }
    }
    assert(ks.to_set() =~= m.dom());
}

/// The keys of a list of entries, in order.
pub open spec fn entry_keys<K>(v: Seq<(K, u64)>) -> Seq<K> {
    Seq::new(v.len(), |i: int| v[i].0)
}

/// `v` holds the entries of `m`, in increasing key order.
pub open spec fn entries_of<K>(v: Seq<(K, u64)>, m: Map<K, u64>) -> bool {
    &&& in_key_order(entry_keys(v), m)
    &&& forall|i: int| 0 <= i < v.len() ==> #[trigger] m[v[i].0] == v[i].1
}

/// The entries of an ordered count map, in its walk order.
pub fn entries_in_order<K: Ord + Copy>(counts: &BTreeMap<K, u64>) -> (v: Vec<(K, u64)>)
    requires
        ordered_keys::<K>(),
    ensures
        entries_of(v@, counts@),
{
    let ghost m = counts@;
    let iter = counts.iter();
    proof {
        broadcast use vstd::std_specs::btree::group_btree_axioms;
        assert(walk_keys(iter.remaining()) =~= iter.remaining().map_values(|kv: (&K, &u64)| *kv.0));
    }
    let ghost walk = iter.remaining();
    let mut v: Vec<(K, u64)> = Vec::new();
    for kv in it: iter
        invariant
            m == counts@,
            it.seq() == walk,
            walk.no_duplicates(),
            vstd::std_specs::btree::increasing_seq(walk_keys(walk)),
            forall|j: int|
                0 <= j < walk.len() ==> m.contains_key(walked_key(walk, j))
                    && m[walked_key(walk, j)] == *walk[j].1,
            forall|k: K| m.contains_key(k) ==> walk.contains((&k, &m[k])),
            v@.len() == it.index(),
            forall|j: int| 0 <= j < v@.len() ==> #[trigger] v@[j] == (walked_key(walk, j), *walk[j].1),
    {
        let ghost idx = it.index() as int;
        let (k, c) = kv;
        assert(walk[idx] == kv);
        v.push((*k, *c));
    }
    proof {
        lemma_walk_in_key_order(walk, m);
        assert(entry_keys(v@) =~= walk_keys(walk));
        assert forall|i: int| 0 <= i < v@.len() implies #[trigger] m[v@[i].0] == v@[i].1 by {
            assert(v@[i] == (walked_key(walk, i), *walk[i].1));
        }
    }
    v
}

fn write_relation_row(out: &mut String, k: (i32, i32), c: u64)
    ensures
        final(out)@ == old(out)@ + relation_row(k, c),
{
    if is_interest_pdg(k.0) || is_interest_pdg(k.1) {
        push_str(out, "  ");
        push_signed(out, k.0 as i64);
        push_str(out, "->");
        push_signed(out, k.1 as i64);
        push_str(out, ": ");
        push_decimal(out, c);
        push_str(out, "\n");
    } else {
        assert(old(out)@ + Seq::<char>::empty() =~= old(out)@);
    }
}

/// Writes the mother -> daughter counts in which a code of interest takes part.
pub fn write_relation_table(out: &mut String, title: &str, counts: &BTreeMap<(i32, i32), u64>)
    ensures
        exists|ks: Seq<(i32, i32)>|
            in_key_order(ks, counts@) && final(out)@ == old(out)@ + title@ + ":\n"@ + table_rows(
                ks,
                counts@,
                |k: (i32, i32), c: u64| relation_row(k, c),
            ),
{
    push_str(out, title);
    push_str(out, ":\n");
    let ghost start = out@;
    let entries = entries_in_order(counts);
    let ghost ks = entry_keys(entries@);
    let mut i: usize = 0;
    while i < entries.len()
        invariant
            entries_of(entries@, counts@),
            ks == entry_keys(entries@),
            i <= entries@.len(),
            out@ == start + table_rows(ks.take(i as int), counts@, |k: (i32, i32), c: u64| relation_row(k, c)),
        decreases entries.len() - i,
    {
        let (k, c) = entries[i];
        assert(counts@[entries@[i as int].0] == entries@[i as int].1);
        write_relation_row(out, k, c);
        proof {
            assert(ks.take(i + 1).drop_last() =~= ks.take(i as int));
            assert(ks.take(i + 1).last() == k);
        }
        i += 1;
    }
    assert(ks.take(ks.len() as int) =~= ks);
}

/// A row of the status table: kept where the code is of interest.
pub open spec fn status_row(k: (i32, i32), c: u64) -> Seq<char> {
    if interest_pdg(k.0) {
        "  "@ + signed_decimal(k.0 as int) + ":"@ + signed_decimal(k.1 as int) + ": "@ + decimal(c as nat) + "\n"@
    } else {
        Seq::empty()
    }
}

/// A row of the statusFlags table: kept where the code is of interest.
pub open spec fn flags_row(k: (i32, u16), c: u64) -> Seq<char> {
    if interest_pdg(k.0) {
        "  "@ + signed_decimal(k.0 as int) + ":"@ + decimal(k.1 as nat) + ": "@ + decimal(c as nat) + "\n"@
    } else {
        Seq::empty()
    }
}

/// A row of the status + statusFlags table: kept where the code is of interest.
pub open spec fn status_flags_row(k: (i32, i32, u16), c: u64) -> Seq<char> {
    if interest_pdg(k.0) {
        "  "@ + signed_decimal(k.0 as int) + ":"@ + signed_decimal(k.1 as int) + ":"@ + decimal(k.2 as nat)
            + ": "@ + decimal(c as nat) + "\n"@
    } else {
        Seq::empty()
    }
}

/// A row `  key: count`.
pub open spec fn count_row(k: i32, c: int) -> Seq<char> {
    "  "@ + signed_decimal(k as int) + ": "@ + decimal(c as nat) + "\n"@
}

/// The rows of the fixed keys `keys`, each with its count in `m` (0 when absent).
pub open spec fn count_rows(keys: Seq<i32>, m: Map<i32, u64>) -> Seq<char>
    decreases keys.len(),
{
    if keys.len() == 0 {
        Seq::empty()
    } else {
        count_rows(keys.drop_last(), m) + count_row(keys.last(), count_in(m, keys.last()))
    }
}

/// The rows of a ranked list of (code, count) pairs.
pub open spec fn ranked_rows(v: Seq<(i32, u64)>) -> Seq<char>
    decreases v.len(),
{
    if v.len() == 0 {
        Seq::empty()
    } else {
        ranked_rows(v.drop_last()) + count_row(v.last().0, v.last().1 as int)
    }
}

fn write_status_row(out: &mut String, k: (i32, i32), c: u64)
    ensures
        final(out)@ == old(out)@ + status_row(k, c),
{
    if is_interest_pdg(k.0) {
        push_str(out, "  ");
        push_signed(out, k.0 as i64);
        push_str(out, ":");
        push_signed(out, k.1 as i64);
        push_str(out, ": ");
        push_decimal(out, c);
        push_str(out, "\n");
    } else {
        assert(old(out)@ + Seq::<char>::empty() =~= old(out)@);
    }
}

fn write_flags_row(out: &mut String, k: (i32, u16), c: u64)
    ensures
        final(out)@ == old(out)@ + flags_row(k, c),
{
    if is_interest_pdg(k.0) {
        push_str(out, "  ");
        push_signed(out, k.0 as i64);
        push_str(out, ":");
        push_decimal(out, k.1 as u64);
        push_str(out, ": ");
        push_decimal(out, c);
        push_str(out, "\n");
    } else {
        assert(old(out)@ + Seq::<char>::empty() =~= old(out)@);
    }
}

fn write_status_flags_row(out: &mut String, k: (i32, i32, u16), c: u64)
    ensures
        final(out)@ == old(out)@ + status_flags_row(k, c),
{
    if is_interest_pdg(k.0) {
        push_str(out, "  ");
        push_signed(out, k.0 as i64);
        push_str(out, ":");
        push_signed(out, k.1 as i64);
        push_str(out, ":");
        push_decimal(out, k.2 as u64);
        push_str(out, ": ");
        push_decimal(out, c);
        push_str(out, "\n");
    } else {
        assert(old(out)@ + Seq::<char>::empty() =~= old(out)@);
    }
}

fn write_count_row(out: &mut String, k: i32, c: u64)
    ensures
        final(out)@ == old(out)@ + count_row(k, c as int),
{
    push_str(out, "  ");
    push_signed(out, k as i64);
    push_str(out, ": ");
    push_decimal(out, c);
    push_str(out, "\n");
}

/// Writes the status counts of the codes of interest.
pub fn write_status_table(out: &mut String, title: &str, counts: &BTreeMap<(i32, i32), u64>)
    ensures
        exists|ks: Seq<(i32, i32)>|
            in_key_order(ks, counts@) && final(out)@ == old(out)@ + title@ + ":\n"@ + table_rows(
                ks,
                counts@,
                |k: (i32, i32), c: u64| status_row(k, c),
            ),
{
    push_str(out, title);
    push_str(out, ":\n");
    let ghost start = out@;
    let entries = entries_in_order(counts);
    let ghost ks = entry_keys(entries@);
    let mut i: usize = 0;
    while i < entries.len()
        invariant
            entries_of(entries@, counts@),
            ks == entry_keys(entries@),
            i <= entries@.len(),
            out@ == start + table_rows(ks.take(i as int), counts@, |k: (i32, i32), c: u64| status_row(k, c)),
        decreases entries.len() - i,
    {
        let (k, c) = entries[i];
        assert(counts@[entries@[i as int].0] == entries@[i as int].1);
        write_status_row(out, k, c);
        proof {
            assert(ks.take(i + 1).drop_last() =~= ks.take(i as int));
            assert(ks.take(i + 1).last() == k);
        }
        i += 1;
    }
    assert(ks.take(ks.len() as int) =~= ks);
}

/// Writes the statusFlags counts of the codes of interest.
pub fn write_flags_table(out: &mut String, title: &str, counts: &BTreeMap<(i32, u16), u64>)
    ensures
        exists|ks: Seq<(i32, u16)>|
            in_key_order(ks, counts@) && final(out)@ == old(out)@ + title@ + ":\n"@ + table_rows(
                ks,
                counts@,
                |k: (i32, u16), c: u64| flags_row(k, c),
            ),
{
    push_str(out, title);
    push_str(out, ":\n");
    let ghost start = out@;
    let entries = entries_in_order(counts);
    let ghost ks = entry_keys(entries@);
    let mut i: usize = 0;
    while i < entries.len()
        invariant
            entries_of(entries@, counts@),
            ks == entry_keys(entries@),
            i <= entries@.len(),
            out@ == start + table_rows(ks.take(i as int), counts@, |k: (i32, u16), c: u64| flags_row(k, c)),
        decreases entries.len() - i,
    {
        let (k, c) = entries[i];
        assert(counts@[entries@[i as int].0] == entries@[i as int].1);
        write_flags_row(out, k, c);
        proof {
            assert(ks.take(i + 1).drop_last() =~= ks.take(i as int));
            assert(ks.take(i + 1).last() == k);
        }
        i += 1;
    }
    assert(ks.take(ks.len() as int) =~= ks);
}

/// Writes the status + statusFlags counts of the codes of interest.
pub fn write_status_flags_table(out: &mut String, title: &str, counts: &BTreeMap<(i32, i32, u16), u64>)
    ensures
        exists|ks: Seq<(i32, i32, u16)>|
            in_key_order(ks, counts@) && final(out)@ == old(out)@ + title@ + ":\n"@ + table_rows(
                ks,
                counts@,
                |k: (i32, i32, u16), c: u64| status_flags_row(k, c),
            ),
{
    push_str(out, title);
    push_str(out, ":\n");
    let ghost start = out@;
    let entries = entries_in_order(counts);
    let ghost ks = entry_keys(entries@);
    let mut i: usize = 0;
    while i < entries.len()
        invariant
            entries_of(entries@, counts@),
            ks == entry_keys(entries@),
            i <= entries@.len(),
            out@ == start + table_rows(
                ks.take(i as int),
                counts@,
                |k: (i32, i32, u16), c: u64| status_flags_row(k, c),
            ),
        decreases entries.len() - i,
    {
        let (k, c) = entries[i];
        assert(counts@[entries@[i as int].0] == entries@[i as int].1);
        write_status_flags_row(out, k, c);
        proof {
            assert(ks.take(i + 1).drop_last() =~= ks.take(i as int));
            assert(ks.take(i + 1).last() == k);
        }
        i += 1;
    }
    assert(ks.take(ks.len() as int) =~= ks);
}

/// Writes the counts of the fixed codes `keys`, 0 for a code that never occurs.
pub fn write_count_table(out: &mut String, title: &str, counts: &BTreeMap<i32, u64>, keys: [i32; 10])
    ensures
        final(out)@ == old(out)@ + title@ + ":\n"@ + count_rows(keys@, counts@),
{
    push_str(out, title);
    push_str(out, ":\n");
    let ghost start = out@;
    let mut i: usize = 0;
    while i < 10
        invariant
            i <= 10,
            keys@.len() == 10,
            out@ == start + count_rows(keys@.take(i as int), counts@),
        decreases 10 - i,
    {
        let key = keys[i];
        let c: u64 = match counts.get(&key) {
            Some(v) => *v,
            None => 0,
        };
        assert(c == count_in(counts@, key));
        write_count_row(out, key, c);
        proof {
            assert(keys@.take(i + 1).drop_last() =~= keys@.take(i as int));
            assert(keys@.take(i + 1).last() == key);
        }
        i += 1;
    }
    assert(keys@.take(10) =~= keys@);
}

/// `a` comes before `b` in a ranking by count, larger first, then by code.
pub open spec fn ranks_before(a: (i32, u64), b: (i32, u64)) -> bool {
    a.1 > b.1 || (a.1 == b.1 && a.0 < b.0)
}

/// `v` is the ranking by count (larger first, ties by smaller code) of the
/// entries of `m`, cut after `limit` entries.
pub open spec fn is_top_counts(m: Map<i32, u64>, limit: int, v: Seq<(i32, u64)>) -> bool {
    &&& v.len() == if limit < m.dom().len() {
        limit
    } else {
        m.dom().len() as int
    }
    &&& forall|i: int| 0 <= i < v.len() ==> m.contains_key(#[trigger] v[i].0) && m[v[i].0] == v[i].1
    &&& forall|i: int, j: int| 0 <= i < j < v.len() ==> ranks_before(#[trigger] v[i], #[trigger] v[j])
    &&& forall|k: i32|
        #[trigger] m.contains_key(k) && (forall|i: int| 0 <= i < v.len() ==> v[i].0 != k) ==> forall|i: int|
            0 <= i < v.len() ==> ranks_before(v[i], (k, m[k]))
}

/// The ranking of a count map is unique: two lists that are both its ranking
/// cut after `limit` entries are the same list.
pub proof fn law_top_counts_are_unique(m: Map<i32, u64>, limit: int, v: Seq<(i32, u64)>, w: Seq<(i32, u64)>)
    requires
        is_top_counts(m, limit, v),
        is_top_counts(m, limit, w),
    ensures
        v == w,
{
    assert forall|i: int| 0 <= i < v.len() implies v[i] == w[i] by {
        lemma_top_counts_agree_at(m, limit, v, w, i);
    }
    assert(v =~= w);
}

proof fn lemma_top_counts_agree_at(m: Map<i32, u64>, limit: int, v: Seq<(i32, u64)>, w: Seq<(i32, u64)>, i: int)
    requires
        is_top_counts(m, limit, v),
        is_top_counts(m, limit, w),
        0 <= i < v.len(),
    ensures
        v[i] == w[i],
    decreases i,
{
    assert forall|j: int| 0 <= j < i implies v[j] == w[j] by {
        lemma_top_counts_agree_at(m, limit, v, w, j);
    }
    let a = v[i];
    let b = w[i];
    assert(m.contains_key(a.0) && m[a.0] == a.1);
    assert(m.contains_key(b.0) && m[b.0] == b.1);
    if a != b {
        // `b` comes before `a` in `w`'s ranking ...
        if exists|j: int| 0 <= j < w.len() && w[j].0 == a.0 {
            let j = choose|j: int| 0 <= j < w.len() && w[j].0 == a.0;
            assert(w[j] == a);
            if j < i {
                assert(v[j] == w[j]);
                assert(ranks_before(v[j], v[i]));
            }
            assert(j != i);
            assert(ranks_before(w[i], w[j]));
        } else {
            assert(forall|t: int| 0 <= t < w.len() ==> w[t].0 != a.0);
            assert(ranks_before(w[i], (a.0, m[a.0])));
        }
        // ... and `a` comes before `b` in `v`'s ranking.
        if exists|j: int| 0 <= j < v.len() && v[j].0 == b.0 {
            let j = choose|j: int| 0 <= j < v.len() && v[j].0 == b.0;
            assert(v[j] == b);
            if j < i {
                assert(v[j] == w[j]);
                assert(ranks_before(w[j], w[i]));
            }
            assert(j != i);
            assert(ranks_before(v[i], v[j]));
        } else {
            assert(forall|t: int| 0 <= t < v.len() ==> v[t].0 != b.0);
            assert(ranks_before(v[i], (b.0, m[b.0])));
        }
        assert(false);
    }
}

/// The entry of `es` with index `j` is in `v`.
spec fn listed(v: Seq<(i32, u64)>, e: (i32, u64)) -> bool {
    exists|i: int| 0 <= i < v.len() && v[i] == e
}

/// The `limit` most frequent codes of `counts`, most frequent first, ties by
/// smaller code.
pub fn top_counts(counts: &BTreeMap<i32, u64>, limit: usize) -> (v: Vec<(i32, u64)>)
    ensures
        is_top_counts(counts@, limit as int, v@),
{
    let entries = entries_in_order(counts);
    let ghost m = counts@;
    let ghost es = entries@;
    let ghost ks = entry_keys(es);
    let n = entries.len();
    proof {
        assert forall|a: int, b: int| 0 <= a < n && 0 <= b < n && a != b implies es[a].0 != es[b].0 by {
            assert(ks[a] == es[a].0 && ks[b] == es[b].0);
        }
    }
    let mut v: Vec<(i32, u64)> = Vec::new();
    let ghost mut pos: Seq<int> = Seq::empty();
    loop
        invariant
            pos.len() == v@.len(),
            forall|i: int| 0 <= i < v@.len() ==> 0 <= #[trigger] pos[i] < n && es[pos[i]] == v@[i],
            entries@ == es,
            entries_of(es, m),
            n == es.len(),
            ks == entry_keys(es),
            forall|a: int, b: int| 0 <= a < n && 0 <= b < n && a != b ==> es[a].0 != es[b].0,
            v@.len() <= limit,
            forall|i: int, j: int| 0 <= i < j < v@.len() ==> ranks_before(#[trigger] v@[i], #[trigger] v@[j]),
            forall|a: int|
                0 <= a < n ==> (listed(v@, #[trigger] es[a]) <==> (v@.len() > 0 && !ranks_before(
                    v@.last(),
                    es[a],
                ))),
        ensures
            v@.len() <= limit,
            forall|i: int, j: int| 0 <= i < j < v@.len() ==> ranks_before(#[trigger] v@[i], #[trigger] v@[j]),
            forall|a: int|
                0 <= a < n ==> (listed(v@, #[trigger] es[a]) <==> (v@.len() > 0 && !ranks_before(
                    v@.last(),
                    es[a],
                ))),
            v@.len() == limit || forall|a: int| 0 <= a < n ==> listed(v@, #[trigger] es[a]),
            pos.len() == v@.len(),
            forall|i: int| 0 <= i < v@.len() ==> 0 <= #[trigger] pos[i] < n && es[pos[i]] == v@[i],
        decreases limit - v@.len(),
    {
        if v.len() >= limit {
            break;
        }
        let mut best: Option<(i32, u64)> = None;
        let ghost mut best_at: int = 0;
        let mut j: usize = 0;
        while j < n
            invariant
                entries@ == es,
                n == es.len(),
                j <= n,
                forall|a: int, b: int| 0 <= a < n && 0 <= b < n && a != b ==> es[a].0 != es[b].0,
                match best {
                    None => forall|a: int|
                        0 <= a < j ==> !(v@.len() == 0 || ranks_before(v@.last(), #[trigger] es[a])),
                    Some(c) => {
                        &&& 0 <= best_at < j
                        &&& es[best_at] == c
                        &&& (v@.len() == 0 || ranks_before(v@.last(), c))
                        &&& forall|a: int|
                            0 <= a < j && (v@.len() == 0 || ranks_before(v@.last(), #[trigger] es[a]))
                                ==> a == best_at || ranks_before(c, es[a])
                    },
                },
            decreases n - j,
        {
            let e = entries[j];
            let candidate = if v.len() == 0 {
                true
            } else {
                let last = v[v.len() - 1];
                e.1 < last.1 || (e.1 == last.1 && e.0 > last.0)
            };
            if candidate {
                let better = match best {
                    None => true,
                    Some(c) => e.1 > c.1 || (e.1 == c.1 && e.0 < c.0),
                };
                if better {
                    best = Some(e);
                    proof {
                        best_at = j as int;
                    }
                }
            }
            j += 1;
        }
        match best {
            None => {
                proof {
                    assert(j == n);
                    assert(forall|a: int| 0 <= a < j ==> !(v@.len() == 0 || ranks_before(v@.last(), #[trigger] es[a])));
                    assert(forall|a: int| 0 <= a < n ==> listed(v@, #[trigger] es[a]));
                }
                break;
            },
            Some(c) => {
                let ghost old_v = v@;
                v.push(c);
                proof {
                    pos = pos.push(best_at);
                    assert forall|a: int|
                        0 <= a < n implies (listed(v@, #[trigger] es[a]) <==> (v@.len() > 0
                            && !ranks_before(v@.last(), es[a]))) by {
                        if listed(v@, es[a]) {
                            let i = choose|i: int| 0 <= i < v@.len() && v@[i] == es[a];
                            if i < old_v.len() {
                                assert(old_v[i] == es[a]);
                                assert(listed(old_v, es[a]));
                            }
                        }
                        if !ranks_before(c, es[a]) && es[a] != c {
                            if old_v.len() == 0 || ranks_before(old_v.last(), es[a]) {
                                assert(a == best_at);
                            }
                            assert(listed(old_v, es[a]));
                            let i = choose|i: int| 0 <= i < old_v.len() && old_v[i] == es[a];
                            assert(v@[i] == es[a]);
                        }
                        if es[a] == c {
                            assert(v@[old_v.len() as int] == es[a]);
                        }
                    }
                }
            },
        }
    }
    proof {
        lemma_top_counts_found(m, es, v@, pos, limit as int);
    }
    v
}

/// What the ranking loop leaves is the cut ranking of the entries.
proof fn lemma_top_counts_found(
    m: Map<i32, u64>,
    es: Seq<(i32, u64)>,
    v: Seq<(i32, u64)>,
    pos: Seq<int>,
    limit: int,
)
    requires
        entries_of(es, m),
        v.len() <= limit,
        forall|i: int, j: int| 0 <= i < j < v.len() ==> ranks_before(#[trigger] v[i], #[trigger] v[j]),
        pos.len() == v.len(),
        forall|i: int| 0 <= i < v.len() ==> 0 <= #[trigger] pos[i] < es.len() && es[pos[i]] == v[i],
        forall|a: int|
            0 <= a < es.len() ==> (listed(v, #[trigger] es[a]) <==> (v.len() > 0 && !ranks_before(v.last(), es[a]))),
        v.len() == limit || forall|a: int| 0 <= a < es.len() ==> listed(v, #[trigger] es[a]),
    ensures
        is_top_counts(m, limit, v),
{
    let ks = entry_keys(es);
    let n = es.len();
    ks.unique_seq_to_set();
    assert(m.dom().len() == n);
    assert forall|i: int, j: int| 0 <= i < v.len() && 0 <= j < v.len() && i != j implies v[i] != v[j] by {
        if i < j {
            assert(ranks_before(v[i], v[j]));
        } else {
            assert(ranks_before(v[j], v[i]));
        }
    }
    assert(v.no_duplicates());
    v.unique_seq_to_set();
    assert forall|x: (i32, u64)| v.to_set().contains(x) implies es.to_set().contains(x) by {
        assert(v.contains(x));
        let i = choose|i: int| 0 <= i < v.len() && v[i] == x;
        assert(es[pos[i]] == x);
        assert(es.contains(x));
    }
    assert(es.no_duplicates()) by {
        assert forall|i: int, j: int| 0 <= i < es.len() && 0 <= j < es.len() && i != j implies es[i] != es[j] by {
            assert(ks[i] != ks[j]);
        }
    }
    es.unique_seq_to_set();
    vstd::set_lib::lemma_len_subset(v.to_set(), es.to_set());
    if v.len() != limit {
        assert forall|x: (i32, u64)| es.to_set().contains(x) implies v.to_set().contains(x) by {
            assert(es.contains(x));
            let a = choose|a: int| 0 <= a < es.len() && es[a] == x;
            assert(listed(v, es[a]));
            let i = choose|i: int| 0 <= i < v.len() && v[i] == es[a];
            assert(v.contains(x));
        }
        assert(v.to_set() =~= es.to_set());
    }
    assert forall|i: int| 0 <= i < v.len() implies m.contains_key(#[trigger] v[i].0) && m[v[i].0] == v[i].1 by {
        let a = pos[i];
        assert(es[a] == v[i]);
        assert(ks[a] == v[i].0);
        assert(ks.contains(ks[a]));
        assert(m[es[a].0] == es[a].1);
    }
    assert forall|k: i32|
        #[trigger] m.contains_key(k) && (forall|i: int| 0 <= i < v.len() ==> v[i].0 != k) implies forall|i: int|
            0 <= i < v.len() ==> ranks_before(v[i], (k, m[k])) by {
        assert(ks.to_set().contains(k));
        assert(ks.contains(k));
        let a = choose|a: int| 0 <= a < ks.len() && ks[a] == k;
        assert(m[es[a].0] == es[a].1);
        assert(es[a] == (k, m[k]));
        if listed(v, es[a]) {
            let i = choose|i: int| 0 <= i < v.len() && v[i] == es[a];
            assert(v[i].0 == k);
        }
        if v.len() > 0 {
            assert(ranks_before(v.last(), es[a]));
            assert forall|i: int| 0 <= i < v.len() implies ranks_before(v[i], (k, m[k])) by {
                if i < v.len() - 1 {
                    assert(ranks_before(v[i], v[v.len() - 1]));
                }
            }
        }
    }
}

/// A line `label: value`.
pub open spec fn counter_line(label: Seq<char>, v: u64) -> Seq<char> {
    label + ": "@ + decimal(v as nat) + "\n"@
}

fn write_counter_line(out: &mut String, label: &str, v: u64)
    ensures
        final(out)@ == old(out)@ + counter_line(label@, v),
{
    push_str(out, label);
    push_str(out, ": ");
    push_decimal(out, v);
    push_str(out, "\n");
    assert(old(out)@ + label@ + ": "@ + decimal(v as nat) + "\n"@ =~= old(out)@ + counter_line(label@, v));
}

fn write_ranked_rows(out: &mut String, v: &Vec<(i32, u64)>)
    ensures
        final(out)@ == old(out)@ + ranked_rows(v@),
{
    let ghost start = out@;
    let mut i: usize = 0;
    while i < v.len()
        invariant
            i <= v@.len(),
            out@ == start + ranked_rows(v@.take(i as int)),
        decreases v.len() - i,
    {
        let (k, c) = v[i];
        write_count_row(out, k, c);
        proof {
            assert(v@.take(i + 1).drop_last() =~= v@.take(i as int));
            assert(v@.take(i + 1).last() == (k, c));
        }
        i += 1;
    }
    assert(v@.take(v@.len() as int) =~= v@);
}

/// The text summary of a survey, given the key orders of its four filtered
/// tables and the ranking of its most frequent codes.
pub open spec fn summary_text(
    s: GenPartSurvey,
    md: Seq<(i32, i32)>,
    st: Seq<(i32, i32)>,
    fl: Seq<(i32, u16)>,
    sf: Seq<(i32, i32, u16)>,
    top: Seq<(i32, u64)>,
) -> Seq<char> {
    "GenPart topology survey\n"@
        + counter_line("processed_events"@, s.processed_events)
        + counter_line("events_with_genpart"@, s.events_with_genpart)
        + counter_line("events_with_higgs"@, s.events_with_higgs)
        + counter_line("events_with_rho0"@, s.events_with_rho0)
        + counter_line("events_with_photon"@, s.events_with_photon)
        + counter_line("events_with_pi_plus_pi_minus"@, s.events_with_pi_plus_pi_minus)
        + counter_line("events_with_h_gamma_pions"@, s.events_with_h_gamma_pions)
        + counter_line("events_with_explicit_h_to_rho_gamma"@, s.events_with_explicit_h_to_rho_gamma)
        + counter_line("events_with_explicit_rho_to_pions"@, s.events_with_explicit_rho_to_pions)
        + counter_line("events_with_photon_higgs_ancestor"@, s.events_with_photon_higgs_ancestor)
        + counter_line("events_with_pi_plus_higgs_ancestor"@, s.events_with_pi_plus_higgs_ancestor)
        + counter_line("events_with_pi_minus_higgs_ancestor"@, s.events_with_pi_minus_higgs_ancestor)
        + counter_line("events_with_pi_plus_rho_ancestor"@, s.events_with_pi_plus_rho_ancestor)
        + counter_line("events_with_pi_minus_rho_ancestor"@, s.events_with_pi_minus_rho_ancestor)
        + counter_line("events_with_rho_higgs_ancestor"@, s.events_with_rho_higgs_ancestor)
        + "recommendation: "@ + survey_recommendation(s) + "\n"@
        + "key signed pdgId counts"@ + ":\n"@ + count_rows(KEY_PDGS@, s.signed_pdg_counts@)
        + "key abs pdgId counts"@ + ":\n"@ + count_rows(KEY_PDGS@, s.abs_pdg_counts@)
        + "top abs pdgId counts:\n"@ + ranked_rows(top)
        + "mother -> daughter counts"@ + ":\n"@
        + table_rows(md, s.mother_daughter_counts@, |k: (i32, i32), c: u64| relation_row(k, c))
        + "status counts"@ + ":\n"@
        + table_rows(st, s.status_counts@, |k: (i32, i32), c: u64| status_row(k, c))
        + "statusFlags counts"@ + ":\n"@
        + table_rows(fl, s.status_flags_counts@, |k: (i32, u16), c: u64| flags_row(k, c))
        + "status + statusFlags counts"@ + ":\n"@
        + table_rows(sf, s.status_status_flags_counts@, |k: (i32, i32, u16), c: u64| status_flags_row(k, c))
}

/// The text summary of a survey: its counters, its recommendation, the
/// counts of the key codes, the twenty most frequent absolute codes, and the
/// mother -> daughter, status and statusFlags tables of the codes of
/// interest, each walked in increasing key order.
pub fn text_summary(survey: &GenPartSurvey) -> (text: String)
    ensures
        exists|md: Seq<(i32, i32)>, st: Seq<(i32, i32)>, fl: Seq<(i32, u16)>, sf: Seq<(i32, i32, u16)>, top: Seq<(i32, u64)>|
            {
                &&& in_key_order(md, survey.mother_daughter_counts@)
                &&& in_key_order(st, survey.status_counts@)
                &&& in_key_order(fl, survey.status_flags_counts@)
                &&& in_key_order(sf, survey.status_status_flags_counts@)
                &&& is_top_counts(survey.abs_pdg_counts@, 20, top)
                &&& text@ == summary_text(*survey, md, st, fl, sf, top)
            },
{
    let mut out = String::new();
    push_str(&mut out, "GenPart topology survey\n");
    assert(out@ == "GenPart topology survey\n"@);
    write_counter_line(&mut out, "processed_events", survey.processed_events);
    write_counter_line(&mut out, "events_with_genpart", survey.events_with_genpart);
    write_counter_line(&mut out, "events_with_higgs", survey.events_with_higgs);
    write_counter_line(&mut out, "events_with_rho0", survey.events_with_rho0);
    write_counter_line(&mut out, "events_with_photon", survey.events_with_photon);
    write_counter_line(&mut out, "events_with_pi_plus_pi_minus", survey.events_with_pi_plus_pi_minus);
    write_counter_line(&mut out, "events_with_h_gamma_pions", survey.events_with_h_gamma_pions);
    write_counter_line(&mut out, "events_with_explicit_h_to_rho_gamma", survey.events_with_explicit_h_to_rho_gamma);
    write_counter_line(&mut out, "events_with_explicit_rho_to_pions", survey.events_with_explicit_rho_to_pions);
    write_counter_line(&mut out, "events_with_photon_higgs_ancestor", survey.events_with_photon_higgs_ancestor);
    write_counter_line(&mut out, "events_with_pi_plus_higgs_ancestor", survey.events_with_pi_plus_higgs_ancestor);
    write_counter_line(&mut out, "events_with_pi_minus_higgs_ancestor", survey.events_with_pi_minus_higgs_ancestor);
    write_counter_line(&mut out, "events_with_pi_plus_rho_ancestor", survey.events_with_pi_plus_rho_ancestor);
    write_counter_line(&mut out, "events_with_pi_minus_rho_ancestor", survey.events_with_pi_minus_rho_ancestor);
    write_counter_line(&mut out, "events_with_rho_higgs_ancestor", survey.events_with_rho_higgs_ancestor);
    push_str(&mut out, "recommendation: ");
    push_str(&mut out, recommendation(survey));
    push_str(&mut out, "\n");
    write_count_table(&mut out, "key signed pdgId counts", &survey.signed_pdg_counts, KEY_PDGS);
    write_count_table(&mut out, "key abs pdgId counts", &survey.abs_pdg_counts, KEY_PDGS);
    push_str(&mut out, "top abs pdgId counts:\n");
    let top = top_counts(&survey.abs_pdg_counts, 20);
    write_ranked_rows(&mut out, &top);
    let ghost before_md = out@;
    write_relation_table(&mut out, "mother -> daughter counts", &survey.mother_daughter_counts);
    let ghost md = choose|ks: Seq<(i32, i32)>|
        in_key_order(ks, survey.mother_daughter_counts@) && out@ == before_md + "mother -> daughter counts"@
            + ":\n"@ + table_rows(ks, survey.mother_daughter_counts@, |k: (i32, i32), c: u64| relation_row(k, c));
    let ghost before_st = out@;
    write_status_table(&mut out, "status counts", &survey.status_counts);
    let ghost st = choose|ks: Seq<(i32, i32)>|
        in_key_order(ks, survey.status_counts@) && out@ == before_st + "status counts"@ + ":\n"@ + table_rows(
            ks,
            survey.status_counts@,
            |k: (i32, i32), c: u64| status_row(k, c),
        );
    let ghost before_fl = out@;
    write_flags_table(&mut out, "statusFlags counts", &survey.status_flags_counts);
    let ghost fl = choose|ks: Seq<(i32, u16)>|
        in_key_order(ks, survey.status_flags_counts@) && out@ == before_fl + "statusFlags counts"@ + ":\n"@
            + table_rows(ks, survey.status_flags_counts@, |k: (i32, u16), c: u64| flags_row(k, c));
    let ghost before_sf = out@;
    write_status_flags_table(&mut out, "status + statusFlags counts", &survey.status_status_flags_counts);
    let ghost sf = choose|ks: Seq<(i32, i32, u16)>|
        in_key_order(ks, survey.status_status_flags_counts@) && out@ == before_sf
            + "status + statusFlags counts"@ + ":\n"@ + table_rows(
            ks,
            survey.status_status_flags_counts@,
            |k: (i32, i32, u16), c: u64| status_flags_row(k, c),
        );
    assert(out@ == summary_text(*survey, md, st, fl, sf, top@));
    out
}

/// `v` holds, in the increasing key order of `m`, each entry of `m` with its
/// key written as `text` writes it.
pub open spec fn keyed_as<K>(v: Seq<(String, u64)>, m: Map<K, u64>, text: spec_fn(K) -> Seq<char>) -> bool {
    exists|es: Seq<(K, u64)>|
        {
            &&& entries_of(es, m)
            &&& v.len() == es.len()
            &&& forall|i: int|
                0 <= i < v.len() ==> (#[trigger] v[i]).0@ == text(es[i].0) && v[i].1 == es[i].1
        }
}

/// The counts of `source` keyed by the decimal code.
pub fn map_i32(source: &BTreeMap<i32, u64>) -> (v: Vec<(String, u64)>)
    ensures
        keyed_as(v@, source@, |k: i32| signed_decimal(k as int)),
{
    let es = entries_in_order(source);
    let mut v: Vec<(String, u64)> = Vec::new();
    let mut i: usize = 0;
    while i < es.len()
        invariant
            i <= es@.len(),
            v@.len() == i,
            forall|j: int| 0 <= j < i ==> (#[trigger] v@[j]).0@ == signed_decimal(es@[j].0 as int) && v@[j].1 == es@[j].1,
        decreases es.len() - i,
    {
        let (k, c) = es[i];
        let mut key = String::new();
        push_signed(&mut key, k as i64);
        assert(key@ =~= signed_decimal(k as int));
        v.push((key, c));
        i += 1;
    }
    assert(entries_of(es@, source@));
    v
}

/// The counts of `source` keyed `left` + `sep` + `right`.
pub fn map_pair_i32(source: &BTreeMap<(i32, i32), u64>, sep: &str) -> (v: Vec<(String, u64)>)
    ensures
        keyed_as(v@, source@, |k: (i32, i32)| signed_decimal(k.0 as int) + sep@ + signed_decimal(k.1 as int)),
{
    let es = entries_in_order(source);
    let mut v: Vec<(String, u64)> = Vec::new();
    let mut i: usize = 0;
    while i < es.len()
        invariant
            i <= es@.len(),
            v@.len() == i,
            forall|j: int|
                0 <= j < i ==> (#[trigger] v@[j]).0@ == signed_decimal(es@[j].0.0 as int) + sep@ + signed_decimal(
                    es@[j].0.1 as int,
                ) && v@[j].1 == es@[j].1,
        decreases es.len() - i,
    {
        let (k, c) = es[i];
        let mut key = String::new();
        push_signed(&mut key, k.0 as i64);
        push_str(&mut key, sep);
        push_signed(&mut key, k.1 as i64);
        assert(key@ =~= signed_decimal(k.0 as int) + sep@ + signed_decimal(k.1 as int));
        v.push((key, c));
        i += 1;
    }
    v
}

/// The counts of `source` keyed `code` + `sep` + `flags`.
pub fn map_pair_i32_u16(source: &BTreeMap<(i32, u16), u64>, sep: &str) -> (v: Vec<(String, u64)>)
    ensures
        keyed_as(v@, source@, |k: (i32, u16)| signed_decimal(k.0 as int) + sep@ + decimal(k.1 as nat)),
{
    let es = entries_in_order(source);
    let mut v: Vec<(String, u64)> = Vec::new();
    let mut i: usize = 0;
    while i < es.len()
        invariant
            i <= es@.len(),
            v@.len() == i,
            forall|j: int|
                0 <= j < i ==> (#[trigger] v@[j]).0@ == signed_decimal(es@[j].0.0 as int) + sep@ + decimal(
                    es@[j].0.1 as nat,
                ) && v@[j].1 == es@[j].1,
        decreases es.len() - i,
    {
        let (k, c) = es[i];
        let mut key = String::new();
        push_signed(&mut key, k.0 as i64);
        push_str(&mut key, sep);
        push_decimal(&mut key, k.1 as u64);
        assert(key@ =~= signed_decimal(k.0 as int) + sep@ + decimal(k.1 as nat));
        v.push((key, c));
        i += 1;
    }
    v
}

/// The counts of `source` keyed `code:status:flags`.
pub fn map_triple(source: &BTreeMap<(i32, i32, u16), u64>) -> (v: Vec<(String, u64)>)
    ensures
        keyed_as(
            v@,
            source@,
            |k: (i32, i32, u16)|
                signed_decimal(k.0 as int) + ":"@ + signed_decimal(k.1 as int) + ":"@ + decimal(k.2 as nat),
        ),
{
    let es = entries_in_order(source);
    let mut v: Vec<(String, u64)> = Vec::new();
    let mut i: usize = 0;
    while i < es.len()
        invariant
            i <= es@.len(),
            v@.len() == i,
            forall|j: int|
                0 <= j < i ==> (#[trigger] v@[j]).0@ == signed_decimal(es@[j].0.0 as int) + ":"@
                    + signed_decimal(es@[j].0.1 as int) + ":"@ + decimal(es@[j].0.2 as nat) && v@[j].1
                    == es@[j].1,
        decreases es.len() - i,
    {
        let (k, c) = es[i];
        let mut key = String::new();
        push_signed(&mut key, k.0 as i64);
        push_str(&mut key, ":");
        push_signed(&mut key, k.1 as i64);
        push_str(&mut key, ":");
        push_decimal(&mut key, k.2 as u64);
        assert(key@ =~= signed_decimal(k.0 as int) + ":"@ + signed_decimal(k.1 as int) + ":"@ + decimal(
            k.2 as nat,
        ));
        v.push((key, c));
        i += 1;
    }
    v
}

/// The survey as the JSON summary reports it: its counters, its occurrence
/// counts keyed by text (in the increasing order of the integer keys; no
/// text key occurs twice), and its recommendation.
pub struct JsonSurveySummary {
    pub processed_events: u64,
    pub events_with_genpart: u64,
    pub events_with_higgs: u64,
    pub events_with_rho0: u64,
    pub events_with_photon: u64,
    pub events_with_pi_plus_pi_minus: u64,
    pub events_with_h_gamma_pions: u64,
    pub events_with_explicit_h_to_rho_gamma: u64,
    pub events_with_explicit_rho_to_pions: u64,
    pub events_with_photon_higgs_ancestor: u64,
    pub events_with_pi_plus_higgs_ancestor: u64,
    pub events_with_pi_minus_higgs_ancestor: u64,
    pub events_with_pi_plus_rho_ancestor: u64,
    pub events_with_pi_minus_rho_ancestor: u64,
    pub events_with_rho_higgs_ancestor: u64,
    pub signed_pdg_counts: Vec<(String, u64)>,
    pub abs_pdg_counts: Vec<(String, u64)>,
    pub status_counts: Vec<(String, u64)>,
    pub status_flags_counts: Vec<(String, u64)>,
    pub status_status_flags_counts: Vec<(String, u64)>,
    pub mother_daughter_counts: Vec<(String, u64)>,
    pub recommendation: String,
}

impl JsonSurveySummary {
    /// The JSON summary of a survey: pairs are keyed `code:status`,
    /// `code:flags`, `code:status:flags` and `mother->daughter`.
    pub fn from_survey(survey: &GenPartSurvey) -> (j: Self)
        ensures
        j.processed_events == survey.processed_events,
        j.events_with_genpart == survey.events_with_genpart,
        j.events_with_higgs == survey.events_with_higgs,
        j.events_with_rho0 == survey.events_with_rho0,
        j.events_with_photon == survey.events_with_photon,
        j.events_with_pi_plus_pi_minus == survey.events_with_pi_plus_pi_minus,
        j.events_with_h_gamma_pions == survey.events_with_h_gamma_pions,
        j.events_with_explicit_h_to_rho_gamma == survey.events_with_explicit_h_to_rho_gamma,
        j.events_with_explicit_rho_to_pions == survey.events_with_explicit_rho_to_pions,
        j.events_with_photon_higgs_ancestor == survey.events_with_photon_higgs_ancestor,
        j.events_with_pi_plus_higgs_ancestor == survey.events_with_pi_plus_higgs_ancestor,
        j.events_with_pi_minus_higgs_ancestor == survey.events_with_pi_minus_higgs_ancestor,
        j.events_with_pi_plus_rho_ancestor == survey.events_with_pi_plus_rho_ancestor,
        j.events_with_pi_minus_rho_ancestor == survey.events_with_pi_minus_rho_ancestor,
        j.events_with_rho_higgs_ancestor == survey.events_with_rho_higgs_ancestor,
            keyed_as(j.signed_pdg_counts@, survey.signed_pdg_counts@, |k: i32| signed_decimal(k as int)),
            keyed_as(j.abs_pdg_counts@, survey.abs_pdg_counts@, |k: i32| signed_decimal(k as int)),
            keyed_as(
                j.status_counts@,
                survey.status_counts@,
                |k: (i32, i32)| signed_decimal(k.0 as int) + ":"@ + signed_decimal(k.1 as int),
            ),
            keyed_as(
                j.status_flags_counts@,
                survey.status_flags_counts@,
                |k: (i32, u16)| signed_decimal(k.0 as int) + ":"@ + decimal(k.1 as nat),
            ),
            keyed_as(
                j.status_status_flags_counts@,
                survey.status_status_flags_counts@,
                |k: (i32, i32, u16)|
                    signed_decimal(k.0 as int) + ":"@ + signed_decimal(k.1 as int) + ":"@ + decimal(k.2 as nat),
            ),
            keyed_as(
                j.mother_daughter_counts@,
                survey.mother_daughter_counts@,
                |k: (i32, i32)| signed_decimal(k.0 as int) + "->"@ + signed_decimal(k.1 as int),
            ),
            j.recommendation@ == survey_recommendation(*survey),
    {
        let mut recommendation_text = String::new();
        push_str(&mut recommendation_text, recommendation(survey));
        assert(recommendation_text@ =~= survey_recommendation(*survey));
        JsonSurveySummary {
        processed_events: survey.processed_events,
        events_with_genpart: survey.events_with_genpart,
        events_with_higgs: survey.events_with_higgs,
        events_with_rho0: survey.events_with_rho0,
        events_with_photon: survey.events_with_photon,
        events_with_pi_plus_pi_minus: survey.events_with_pi_plus_pi_minus,
        events_with_h_gamma_pions: survey.events_with_h_gamma_pions,
        events_with_explicit_h_to_rho_gamma: survey.events_with_explicit_h_to_rho_gamma,
        events_with_explicit_rho_to_pions: survey.events_with_explicit_rho_to_pions,
        events_with_photon_higgs_ancestor: survey.events_with_photon_higgs_ancestor,
        events_with_pi_plus_higgs_ancestor: survey.events_with_pi_plus_higgs_ancestor,
        events_with_pi_minus_higgs_ancestor: survey.events_with_pi_minus_higgs_ancestor,
        events_with_pi_plus_rho_ancestor: survey.events_with_pi_plus_rho_ancestor,
        events_with_pi_minus_rho_ancestor: survey.events_with_pi_minus_rho_ancestor,
        events_with_rho_higgs_ancestor: survey.events_with_rho_higgs_ancestor,
            signed_pdg_counts: map_i32(&survey.signed_pdg_counts),
            abs_pdg_counts: map_i32(&survey.abs_pdg_counts),
            status_counts: map_pair_i32(&survey.status_counts, ":"),
            status_flags_counts: map_pair_i32_u16(&survey.status_flags_counts, ":"),
            status_status_flags_counts: map_triple(&survey.status_status_flags_counts),
            mother_daughter_counts: map_pair_i32(&survey.mother_daughter_counts, "->"),
            recommendation: recommendation_text,
        }
    }
}

/// The particle at `j` of a kept event, or its mother, has a code of interest.
pub open spec fn of_interest(ps: Seq<crate::genealogy::GenPartIds>, j: int) -> bool {
    interest_pdg(ps[j].pdg_id) || match ps[j].mother {
        Some(m) => m < ps.len() && interest_pdg(ps[m as int].pdg_id),
        None => false,
    }
}

/// The mother column of a row: the mother's index, or `-1` without one.
pub open spec fn mother_column(m: Option<usize>) -> Seq<char> {
    match m {
        Some(i) => decimal(i as nat),
        None => "-1"@,
    }
}

/// The row of particle `j` of a kept event, followed by its kinematics
/// column `kin` (written by the caller).
pub open spec fn example_row(ps: Seq<crate::genealogy::GenPartIds>, j: int, kin: Seq<char>) -> Seq<char> {
    decimal(j as nat) + " "@ + signed_decimal(ps[j].pdg_id as int) + " "@ + signed_decimal(ps[j].status as int)
        + " "@ + decimal(ps[j].status_flags as nat) + " "@ + mother_column(ps[j].mother) + " "@
        + signed_decimal(mother_pdg(ps, j) as int) + " "@ + kin + "\n"@
}

/// The rows of the particles of interest among the first `n` of a kept event.
pub open spec fn example_rows(ps: Seq<crate::genealogy::GenPartIds>, kin: Seq<String>, n: int) -> Seq<char>
    decreases n,
{
    if n <= 0 {
        Seq::empty()
    } else {
        example_rows(ps, kin, n - 1) + if of_interest(ps, n - 1) {
            example_row(ps, n - 1, kin[n - 1]@)
        } else {
            Seq::empty()
        }
    }
}

/// The block of one example event.
pub open spec fn example_block(e: SurveyedEvent, kin: Seq<String>) -> Seq<char> {
    "event: "@ + e.event_id@ + "\n"@ + "index pdgId status statusFlags mother_index mother_pdgId pt eta phi mass\n"@
        + example_rows(e.particles@, kin, e.particles@.len() as int)
}

/// The blocks of the events at positions `p`, in order.
pub open spec fn example_blocks(es: Seq<SurveyedEvent>, kin: Seq<Vec<String>>, p: Seq<int>) -> Seq<char>
    decreases p.len(),
{
    if p.len() == 0 {
        Seq::empty()
    } else {
        example_blocks(es, kin, p.drop_last()) + example_block(es[p.last()], kin[p.last()]@)
    }
}

/// A titled group of example events, or `none` when it is empty.
pub open spec fn example_group(title: Seq<char>, es: Seq<SurveyedEvent>, kin: Seq<Vec<String>>, p: Seq<int>) -> Seq<char> {
    "## "@ + title + "\n"@ + if p.len() == 0 {
        "none\n"@
    } else {
        example_blocks(es, kin, p)
    }
}

/// The title of example kind `w`.
pub open spec fn example_title(w: int) -> Seq<char> {
    if w == 0 {
        "event with pdgId 25"@
    } else if w == 1 {
        "event with pdgId 113"@
    } else if w == 2 {
        "event with 22 and pi+pi- but no rho0"@
    } else {
        "event where simple truth finder would say not_found"@
    }
}

/// The example listing of kept events: for each example kind, the first
/// `limit` events of that kind.
pub open spec fn examples_listing(es: Seq<SurveyedEvent>, kin: Seq<Vec<String>>, limit: int) -> Seq<char> {
    example_group(example_title(0), es, kin, picks(es, 0, limit)) + example_group(
        example_title(1),
        es,
        kin,
        picks(es, 1, limit),
    ) + example_group(example_title(2), es, kin, picks(es, 2, limit)) + example_group(
        example_title(3),
        es,
        kin,
        picks(es, 3, limit),
    )
}

/// The caller's kinematics columns match the kept events particle by particle.
pub open spec fn kinematics_fit(es: Seq<SurveyedEvent>, kin: Seq<Vec<String>>) -> bool {
    &&& kin.len() == es.len()
    &&& forall|i: int| 0 <= i < es.len() ==> (#[trigger] kin[i])@.len() == es[i].particles@.len()
}

fn write_example_row(out: &mut String, event: &SurveyedEvent, j: usize, kin: &String)
    requires
        j < event.particles@.len(),
    ensures
        final(out)@ == old(out)@ + example_row(event.particles@, j as int, kin@),
{
    let ps = &event.particles;
    let particle = ps[j];
    let mut row = String::new();
    push_decimal(&mut row, j as u64);
    assert(row@ =~= decimal(j as nat));
    push_str(&mut row, " ");
    push_signed(&mut row, particle.pdg_id as i64);
    push_str(&mut row, " ");
    push_signed(&mut row, particle.status as i64);
    push_str(&mut row, " ");
    push_decimal(&mut row, particle.status_flags as u64);
    push_str(&mut row, " ");
    let ghost before_mother = row@;
    match particle.mother {
        Some(m) => push_decimal(&mut row, m as u64),
        None => push_str(&mut row, "-1"),
    }
    assert(row@ == before_mother + mother_column(particle.mother));
    push_str(&mut row, " ");
    let mpdg: i32 = match particle.mother {
        Some(m) => if m < ps.len() {
            ps[m].pdg_id
        } else {
            0
        },
        None => 0,
    };
    assert(mother_pdg(event.particles@, j as int) == mpdg);
    push_signed(&mut row, mpdg as i64);
    push_str(&mut row, " ");
    push_str(&mut row, kin.as_str());
    push_str(&mut row, "\n");
    assert(row@ == example_row(event.particles@, j as int, kin@));
    push_str(out, row.as_str());
}

fn write_example_block(out: &mut String, event: &SurveyedEvent, kin: &Vec<String>)
    requires
        kin@.len() == event.particles@.len(),
    ensures
        final(out)@ == old(out)@ + example_block(*event, kin@),
{
    let ghost start = old(out)@;
    push_str(out, "event: ");
    push_str(out, event.event_id.as_str());
    push_str(out, "\n");
    push_str(out, "index pdgId status statusFlags mother_index mother_pdgId pt eta phi mass\n");
    let ghost head = out@;
    let mut j: usize = 0;
    while j < event.particles.len()
        invariant
            kin@.len() == event.particles@.len(),
            j <= event.particles@.len(),
            out@ == head + example_rows(event.particles@, kin@, j as int),
        decreases event.particles.len() - j,
    {
        let interesting = particle_of_interest(event, j);
        if interesting {
            write_example_row(out, event, j, &kin[j]);
        } else {
            assert(head + example_rows(event.particles@, kin@, j as int) + Seq::<char>::empty() =~= head
                + example_rows(event.particles@, kin@, j as int));
        }
        j += 1;
    }
}

/// Positions as integers.
pub open spec fn positions(v: Seq<usize>) -> Seq<int> {
    v.map_values(|x: usize| x as int)
}

fn write_example_group(
    out: &mut String,
    title: &str,
    events: &[SurveyedEvent],
    kinematics: &Vec<Vec<String>>,
    picked: &Vec<usize>,
)
    requires
        kinematics_fit(events@, kinematics@),
        forall|i: int| 0 <= i < picked@.len() ==> #[trigger] picked@[i] < events@.len(),
    ensures
        final(out)@ == old(out)@ + example_group(title@, events@, kinematics@, positions(picked@)),
{
    let ghost p = positions(picked@);
    push_str(out, "## ");
    push_str(out, title);
    push_str(out, "\n");
    if picked.len() == 0 {
        push_str(out, "none\n");
        return;
    }
    let ghost head = out@;
    proof {
        assert(p.take(0) =~= Seq::<int>::empty());
        assert(head + example_blocks(events@, kinematics@, p.take(0)) =~= head);
    }
    let mut i: usize = 0;
    while i < picked.len()
        invariant
            kinematics_fit(events@, kinematics@),
            forall|k: int| 0 <= k < picked@.len() ==> #[trigger] picked@[k] < events@.len(),
            p == positions(picked@),
            i <= picked@.len(),
            out@ == head + example_blocks(events@, kinematics@, p.take(i as int)),
        decreases picked.len() - i,
    {
        let at = picked[i];
        assert(kinematics@[at as int]@.len() == events@[at as int].particles@.len());
        write_example_block(out, &events[at], &kinematics[at]);
        proof {
            assert(p.take(i + 1).drop_last() =~= p.take(i as int));
            assert(p.take(i + 1).last() == at as int);
        }
        i += 1;
    }
    assert(p.take(p.len() as int) =~= p);
}

/// The example listing of a survey's kept events: for each example kind, its
/// title and the first `limit` events of that kind (or `none`), each with the
/// rows of its particles of interest. Row `j` of event `i` ends with
/// `kinematics[i][j]`, the kinematics columns the caller writes.
pub fn examples_text(survey: &GenPartSurvey, limit: usize, kinematics: &Vec<Vec<String>>) -> (text: String)
    requires
        kinematics_fit(survey.events@, kinematics@),
    ensures
        text@ == examples_listing(survey.events@, kinematics@, limit as int),
{
    let events = survey.events.as_slice();
    proof {
        lemma_picks_bounds(events@, 0, limit as int);
        lemma_picks_bounds(events@, 1, limit as int);
        lemma_picks_bounds(events@, 2, limit as int);
        lemma_picks_bounds(events@, 3, limit as int);
    }
    let mut out = String::new();
    let ghost empty = out@;
    let p0 = example_indices(events, 0, limit);
    assert(forall|i: int| 0 <= i < p0@.len() ==> #[trigger] p0@[i] < events@.len()) by {
        assert forall|i: int| 0 <= i < p0@.len() implies #[trigger] p0@[i] < events@.len() by {
            assert(p0@[i] as int == picks(events@, 0, limit as int)[i]);
        }
    }
    write_example_group(&mut out, "event with pdgId 25", events, kinematics, &p0);
    let p1 = example_indices(events, 1, limit);
    assert(forall|i: int| 0 <= i < p1@.len() ==> #[trigger] p1@[i] < events@.len()) by {
        assert forall|i: int| 0 <= i < p1@.len() implies #[trigger] p1@[i] < events@.len() by {
            assert(p1@[i] as int == picks(events@, 1, limit as int)[i]);
        }
    }
    write_example_group(&mut out, "event with pdgId 113", events, kinematics, &p1);
    let p2 = example_indices(events, 2, limit);
    assert(forall|i: int| 0 <= i < p2@.len() ==> #[trigger] p2@[i] < events@.len()) by {
        assert forall|i: int| 0 <= i < p2@.len() implies #[trigger] p2@[i] < events@.len() by {
            assert(p2@[i] as int == picks(events@, 2, limit as int)[i]);
        }
    }
    write_example_group(
        &mut out,
        "event with 22 and pi+pi- but no rho0",
        events,
        kinematics,
        &p2,
    );
    let p3 = example_indices(events, 3, limit);
    assert(forall|i: int| 0 <= i < p3@.len() ==> #[trigger] p3@[i] < events@.len()) by {
        assert forall|i: int| 0 <= i < p3@.len() implies #[trigger] p3@[i] < events@.len() by {
            assert(p3@[i] as int == picks(events@, 3, limit as int)[i]);
        }
    }
    write_example_group(
        &mut out,
        "event where simple truth finder would say not_found",
        events,
        kinematics,
        &p3,
    );
    assert(empty == Seq::<char>::empty());
    assert(positions(p0@) =~= picks(events@, 0, limit as int));
    assert(positions(p1@) =~= picks(events@, 1, limit as int));
    assert(positions(p2@) =~= picks(events@, 2, limit as int));
    assert(positions(p3@) =~= picks(events@, 3, limit as int));
    assert(out@ =~= examples_listing(survey.events@, kinematics@, limit as int));
    out
}

} // verus!
