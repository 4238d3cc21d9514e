//! Mother links of generator particles and the ancestry questions asked of
//! them. A particle's ancestors are found by following `mother` indices; the
//! links may be broken (out of range) or even cyclic. The search for an
//! ancestor code stops on any record; the plain walk towards one ancestor
//! index stops unless it cycles without meeting it, which is decided first.
use vstd::prelude::*;
use vstd::seq_lib::*;
use vstd::set_lib::*;

verus! {

/// The identity and genealogy of one generator particle: what the ancestry
/// searches and the topology surveys read.
#[derive(Clone, Copy, Debug, PartialEq, Eq)]
pub struct GenPartIds {
    pub pdg_id: i32,
    pub mother: Option<usize>,
    pub status: i32,
    pub status_flags: u16,
}

/// The mother of the particle at `a`, when `a` is a valid index and has one.
pub open spec fn mother_of(ps: Seq<GenPartIds>, a: int) -> Option<int> {
    if 0 <= a < ps.len() {
        match ps[a].mother {
            Some(m) => Some(m as int),
            None => None,
        }
    } else {
        None
    }
}

/// The `k`-th link up from particle `index`: step 0 is its mother, and each
/// further step is the mother of the previous index.
pub open spec fn chain(ps: Seq<GenPartIds>, index: int, k: nat) -> Option<int>
    decreases k,
{
    if k == 0 {
        mother_of(ps, index)
    } else {
        match chain(ps, index, (k - 1) as nat) {
            Some(a) => mother_of(ps, a),
            None => None,
        }
    }
}

/// The `k`-th link up from `index` is a valid particle with `pdg_id`.
pub open spec fn link_has_pdg(ps: Seq<GenPartIds>, index: int, k: nat, pdg_id: i32) -> bool {
    chain(ps, index, k) matches Some(a) && 0 <= a < ps.len() && ps[a].pdg_id == pdg_id
}

/// Some ancestor of particle `index` is a valid particle with `pdg_id`.
pub open spec fn has_ancestor_with(ps: Seq<GenPartIds>, index: int, pdg_id: i32) -> bool {
    exists|k: nat| #[trigger] link_has_pdg(ps, index, k, pdg_id)
}

/// The particle at `ancestor` is reached by following mother links from `index`.
pub open spec fn is_descendant(ps: Seq<GenPartIds>, index: int, ancestor: int) -> bool {
    exists|k: nat| #[trigger] chain(ps, index, k) == Some(ancestor)
}

proof fn lemma_chain_none_stays(ps: Seq<GenPartIds>, index: int, j: nat, k: nat)
    requires
        j <= k,
        chain(ps, index, j) is None,
    ensures
        chain(ps, index, k) is None,
    decreases k - j,
{
    if j < k {
        lemma_chain_none_stays(ps, index, j, (k - 1) as nat);
    }
}

proof fn lemma_chain_earlier_in_range(ps: Seq<GenPartIds>, index: int, j: nat, k: nat)
    requires
        j < k,
        chain(ps, index, k) is Some,
    ensures
        chain(ps, index, j) matches Some(a) && 0 <= a < ps.len(),
    decreases k - j,
{
    if chain(ps, index, j) is None {
        lemma_chain_none_stays(ps, index, j, k);
    } else if j + 1 == k {
    } else {
        lemma_chain_earlier_in_range(ps, index, j + 1, k);
    }
}

proof fn lemma_chain_shift(ps: Seq<GenPartIds>, index: int, i: nat, j: nat, d: nat)
    requires
        chain(ps, index, i) == chain(ps, index, j),
    ensures
        chain(ps, index, i + d) == chain(ps, index, j + d),
    decreases d,
{
    if d > 0 {
        lemma_chain_shift(ps, index, i, j, (d - 1) as nat);
        assert(chain(ps, index, i + d) == match chain(ps, index, (i + d - 1) as nat) {
            Some(a) => mother_of(ps, a),
            None => None,
        });
        assert(chain(ps, index, j + d) == match chain(ps, index, (j + d - 1) as nat) {
            Some(a) => mother_of(ps, a),
            None => None,
        });
    }
}

/// Among `n + 1` indices below `n`, two are equal.
proof fn lemma_pigeonhole(s: Seq<int>, n: nat)
    requires
        s.len() == n + 1,
        forall|i: int| 0 <= i < s.len() ==> 0 <= #[trigger] s[i] < n,
    ensures
        exists|i: int, j: int| 0 <= i < j < s.len() && s[i] == s[j],
{
    if s.no_duplicates() {
        s.unique_seq_to_set();
        lemma_int_range(0, n as int);
        assert(s.to_set().subset_of(set_int_range(0, n as int)));
        lemma_len_subset(s.to_set(), set_int_range(0, n as int));
        assert(false);
    }
}

/// Every link reached at all is already reached within `ps.len() + 1` steps.
proof fn lemma_chain_bounded(ps: Seq<GenPartIds>, index: int, k: nat)
    requires
        chain(ps, index, k) is Some,
    ensures
        exists|k2: nat| k2 <= ps.len() && chain(ps, index, k2) == chain(ps, index, k),
    decreases k,
{
    let n = ps.len();
    if k <= n {
        assert(chain(ps, index, k) == chain(ps, index, k));
    } else {
        let s = Seq::new(n + 1, |i: int| chain(ps, index, i as nat)->0);
        assert forall|i: int| 0 <= i < s.len() implies 0 <= #[trigger] s[i] < n by {
            lemma_chain_earlier_in_range(ps, index, i as nat, k);
        }
        lemma_pigeonhole(s, n);
        let (i, j) = choose|i: int, j: int| 0 <= i < j < s.len() && s[i] == s[j];
        lemma_chain_earlier_in_range(ps, index, i as nat, k);
        lemma_chain_earlier_in_range(ps, index, j as nat, k);
        assert(chain(ps, index, i as nat) == chain(ps, index, j as nat));
        let d = (k - j) as nat;
        lemma_chain_shift(ps, index, i as nat, j as nat, d);
        assert(j + d == k);
        let k1 = (i + d) as nat;
        assert(k1 < k);
        lemma_chain_bounded(ps, index, k1);
    }
}

/// The link `a` qualifies: a valid particle with pdgId `pdg` (when `by_pdg`),
/// or the index `anc` (otherwise).
pub open spec fn link_hits(ps: Seq<GenPartIds>, a: int, by_pdg: bool, pdg: i32, anc: usize) -> bool {
    if by_pdg {
        0 <= a < ps.len() && ps[a].pdg_id == pdg
    } else {
        a == anc
    }
}

fn hits(ps: &[GenPartIds], c: usize, by_pdg: bool, pdg: i32, anc: usize) -> (b: bool)
    ensures
        b == link_hits(ps@, c as int, by_pdg, pdg, anc),
{
    if by_pdg {
        c < ps.len() && ps[c].pdg_id == pdg
    } else {
        c == anc
    }
}

/// Follows the mother links from `index` for at most `ps.len() + 1` steps,
/// answering whether one of them qualifies.
fn search_chain(ps: &[GenPartIds], index: usize, by_pdg: bool, pdg: i32, anc: usize) -> (b: bool)
    ensures
        b == exists|k: nat|
            #[trigger] chain(ps@, index as int, k) matches Some(a) && link_hits(
                ps@,
                a,
                by_pdg,
                pdg,
                anc,
            ),
{
    let ghost qs = ps@;
    let n = ps.len();
    if index >= n {
        proof {
            assert forall|k: nat| #[trigger] chain(qs, index as int, k) is None by {
                lemma_chain_none_stays(qs, index as int, 0, k);
            }
        }
        return false;
    }
    let mut current: Option<usize> = ps[index].mother;
    let mut steps: usize = 0;
    loop
        invariant_except_break
            qs == ps@,
            n == qs.len(),
            0 <= index < n,
            steps <= n,
            match current {
                Some(c) => chain(qs, index as int, steps as nat) == Some(c as int),
                None => chain(qs, index as int, steps as nat) is None,
            },
            forall|j: nat|
                j < steps ==> !(#[trigger] chain(qs, index as int, j) matches Some(a) && link_hits(
                    qs,
                    a,
                    by_pdg,
                    pdg,
                    anc,
                )),
        ensures
            qs == ps@,
            n == qs.len(),
            steps == n,
            current is Some,
            chain(qs, index as int, steps as nat) == Some(current->0 as int),
            forall|j: nat|
                j <= steps ==> !(#[trigger] chain(qs, index as int, j) matches Some(a) && link_hits(
                    qs,
                    a,
                    by_pdg,
                    pdg,
                    anc,
                )),
        decreases n - steps,
    {
        match current {
            None => {
                proof {
                    assert forall|k: nat|
                        !(#[trigger] chain(qs, index as int, k) matches Some(a) && link_hits(
                            qs,
                            a,
                            by_pdg,
                            pdg,
                            anc,
                        )) by {
                        if k >= steps {
                            lemma_chain_none_stays(qs, index as int, steps as nat, k);
                        }
                    }
                }
                return false;
            },
            Some(c) => {
                if hits(ps, c, by_pdg, pdg, anc) {
                    return true;
                }
                if steps == n {
                    break ;
                }
                if c >= n {
                    proof {
                        assert(chain(qs, index as int, (steps + 1) as nat) is None);
                        assert forall|k: nat|
                            !(#[trigger] chain(qs, index as int, k) matches Some(a) && link_hits(
                                qs,
                                a,
                                by_pdg,
                                pdg,
                                anc,
                            )) by {
                            if k > steps {
                                lemma_chain_none_stays(qs, index as int, (steps + 1) as nat, k);
                            }
                        }
                    }
                    return false;
                }
                current = ps[c].mother;
                steps += 1;
            },
        }
    }
    proof {
        assert forall|k: nat|
            !(#[trigger] chain(qs, index as int, k) matches Some(a) && link_hits(
                qs,
                a,
                by_pdg,
                pdg,
                anc,
            )) by {
            if chain(qs, index as int, k) is Some {
                lemma_chain_bounded(qs, index as int, k);
                let k2 = choose|k2: nat|
                    k2 <= qs.len() && chain(qs, index as int, k2) == chain(qs, index as int, k);
                assert(!(chain(qs, index as int, k2) matches Some(a) && link_hits(
                    qs,
                    a,
                    by_pdg,
                    pdg,
                    anc,
                )));
            }
        }
    }
    false
}

/// Whether some ancestor of particle `index` has pdgId `ancestor_pdg_id`.
pub fn ancestor_has_pdg(ps: &[GenPartIds], index: usize, ancestor_pdg_id: i32) -> (b: bool)
    ensures
        b == has_ancestor_with(ps@, index as int, ancestor_pdg_id),
{
    let b = search_chain(ps, index, true, ancestor_pdg_id, 0);
    proof {
        if b {
            let k = choose|k: nat|
                #[trigger] chain(ps@, index as int, k) matches Some(a) && link_hits(
                    ps@,
                    a,
                    true,
                    ancestor_pdg_id,
                    0,
                );
            assert(link_has_pdg(ps@, index as int, k, ancestor_pdg_id));
        } else {
            assert forall|k: nat| !#[trigger] link_has_pdg(ps@, index as int, k, ancestor_pdg_id) by {
                assert(!(chain(ps@, index as int, k) matches Some(a) && link_hits(
                    ps@,
                    a,
                    true,
                    ancestor_pdg_id,
                    0,
                )));
            }
        }
    }
    b
}

/// The walk up the mother links from `index` stops: some link is `ancestor`,
/// or the links run out (a particle without a mother, or an index past the
/// record). Only a walk that cycles without meeting `ancestor` never stops.
pub open spec fn walk_ends(ps: Seq<GenPartIds>, index: int, ancestor: int) -> bool {
    exists|k: nat| #[trigger] chain(ps, index, k) == Some(ancestor) || chain(ps, index, k) is None
}

/// Where the links run out at all, they do within `ps.len() + 1` steps.
proof fn lemma_chain_break_bounded(ps: Seq<GenPartIds>, index: int, k: nat)
    requires
        chain(ps, index, k) is None,
    ensures
        exists|k2: nat| k2 <= ps.len() + 1 && #[trigger] chain(ps, index, k2) is None,
    decreases k,
{
    if k > ps.len() + 1 {
        let k1 = (k - 1) as nat;
        if chain(ps, index, k1) is None {
            lemma_chain_break_bounded(ps, index, k1);
        } else {
            lemma_chain_bounded(ps, index, k1);
            let k2 = choose|k2: nat| k2 <= ps.len() && chain(ps, index, k2) == chain(ps, index, k1);
            lemma_chain_shift(ps, index, k2, k1, 1);
            assert(chain(ps, index, k2 + 1) is None);
        }
    } else {
        assert(chain(ps, index, k) is None);
    }
}

/// Whether the walk up the mother links from `index` stops, at
/// `ancestor_index` or where the links run out.
pub fn descent_walk_ends(ps: &[GenPartIds], index: usize, ancestor_index: usize) -> (b: bool)
    ensures
        b == walk_ends(ps@, index as int, ancestor_index as int),
{
    let ghost qs = ps@;
    let ghost i = index as int;
    let ghost anc = ancestor_index as int;
    let n = ps.len();
    if index >= n {
        assert(chain(qs, i, 0) is None);
        return true;
    }
    let mut current: Option<usize> = ps[index].mother;
    let mut steps: usize = 0;
    loop
        invariant_except_break
            qs == ps@,
            n == qs.len(),
            i == index as int,
            anc == ancestor_index as int,
            0 <= i < n,
            steps <= n,
            match current {
                Some(c) => chain(qs, i, steps as nat) == Some(c as int),
                None => chain(qs, i, steps as nat) is None,
            },
            forall|j: nat| j < steps ==> (#[trigger] chain(qs, i, j)) is Some && chain(qs, i, j) != Some(anc),
        ensures
            qs == ps@,
            n == qs.len(),
            i == index as int,
            anc == ancestor_index as int,
            steps == n,
            current matches Some(c) && c < n && chain(qs, i, steps as nat) == Some(c as int),
            forall|j: nat| j <= steps ==> (#[trigger] chain(qs, i, j)) is Some && chain(qs, i, j) != Some(anc),
        decreases n - steps,
    {
        match current {
            None => {
                assert(chain(qs, i, steps as nat) is None);
                return true;
            },
            Some(c) => {
                if c == ancestor_index {
                    assert(chain(qs, i, steps as nat) == Some(anc));
                    return true;
                }
                if c >= n {
                    assert(chain(qs, i, (steps + 1) as nat) is None);
                    return true;
                }
                if steps == n {
                    break ;
                }
                current = ps[current.unwrap()].mother;
                steps += 1;
            },
        }
    }
    let last = ps[current.unwrap()].mother;
    assert(chain(qs, i, (n + 1) as nat) == mother_of(qs, current.unwrap() as int));
    match last {
        None => {
            assert(chain(qs, i, (n + 1) as nat) is None);
            true
        },
        Some(m) => {
            if m == ancestor_index {
                assert(chain(qs, i, (n + 1) as nat) == Some(anc));
                return true;
            }
            proof {
                assert forall|k: nat|
                    !(#[trigger] chain(qs, i, k) == Some(anc) || chain(qs, i, k) is None) by {
                    if chain(qs, i, k) is None {
                        lemma_chain_break_bounded(qs, i, k);
                        let k2 = choose|k2: nat| k2 <= qs.len() + 1 && #[trigger] chain(qs, i, k2) is None;
                        if k2 <= n {
                            assert(chain(qs, i, k2) is Some);
                        }
                    } else {
                        lemma_chain_bounded(qs, i, k);
                        let k2 = choose|k2: nat| k2 <= qs.len() && chain(qs, i, k2) == chain(qs, i, k);
                        assert(chain(qs, i, k2) != Some(anc));
                    }
                }
            }
            false
        },
    }
}

/// Whether the particle at `ancestor_index` is reached from particle `index`
/// by following mother links. The walk is asked of a record on which it
/// stops: one whose links from `index` cycle without meeting
/// `ancestor_index` would be followed forever.
pub fn is_descendant_of(ps: &[GenPartIds], index: usize, ancestor_index: usize) -> (b: bool)
    requires
        walk_ends(ps@, index as int, ancestor_index as int),
    ensures
        b == is_descendant(ps@, index as int, ancestor_index as int),
{
    let b = search_chain(ps, index, false, 0, ancestor_index);
    proof {
        if b {
            let k = choose|k: nat|
                #[trigger] chain(ps@, index as int, k) matches Some(a) && link_hits(
                    ps@,
                    a,
                    false,
                    0,
                    ancestor_index,
                );
            assert(chain(ps@, index as int, k) == Some(ancestor_index as int));
        } else {
            assert forall|k: nat| #[trigger] chain(ps@, index as int, k) != Some(ancestor_index as int) by {
                assert(!(chain(ps@, index as int, k) matches Some(a) && link_hits(
                    ps@,
                    a,
                    false,
                    0,
                    ancestor_index,
                )));
            }
        }
    }
    b
}

proof fn lemma_chain_compose(ps: Seq<GenPartIds>, i: int, a: int, k1: nat, k2: nat)
    requires
        chain(ps, i, k1) == Some(a),
    ensures
        chain(ps, i, k1 + k2 + 1) == chain(ps, a, k2),
    decreases k2,
{
    if k2 == 0 {
        assert(chain(ps, i, k1 + 1) == mother_of(ps, a));
    } else {
        lemma_chain_compose(ps, i, a, k1, (k2 - 1) as nat);
        assert(chain(ps, i, k1 + k2 + 1) == match chain(ps, i, (k1 + k2) as nat) {
            Some(x) => mother_of(ps, x),
            None => None,
        });
    }
}

/// Descent is transitive: a descendant of a descendant of `b` descends from `b`.
pub proof fn law_descent_is_transitive(ps: Seq<GenPartIds>, i: int, a: int, b: int)
    requires
        is_descendant(ps, i, a),
        is_descendant(ps, a, b),
    ensures
        is_descendant(ps, i, b),
{
    let k1 = choose|k: nat| #[trigger] chain(ps, i, k) == Some(a);
    let k2 = choose|k: nat| #[trigger] chain(ps, a, k) == Some(b);
    lemma_chain_compose(ps, i, a, k1, k2);
    assert(chain(ps, i, k1 + k2 + 1) == Some(b));
}

/// A particle has an ancestor with code `pdg_id` exactly when some particle
/// with that code is reached from it by mother links.
pub proof fn law_ancestor_code_is_reached_particle(ps: Seq<GenPartIds>, index: int, pdg_id: i32)
    ensures
        has_ancestor_with(ps, index, pdg_id) <==> exists|a: int|
            0 <= a < ps.len() && ps[a].pdg_id == pdg_id && #[trigger] is_descendant(ps, index, a),
{
    if has_ancestor_with(ps, index, pdg_id) {
        let k = choose|k: nat| #[trigger] link_has_pdg(ps, index, k, pdg_id);
        let a = chain(ps, index, k)->0;
        assert(chain(ps, index, k) == Some(a));
        assert(is_descendant(ps, index, a));
    }
    if exists|a: int| 0 <= a < ps.len() && ps[a].pdg_id == pdg_id && #[trigger] is_descendant(ps, index, a) {
        let a = choose|a: int| 0 <= a < ps.len() && ps[a].pdg_id == pdg_id && #[trigger] is_descendant(ps, index, a);
        let k = choose|k: nat| #[trigger] chain(ps, index, k) == Some(a);
        assert(link_has_pdg(ps, index, k, pdg_id));
    }
}

} // verus!
